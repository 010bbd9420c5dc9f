use vstd::prelude::*;
use crate::plic::{
    bit_set, enable_word_address, enable_word_address_spec, MmioWrite, PLIC_ENABLE_SOURCES,
    PLIC_ENABLE_WORDS,
};

verus! {

/// Memory copy of the PLIC enable words of context 2.
///
/// The enable block of this SoC faults when read, so the enable bits are kept
/// here and each change is written out as a whole word. Bit `b` of word `w`
/// enables source `32 * w + b`.
pub struct EnableShadow {
    words: [u32; PLIC_ENABLE_WORDS],
}

/// The set of enabled sources after setting the enable bit of `irq` to
/// `enabled`; a source beyond the shadow leaves the set as it is.
pub open spec fn updated_sources(sources: Set<u32>, irq: u32, enabled: bool) -> Set<u32> {
    if irq < PLIC_ENABLE_SOURCES {
        if enabled {
            sources.insert(irq)
        } else {
            sources.remove(irq)
        }
    } else {
        sources
    }
}

proof fn lemma_bit_or(w: u32, b: u32, c: u32)
    requires
        b < 32,
        c < 32,
    ensures
        bit_set(w | (1u32 << b), c) == (c == b || bit_set(w, c)),
{
    assert(((w | (1u32 << b)) >> c) & 1u32 == 1u32 <==> (c == b || (w >> c) & 1u32 == 1u32))
        by (bit_vector)
        requires
            b < 32,
            c < 32,
    ;
}

proof fn lemma_bit_and_not(w: u32, b: u32, c: u32)
    requires
        b < 32,
        c < 32,
    ensures
        bit_set(w & !(1u32 << b), c) == (c != b && bit_set(w, c)),
{
    assert(((w & !(1u32 << b)) >> c) & 1u32 == 1u32 <==> (c != b && (w >> c) & 1u32 == 1u32))
        by (bit_vector)
        requires
            b < 32,
            c < 32,
    ;
}

proof fn lemma_zero_bits(c: u32)
    requires
        c < 32,
    ensures
        !bit_set(0u32, c),
{
    assert((0u32 >> c) & 1u32 != 1u32) by (bit_vector);
}

impl View for EnableShadow {
    type V = Set<u32>;

    /// The enabled sources.
    open spec fn view(&self) -> Set<u32> {
        Set::new(
            |irq: u32|
                irq < PLIC_ENABLE_SOURCES && bit_set(self.words()[(irq / 32) as int], irq % 32),
        )
    }
}

impl EnableShadow {
    /// The enable words, in register order.
    pub closed spec fn words(self) -> Seq<u32> {
        self.words@
    }

    /// There are always `PLIC_ENABLE_WORDS` enable words.
    pub proof fn lemma_words_len(self)
        ensures
            self.words().len() == PLIC_ENABLE_WORDS,
    {
    }

    /// A shadow with every source disabled, as after reset.
    pub fn new() -> (r: Self)
        ensures
            r@ == Set::<u32>::empty(),
            r.words() == seq![0u32, 0u32, 0u32, 0u32],
            r.words().len() == PLIC_ENABLE_WORDS,
    {
        let r = EnableShadow { words: [0u32, 0u32, 0u32, 0u32] };
        assert(r.words() =~= seq![0u32, 0u32, 0u32, 0u32]);
        assert forall|irq: u32| !r@.contains(irq) by {
            if irq < PLIC_ENABLE_SOURCES {
                lemma_zero_bits(irq % 32);
            }
        }
        assert(r@ =~= Set::<u32>::empty());
        r
    }

    /// Whether `irq` is enabled in the shadow.
    pub fn is_enabled(&self, irq: u32) -> (r: bool)
        ensures
            r == self@.contains(irq),
    {
        if irq >= PLIC_ENABLE_SOURCES {
            return false;
        }
        let word = self.words[(irq / 32) as usize];
        (word >> (irq % 32)) & 1 == 1
    }

    /// Sets or clears the enable bit of `irq` and returns the store that
    /// brings the hardware enable word in line with the shadow; a source
    /// beyond the shadow changes nothing and needs no store.
    pub fn update(&mut self, irq: u32, enabled: bool) -> (w: Option<MmioWrite>)
        ensures
            final(self)@ == updated_sources(old(self)@, irq, enabled),
            final(self).words().len() == PLIC_ENABLE_WORDS,
            irq >= PLIC_ENABLE_SOURCES ==> final(self).words() == old(self).words() && w
                is None,
            irq < PLIC_ENABLE_SOURCES ==> {
                let k = (irq / 32) as int;
                &&& final(self).words() == old(self).words().update(k, final(self).words()[k])
                &&& w == Some(
                    MmioWrite {
                        addr: enable_word_address_spec(k) as u64,
                        value: final(self).words()[k],
                    },
                )
            },
    {
        let word_idx = (irq / 32) as usize;
        let bit = irq % 32;
        if word_idx >= PLIC_ENABLE_WORDS {
            return None;
        }
        let ghost old_words = self.words@;
        let old_word = self.words[word_idx];
        let new_word = if enabled {
            old_word | (1u32 << bit)
        } else {
            old_word & !(1u32 << bit)
        };
        self.words[word_idx] = new_word;
        proof {
            assert(self.words@ == old_words.update(word_idx as int, new_word));
            let target = updated_sources(old(self)@, irq, enabled);
            assert forall|j: u32| #[trigger] self@.contains(j) == target.contains(j) by {
                if j < PLIC_ENABLE_SOURCES && j / 32 == irq / 32 {
                    if enabled {
                        lemma_bit_or(old_word, bit, j % 32);
                    } else {
                        lemma_bit_and_not(old_word, bit, j % 32);
                    }
                }
            }
            assert(self@ =~= target);
        }
        let addr = enable_word_address(word_idx);
        Some(MmioWrite { addr, value: new_word })
    }
}

/// Bit `b` of enable word `w` is set exactly when source `32 * w + b` is
/// enabled: the word that `update` stores mirrors the shadow.
pub proof fn lemma_word_mirrors_sources(s: EnableShadow, w: int, b: u32)
    requires
        0 <= w < PLIC_ENABLE_WORDS,
        b < 32,
    ensures
        bit_set(s.words()[w], b) == s@.contains((32 * w + b) as u32),
{
    let irq = (32 * w + b) as u32;
    assert(irq / 32 == w && irq % 32 == b);
}

/// The shadow only ever holds sources below `PLIC_ENABLE_SOURCES`.
pub proof fn lemma_sources_in_range(s: EnableShadow, irq: u32)
    requires
        s@.contains(irq),
    ensures
        irq < PLIC_ENABLE_SOURCES,
{
}

/// After an update, the source that was updated is enabled exactly as asked,
/// and every other source is as before.
pub proof fn lemma_update_sets_only_its_source(sources: Set<u32>, irq: u32, enabled: bool, other: u32)
    requires
        irq < PLIC_ENABLE_SOURCES,
        other != irq,
    ensures
        updated_sources(sources, irq, enabled).contains(irq) == enabled,
        updated_sources(sources, irq, enabled).contains(other) == sources.contains(other),
{
}

/// Disabling a source just enabled, or enabling one just disabled, gives
/// back the sources from before.
pub proof fn lemma_update_round_trip(sources: Set<u32>, irq: u32)
    ensures
        !sources.contains(irq) ==> updated_sources(updated_sources(sources, irq, true), irq, false)
            == sources,
        sources.contains(irq) ==> updated_sources(updated_sources(sources, irq, false), irq, true)
            == sources,
{
    assert(!sources.contains(irq) ==> sources.insert(irq).remove(irq) =~= sources);
    assert(sources.contains(irq) ==> sources.remove(irq).insert(irq) =~= sources);
}

/// Setting the same bit twice is the same as setting it once.
pub proof fn lemma_update_idempotent(sources: Set<u32>, irq: u32, enabled: bool)
    ensures
        updated_sources(updated_sources(sources, irq, enabled), irq, enabled) == updated_sources(
            sources,
            irq,
            enabled,
        ),
{
    assert(updated_sources(updated_sources(sources, irq, enabled), irq, enabled) =~= updated_sources(
        sources,
        irq,
        enabled,
    ));
}

/// Updates of different sources commute.
pub proof fn lemma_updates_commute(sources: Set<u32>, i: u32, e: bool, j: u32, f: bool)
    requires
        i != j,
    ensures
        updated_sources(updated_sources(sources, i, e), j, f) == updated_sources(
            updated_sources(sources, j, f),
            i,
            e,
        ),
{
    assert(updated_sources(updated_sources(sources, i, e), j, f) =~= updated_sources(
        updated_sources(sources, j, f),
        i,
        e,
    ));
}

/// The enabled sources after the updates `ops` (source, enabled) are made in
/// order on a shadow fresh from `EnableShadow::new`: each `update` is one
/// `updated_sources` step.
pub open spec fn sources_after(ops: Seq<(u32, bool)>) -> Set<u32>
    decreases ops.len(),
{
    if ops.len() == 0 {
        Set::empty()
    } else {
        updated_sources(sources_after(ops.drop_last()), ops.last().0, ops.last().1)
    }
}

/// The setting that the last update of `irq` among `ops` asked for; `false`
/// (disabled, as after reset) when there is none.
pub open spec fn last_setting(ops: Seq<(u32, bool)>, irq: u32) -> bool
    decreases ops.len(),
{
    if ops.len() == 0 {
        false
    } else if ops.last().0 == irq {
        ops.last().1
    } else {
        last_setting(ops.drop_last(), irq)
    }
}

/// After any sequence of updates from reset, a source is enabled exactly when
/// it is within the shadow and its last update enabled it.
pub proof fn lemma_sources_after_updates(ops: Seq<(u32, bool)>, irq: u32)
    ensures
        sources_after(ops).contains(irq) == (irq < PLIC_ENABLE_SOURCES && last_setting(ops, irq)),
    decreases ops.len(),
{
    if ops.len() > 0 {
        lemma_sources_after_updates(ops.drop_last(), irq);
    }
}

/// Updates after position `j` that touch no source of enable word `w` leave
/// the sources of that word as they were right after update `j`: the last
/// store to word `w`, made by update `j` and holding the word's bits at that
/// moment (see `update` and `lemma_word_mirrors_sources`), still mirrors the
/// shadow after the whole sequence.
pub proof fn lemma_last_store_mirrors_shadow(ops: Seq<(u32, bool)>, j: int, w: int, irq: u32)
    requires
        0 <= j < ops.len(),
        0 <= w < PLIC_ENABLE_WORDS,
        forall|k: int| j < k < ops.len() ==> #[trigger] (ops[k].0 / 32) != w,
        irq / 32 == w,
    ensures
        sources_after(ops.take(j + 1)).contains(irq) == sources_after(ops).contains(irq),
    decreases ops.len(),
{
    if ops.len() > j + 1 {
        let p = ops.drop_last();
        assert forall|k: int| j < k < p.len() implies #[trigger] (p[k].0 / 32) != w by {
            assert(p[k] == ops[k]);
            assert(ops[k].0 / 32 != w);
        }
        lemma_last_store_mirrors_shadow(p, j, w, irq);
        assert(p.take(j + 1) =~= ops.take(j + 1));
        assert(ops[ops.len() - 1].0 / 32 != w);
    } else {
        assert(ops.take(j + 1) =~= ops);
    }
}

} // verus!
