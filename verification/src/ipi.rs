use vstd::prelude::*;

verus! {

/// Where an inter-processor interrupt goes.
#[derive(PartialEq, Eq, Structural, Clone, Copy, Debug)]
pub enum IpiTarget {
    /// The current CPU.
    Current { cpu_id: usize },
    /// One other CPU.
    Other { cpu_id: usize },
    /// Every CPU below `cpu_num` except the current one.
    AllExceptCurrent { cpu_id: usize, cpu_num: usize },
}

/// The hart that CPU `cpu` runs on: hart 0 of this SoC has no S-mode, so CPU
/// ids start at hart 1.
pub open spec fn hart_of_cpu(cpu: int) -> int {
    cpu + 1
}

/// The SBI hart mask (with base 0) that selects the hart of CPU `cpu` alone.
pub open spec fn cpu_mask(cpu: usize) -> usize {
    1usize << (hart_of_cpu(cpu as int) as usize)
}

/// The single-hart masks of CPUs `0..n` other than `cpu_id`, by increasing CPU id.
pub open spec fn all_except_masks(cpu_id: usize, n: nat) -> Seq<usize>
    decreases n,
{
    if n == 0 {
        Seq::empty()
    } else {
        let before = all_except_masks(cpu_id, (n - 1) as nat);
        if n - 1 == cpu_id as int {
            before
        } else {
            before.push(cpu_mask((n - 1) as usize))
        }
    }
}

/// The hart masks, one per SBI `send_ipi` call, for an IPI to `target`.
pub open spec fn ipi_masks(target: IpiTarget) -> Seq<usize> {
    match target {
        IpiTarget::Current { cpu_id } => seq![cpu_mask(cpu_id)],
        IpiTarget::Other { cpu_id } => seq![cpu_mask(cpu_id)],
        IpiTarget::AllExceptCurrent { cpu_id, cpu_num } => all_except_masks(cpu_id, cpu_num as nat),
    }
}

/// Whether the hart of every CPU that an IPI to `target` goes to has a bit
/// in a machine word.
pub open spec fn ipi_target_fits(target: IpiTarget) -> bool {
    match target {
        IpiTarget::Current { cpu_id } => hart_of_cpu(cpu_id as int) < usize::BITS,
        IpiTarget::Other { cpu_id } => hart_of_cpu(cpu_id as int) < usize::BITS,
        IpiTarget::AllExceptCurrent { cpu_id, cpu_num } => forall|i: int|
            0 <= i < cpu_num && i != cpu_id ==> #[trigger] hart_of_cpu(i) < usize::BITS,
    }
}

/// The hart masks (base 0) to send an IPI to `target` with, one SBI call per
/// mask and in this order: one mask for the current or another CPU, and one
/// mask per other CPU, by increasing id, for all CPUs except the current one.
/// CPU `n` is selected by the bit of its hart, `n + 1`.
pub fn ipi_hart_masks(target: IpiTarget) -> (r: Vec<usize>)
    requires
        ipi_target_fits(target),
    ensures
        r@ == ipi_masks(target),
{
    match target {
        IpiTarget::Current { cpu_id } => {
            let mut r: Vec<usize> = Vec::new();
            r.push(1usize << (cpu_id + 1));
            assert(r@ =~= seq![cpu_mask(cpu_id)]);
            r
        },
        IpiTarget::Other { cpu_id } => {
            let mut r: Vec<usize> = Vec::new();
            r.push(1usize << (cpu_id + 1));
            assert(r@ =~= seq![cpu_mask(cpu_id)]);
            r
        },
        IpiTarget::AllExceptCurrent { cpu_id, cpu_num } => {
            let mut r: Vec<usize> = Vec::new();
            let mut i: usize = 0;
            while i < cpu_num
                invariant
                    i <= cpu_num,
                    forall|k: int|
                        0 <= k < cpu_num && k != cpu_id ==> #[trigger] hart_of_cpu(k) < usize::BITS,
                    r@ == all_except_masks(cpu_id, i as nat),
                decreases cpu_num - i,
            {
                if i != cpu_id {
                    assert(hart_of_cpu(i as int) < usize::BITS);
                    r.push(1usize << (i + 1));
                }
                i = i + 1;
            }
            r
        },
    }
}

proof fn lemma_cpu_masks_distinct(i: usize, j: usize)
    requires
        i + 1 < usize::BITS,
        j + 1 < usize::BITS,
        i != j,
    ensures
        cpu_mask(i) != cpu_mask(j),
{
    let a = (i + 1) as usize;
    let b = (j + 1) as usize;
    assert(1usize << a != 1usize << b) by (bit_vector)
        requires
            a < usize::BITS,
            b < usize::BITS,
            a != b,
    ;
}

/// The CPU that the `k`-th mask of an all-but-`cpu_id` IPI selects.
pub open spec fn skip_current(cpu_id: usize, k: int) -> int {
    if k < cpu_id {
        k
    } else {
        k + 1
    }
}

/// The masks of an IPI to all CPUs below `n` except `cpu_id`, written out:
/// mask `k` selects CPU `k` below the current CPU and CPU `k + 1` from it on.
pub proof fn lemma_all_except_masks_closed_form(cpu_id: usize, n: nat)
    ensures
        all_except_masks(cpu_id, n).len() == (if cpu_id < n { (n - 1) as nat } else { n }),
        forall|k: int|
            0 <= k < all_except_masks(cpu_id, n).len() ==> #[trigger] all_except_masks(cpu_id, n)[k]
                == cpu_mask(skip_current(cpu_id, k) as usize),
    decreases n,
{
    if n > 0 {
        lemma_all_except_masks_closed_form(cpu_id, (n - 1) as nat);
    }
}

/// An IPI to all CPUs except the current one reaches exactly the CPUs below
/// `cpu_num` other than the current one, so never the current CPU, and each
/// of them by exactly one call.
pub proof fn lemma_all_except_targets(cpu_id: usize, n: nat, i: usize)
    requires
        ipi_target_fits(IpiTarget::AllExceptCurrent { cpu_id, cpu_num: n as usize }),
        n <= usize::MAX,
        i + 1 < usize::BITS,
    ensures
        all_except_masks(cpu_id, n).contains(cpu_mask(i)) <==> (i < n && i != cpu_id),
        forall|a: int, b: int|
            0 <= a < b < all_except_masks(cpu_id, n).len() ==> all_except_masks(cpu_id, n)[a]
                != all_except_masks(cpu_id, n)[b],
{
    lemma_all_except_masks_closed_form(cpu_id, n);
    let masks = all_except_masks(cpu_id, n);
    if i < n && i != cpu_id {
        let k: int = if i < cpu_id { i as int } else { i - 1 };
        assert(masks[k] == cpu_mask(i));
    }
    if masks.contains(cpu_mask(i)) {
        let k = choose|k: int| 0 <= k < masks.len() && masks[k] == cpu_mask(i);
        let j = skip_current(cpu_id, k);
        assert(0 <= j < n && j != cpu_id);
        assert(hart_of_cpu(j) < usize::BITS);
        if j != i {
            lemma_cpu_masks_distinct(j as usize, i);
        }
    }
    assert forall|a: int, b: int| 0 <= a < b < masks.len() implies masks[a] != masks[b] by {
        let ja = skip_current(cpu_id, a);
        let jb = skip_current(cpu_id, b);
        assert(hart_of_cpu(ja) < usize::BITS);
        assert(hart_of_cpu(jb) < usize::BITS);
        lemma_cpu_masks_distinct(ja as usize, jb as usize);
    }
}

/// The mask for a CPU selects exactly one hart, the hart of that CPU
/// (`cpu + 1`): bit `b` of it is set exactly when `b == cpu + 1`.
pub proof fn lemma_cpu_mask_single_hart(cpu: usize, b: usize)
    requires
        cpu + 1 < usize::BITS,
        b < usize::BITS,
    ensures
        cpu_mask(cpu) == 1usize << ((cpu + 1) as usize),
        ((cpu_mask(cpu) >> b) & 1usize == 1usize) <==> b == cpu + 1,
{
    let h = (cpu + 1) as usize;
    assert(((1usize << h) >> b) & 1usize == 1usize <==> b == h) by (bit_vector)
        requires
            h < usize::BITS,
            b < usize::BITS,
    ;
}

/// An IPI to the current CPU and one to another CPU with the same id are the
/// same single SBI call: one mask, selecting exactly the hart of that CPU.
pub proof fn lemma_single_target_masks(cpu_id: usize)
    requires
        cpu_id + 1 < usize::BITS,
    ensures
        ipi_masks(IpiTarget::Current { cpu_id }) == ipi_masks(IpiTarget::Other { cpu_id }),
        ipi_masks(IpiTarget::Current { cpu_id }).len() == 1,
        ipi_masks(IpiTarget::Current { cpu_id })[0] == 1usize << ((cpu_id + 1) as usize),
        forall|b: usize|
            b < usize::BITS ==> (((ipi_masks(IpiTarget::Current { cpu_id })[0] >> b) & 1usize
                == 1usize) <==> b == cpu_id + 1),
{
    assert forall|b: usize| b < usize::BITS implies (((ipi_masks(IpiTarget::Current { cpu_id })[0]
        >> b) & 1usize == 1usize) <==> b == cpu_id + 1) by {
        lemma_cpu_mask_single_hart(cpu_id, b);
    }
    lemma_cpu_mask_single_hart(cpu_id, 0);
}

} // verus!
