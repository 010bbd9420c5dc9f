use vstd::prelude::*;

verus! {

/// Line feed.
pub const LF: u8 = 0x0a;

/// Carriage return.
pub const CR: u8 = 0x0d;

/// Physical address of the UART (a Synopsys DesignWare APB UART).
pub const UART_PADDR: u64 = 0x0414_0000;

/// Distance in bytes between consecutive UART registers (`reg-shift = 2`).
pub const UART_REG_STRIDE: u64 = 4;

/// The PLIC source of the UART.
pub const UART_IRQ: usize = 0x2c;

/// Register index of the interrupt enable register (IER).
pub const UART_REG_IER: u64 = 1;

/// Register index of the line status register (LSR).
pub const UART_REG_LSR: u64 = 5;

/// Register index of the DesignWare UART status register (USR).
pub const UART_REG_USR: u64 = 31;

/// IER bit that enables the "received data available" interrupt (ERBFI).
pub const UART_IER_ERBFI: u32 = 1;

/// Kernel virtual address of UART register `index` in the linear mapping.
pub fn uart_register_va(index: u64) -> (r: u64)
    requires
        index < 64,
    ensures
        r == crate::plic::PHYS_VIRT_OFFSET + UART_PADDR + UART_REG_STRIDE * index,
{
    crate::plic::PHYS_VIRT_OFFSET + UART_PADDR + UART_REG_STRIDE * index
}

/// What the console sends to the UART for one byte: a line feed goes out as
/// CR LF, every other byte as itself.
pub open spec fn expanded(c: u8) -> Seq<u8> {
    if c == LF {
        seq![CR, LF]
    } else {
        seq![c]
    }
}

/// What the console sends to the UART for `s`: each byte expanded in turn.
pub open spec fn encoded(s: Seq<u8>) -> Seq<u8>
    decreases s.len(),
{
    if s.len() == 0 {
        Seq::empty()
    } else {
        encoded(s.drop_last()) + expanded(s.last())
    }
}

/// Number of line feeds in `s`.
pub open spec fn count_lf(s: Seq<u8>) -> nat
    decreases s.len(),
{
    if s.len() == 0 {
        0
    } else {
        count_lf(s.drop_last()) + (if s.last() == LF { 1nat } else { 0nat })
    }
}

/// The bytes to send to the UART for the byte `c`.
pub fn expand_byte(c: u8) -> (r: Vec<u8>)
    ensures
        r@ == expanded(c),
{
    let mut r: Vec<u8> = Vec::new();
    if c == LF {
        r.push(CR);
        r.push(LF);
    } else {
        r.push(c);
    }
    assert(r@ =~= expanded(c));
    r
}

/// The bytes to send to the UART for `bytes`, with every line feed turned
/// into CR LF.
pub fn encode_output(bytes: &[u8]) -> (r: Vec<u8>)
    ensures
        r@ == encoded(bytes@),
{
    let mut r: Vec<u8> = Vec::new();
    let mut i: usize = 0;
    while i < bytes.len()
        invariant
            i <= bytes@.len(),
            r@ == encoded(bytes@.subrange(0, i as int)),
        decreases bytes@.len() - i,
    {
        let c = bytes[i];
        let piece = expand_byte(c);
        let mut j: usize = 0;
        let ghost before = r@;
        while j < piece.len()
            invariant
                j <= piece@.len(),
                r@ == before + piece@.subrange(0, j as int),
            decreases piece@.len() - j,
        {
            r.push(piece[j]);
            j = j + 1;
            assert(r@ =~= before + piece@.subrange(0, j as int));
        }
        assert(piece@.subrange(0, j as int) =~= piece@);
        assert(bytes@.subrange(0, i + 1).drop_last() =~= bytes@.subrange(0, i as int));
        i = i + 1;
    }
    assert(bytes@.subrange(0, i as int) =~= bytes@);
    r
}

/// Encoding a concatenation encodes each part: the bytes of one call end up
/// on the line as if written piecewise.
pub proof fn lemma_encoded_concat(a: Seq<u8>, b: Seq<u8>)
    ensures
        encoded(a + b) == encoded(a) + encoded(b),
    decreases b.len(),
{
    if b.len() == 0 {
        assert(a + b =~= a);
        assert(encoded(a) + encoded(b) =~= encoded(a));
    } else {
        assert((a + b).drop_last() =~= a + b.drop_last());
        assert((a + b).last() == b.last());
        lemma_encoded_concat(a, b.drop_last());
        assert(encoded(a + b) =~= encoded(a) + encoded(b));
    }
}

/// The console sends one extra byte per line feed.
pub proof fn lemma_encoded_len(s: Seq<u8>)
    ensures
        encoded(s).len() == s.len() + count_lf(s),
    decreases s.len(),
{
    if s.len() > 0 {
        lemma_encoded_len(s.drop_last());
    }
}

/// Every line feed that reaches the UART directly follows a carriage return.
pub proof fn lemma_lf_follows_cr(s: Seq<u8>)
    ensures
        forall|k: int|
            0 <= k < encoded(s).len() && #[trigger] encoded(s)[k] == LF ==> k > 0 && encoded(s)[k
                - 1] == CR,
    decreases s.len(),
{
    if s.len() > 0 {
        let p = s.drop_last();
        lemma_lf_follows_cr(p);
        let e = encoded(p);
        let x = expanded(s.last());
        assert(encoded(s) == e + x);
        assert forall|k: int| 0 <= k < encoded(s).len() && #[trigger] encoded(s)[k] == LF implies k
            > 0 && encoded(s)[k - 1] == CR by {
            if k < e.len() {
                assert(encoded(s)[k] == e[k]);
                assert(encoded(s)[k - 1] == e[k - 1]);
            } else {
                assert(encoded(s)[k] == x[k - e.len()]);
                if s.last() == LF {
                    if k == e.len() {
                        assert(x[0] == CR);
                    } else {
                        assert(encoded(s)[k - 1] == x[0]);
                    }
                } else {
                    assert(x[0] == s.last());
                }
            }
        }
    }
}

/// What a read from the console does next.
#[derive(PartialEq, Eq, Structural, Clone, Copy, Debug)]
pub enum RxStep {
    /// Try to receive one more byte from the UART.
    Receive,
    /// Stop: re-enable the UART receive interrupt and report this many bytes read.
    Finish(usize),
}

/// The step after storing at `filled` into a buffer of `capacity` bytes what
/// the UART gave (`None`: nothing was waiting).
pub open spec fn rx_next(filled: usize, capacity: usize, received: Option<u8>) -> RxStep {
    match received {
        Some(_) => if filled + 1 < capacity {
            RxStep::Receive
        } else {
            RxStep::Finish(capacity)
        },
        None => RxStep::Finish(filled),
    }
}

/// The first step of a read into a buffer of `capacity` bytes: an empty buffer
/// is done at once, with nothing received.
pub fn rx_begin(capacity: usize) -> (r: RxStep)
    ensures
        r == (if capacity == 0 { RxStep::Finish(0) } else { RxStep::Receive }),
{
    if capacity == 0 {
        RxStep::Finish(0)
    } else {
        RxStep::Receive
    }
}

/// Takes what the UART gave for position `filled` of `bytes`: a received
/// byte is stored there, and the read goes on until the buffer is full; when
/// nothing was waiting the read ends with `filled` bytes.
pub fn rx_store(bytes: &mut [u8], filled: usize, received: Option<u8>) -> (r: RxStep)
    requires
        filled < old(bytes)@.len(),
    ensures
        r == rx_next(filled, old(bytes)@.len() as usize, received),
        final(bytes)@ == (match received {
            Some(c) => old(bytes)@.update(filled as int, c),
            None => old(bytes)@,
        }),
{
    match received {
        Some(c) => {
            bytes[filled] = c;
            if filled + 1 < bytes.len() {
                RxStep::Receive
            } else {
                RxStep::Finish(bytes.len())
            }
        },
        None => RxStep::Finish(filled),
    }
}

/// Number of bytes the UART hands over before it first has nothing waiting.
pub open spec fn leading_received(incoming: Seq<Option<u8>>) -> nat
    decreases incoming.len(),
{
    if incoming.len() == 0 {
        0
    } else if incoming[0] is Some {
        1 + leading_received(incoming.drop_first())
    } else {
        0
    }
}

/// The step a read reaches from position `filled` when the UART answers the
/// successive receive attempts with `incoming`; `Receive` if `incoming` runs
/// out first.
pub open spec fn rx_drive(filled: usize, capacity: usize, incoming: Seq<Option<u8>>) -> RxStep
    decreases incoming.len(),
{
    if incoming.len() == 0 {
        RxStep::Receive
    } else {
        match rx_next(filled, capacity, incoming[0]) {
            RxStep::Receive => rx_drive((filled + 1) as usize, capacity, incoming.drop_first()),
            done => done,
        }
    }
}

/// A read into a buffer of `capacity` bytes returns the number of bytes
/// received before the UART first had nothing waiting, but at most
/// `capacity`; it needs at most `capacity - filled` receive attempts.
pub proof fn lemma_read_count(filled: usize, capacity: usize, incoming: Seq<Option<u8>>)
    requires
        filled < capacity,
        incoming.len() >= capacity - filled,
    ensures
        rx_drive(filled, capacity, incoming) == RxStep::Finish(
            (filled + vstd::math::min(
                (capacity - filled) as int,
                leading_received(incoming) as int,
            )) as usize,
        ),
    decreases capacity - filled,
{
    if incoming[0] is Some && filled + 1 < capacity {
        lemma_read_count((filled + 1) as usize, capacity, incoming.drop_first());
    }
}

/// The PLIC source of the console's UART, for its receive interrupt.
pub fn console_irq_num() -> (r: Option<usize>)
    ensures
        r == Some(UART_IRQ),
{
    Some(UART_IRQ)
}

/// Every byte other than a line feed is sent as itself, alone; a line feed is
/// sent as CR LF.
pub proof fn lemma_expanded_bytes(c: u8)
    ensures
        c != LF ==> expanded(c) == seq![c],
        c == LF ==> expanded(c) == seq![0x0du8, 0x0au8],
        expanded(c).len() >= 1,
        expanded(c).last() == c,
{
}

/// Text without line feeds is sent unchanged, whatever its bytes.
pub proof fn lemma_encoded_without_lf(s: Seq<u8>)
    requires
        forall|k: int| 0 <= k < s.len() ==> s[k] != 0x0au8,
    ensures
        encoded(s) == s,
    decreases s.len(),
{
    if s.len() > 0 {
        lemma_encoded_without_lf(s.drop_last());
        assert(s.last() != LF);
        assert(encoded(s.drop_last()) + seq![s.last()] =~= s);
    }
}

/// The output for `s` followed by one byte `c` is the output for `s`
/// followed by `c` (preceded by CR when `c` is a line feed).
pub proof fn lemma_encoded_push(s: Seq<u8>, c: u8)
    ensures
        c != 0x0au8 ==> encoded(s.push(c)) == encoded(s).push(c),
        c == 0x0au8 ==> encoded(s.push(c)) == encoded(s).push(0x0du8).push(0x0au8),
{
    assert(s.push(c).drop_last() =~= s);
    assert(encoded(s) + seq![c] =~= encoded(s).push(c));
    assert(encoded(s) + seq![0x0du8, 0x0au8] =~= encoded(s).push(0x0du8).push(0x0au8));
}

} // verus!
