use vstd::prelude::*;

verus! {

/// The `Interrupt` bit of `scause`: the highest bit of a machine word.
pub const INTC_IRQ_BASE: usize = 1usize << (usize::BITS - 1);

/// Supervisor software interrupt in `scause`.
pub const S_SOFT: usize = INTC_IRQ_BASE | 1;

/// Supervisor timer interrupt in `scause`.
pub const S_TIMER: usize = INTC_IRQ_BASE | 5;

/// Supervisor external interrupt in `scause`.
pub const S_EXT: usize = INTC_IRQ_BASE | 9;

/// What an interrupt number stands for.
///
/// A number whose highest bit is set comes from `scause` (a CPU-side
/// interrupt); a number whose highest bit is clear is a PLIC source id.
#[derive(PartialEq, Eq, Structural, Clone, Copy, Debug)]
pub enum IrqCause {
    /// The supervisor timer interrupt (`S_TIMER`).
    Timer,
    /// The supervisor software interrupt, used for IPIs (`S_SOFT`).
    Soft,
    /// The supervisor external interrupt (`S_EXT`); the source is claimed from the PLIC.
    External,
    /// A device-side interrupt: the PLIC source with this number.
    Device(usize),
}

/// Whether `irq` has the `scause` interrupt bit set, i.e. is a CPU-side number.
pub open spec fn is_cpu_side(irq: usize) -> bool {
    irq >= INTC_IRQ_BASE
}

/// The meaning of an interrupt number; `None` for a CPU-side number other than
/// the timer, software and external interrupts.
pub open spec fn cause_of(irq: usize) -> Option<IrqCause> {
    if irq == S_TIMER {
        Some(IrqCause::Timer)
    } else if irq == S_SOFT {
        Some(IrqCause::Soft)
    } else if irq == S_EXT {
        Some(IrqCause::External)
    } else if !is_cpu_side(irq) {
        Some(IrqCause::Device(irq))
    } else {
        None
    }
}

/// The highest bit of a word is set exactly when the word is at least `INTC_IRQ_BASE`,
/// and the three named causes have it set.
pub proof fn lemma_cause_constants(irq: usize)
    ensures
        (irq & INTC_IRQ_BASE == 0) == !is_cpu_side(irq),
        is_cpu_side(S_TIMER),
        is_cpu_side(S_SOFT),
        is_cpu_side(S_EXT),
        S_TIMER != S_SOFT,
        S_TIMER != S_EXT,
        S_SOFT != S_EXT,
{
    assert((irq & (1usize << ((usize::BITS - 1) as u32)) == 0) == (irq < (1usize << ((usize::BITS - 1) as u32))))
        by (bit_vector);
    assert((1usize << ((usize::BITS - 1) as u32)) | 1 >= (1usize << ((usize::BITS - 1) as u32))) by (bit_vector);
    assert((1usize << ((usize::BITS - 1) as u32)) | 5 >= (1usize << ((usize::BITS - 1) as u32))) by (bit_vector);
    assert((1usize << ((usize::BITS - 1) as u32)) | 9 >= (1usize << ((usize::BITS - 1) as u32))) by (bit_vector);
    assert((1usize << ((usize::BITS - 1) as u32)) | 5 != (1usize << ((usize::BITS - 1) as u32)) | 1) by (bit_vector);
    assert((1usize << ((usize::BITS - 1) as u32)) | 5 != (1usize << ((usize::BITS - 1) as u32)) | 9) by (bit_vector);
    assert((1usize << ((usize::BITS - 1) as u32)) | 1 != (1usize << ((usize::BITS - 1) as u32)) | 9) by (bit_vector);
}

/// Classifies an interrupt number as the platform's interrupt dispatcher does.
///
/// Returns `None` for a CPU-side number that is none of the timer, software or
/// external interrupts (an unknown `scause`).
pub fn classify(irq: usize) -> (r: Option<IrqCause>)
    ensures
        r == cause_of(irq),
{
    proof {
        lemma_cause_constants(irq);
    }
    if irq == S_TIMER {
        Some(IrqCause::Timer)
    } else if irq == S_SOFT {
        Some(IrqCause::Soft)
    } else if irq == S_EXT {
        Some(IrqCause::External)
    } else if irq & INTC_IRQ_BASE == 0 {
        Some(IrqCause::Device(irq))
    } else {
        None
    }
}

/// Every number with the `scause` interrupt bit clear is the device source of
/// that same number; only the three exact `scause` values are the timer,
/// software and external interrupts, and every other CPU-side number is unknown.
pub proof fn lemma_classification(irq: usize)
    ensures
        irq < INTC_IRQ_BASE ==> cause_of(irq) == Some(IrqCause::Device(irq)),
        cause_of(irq) == Some(IrqCause::Timer) <==> irq == S_TIMER,
        cause_of(irq) == Some(IrqCause::Soft) <==> irq == S_SOFT,
        cause_of(irq) == Some(IrqCause::External) <==> irq == S_EXT,
        irq >= INTC_IRQ_BASE && irq != S_TIMER && irq != S_SOFT && irq != S_EXT ==> cause_of(irq)
            is None,
        forall|n: usize| cause_of(irq) == Some(IrqCause::Device(n)) ==> n == irq && irq
            < INTC_IRQ_BASE,
{
    lemma_cause_constants(irq);
}

} // verus!
