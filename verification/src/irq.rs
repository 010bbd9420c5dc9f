use vstd::prelude::*;
use crate::cause::{cause_of, classify, IrqCause};
use crate::plic::{claimed_source, MmioWrite, PLIC_CLAIM_COMPLETE_VA, PLIC_ENABLED_PRIORITY};
use axplat::irq::HandlerTable;
use crate::table_lookup::{handler_table_handle, TableLookup};

verus! {

/// Number of slots of the device IRQ handler table.
pub const MAX_IRQ_COUNT: usize = 1024;

/// What enabling or disabling an interrupt number comes down to.
#[derive(PartialEq, Eq, Structural, Clone, Copy, Debug)]
pub enum EnablePlan {
    /// Set (`true`) or clear (`false`) the supervisor timer enable bit of `sie`.
    Timer(bool),
    /// Set (`true`) or clear (`false`) the supervisor software enable bit of `sie`.
    Soft(bool),
    /// Set (`true`) or clear (`false`) the supervisor external enable bit of `sie`.
    External(bool),
    /// Nothing is done (there is no PLIC source with this number).
    Nothing,
    /// A PLIC source: first give it `priority`, where there is one, then set
    /// its enable bit to `enabled` through the enable shadow.
    Source { source: u32, priority: Option<u32>, enabled: bool },
}

/// The plan for `set_enable(irq, enabled)`. A device number is a PLIC
/// source id; 0 and numbers beyond 32 bits name no source.
pub open spec fn enable_plan_spec(irq: usize, enabled: bool) -> EnablePlan {
    match cause_of(irq) {
        Some(IrqCause::Timer) => EnablePlan::Timer(enabled),
        Some(IrqCause::Soft) => EnablePlan::Soft(enabled),
        Some(IrqCause::External) => EnablePlan::External(enabled),
        Some(IrqCause::Device(n)) => {
            if n == 0 || n > u32::MAX {
                EnablePlan::Nothing
            } else {
                EnablePlan::Source {
                    source: n as u32,
                    priority: if enabled { Some(PLIC_ENABLED_PRIORITY) } else { None },
                    enabled,
                }
            }
        },
        _ => EnablePlan::Nothing,
    }
}

/// Decides how to enable or disable the interrupt `irq`.
///
/// The timer, software and external interrupts are switched by their bits in
/// `sie`; a device source gets priority 6 when it is enabled and has its enable
/// bit written through the shadow; 0 and numbers beyond 32 bits name no source. An unknown
/// CPU-side number is refused by the caller (the dispatcher panics on it).
pub fn set_enable_plan(irq: usize, enabled: bool) -> (r: EnablePlan)
    requires
        cause_of(irq) is Some,
    ensures
        r == enable_plan_spec(irq, enabled),
{
    match classify(irq) {
        Some(IrqCause::Timer) => EnablePlan::Timer(enabled),
        Some(IrqCause::Soft) => EnablePlan::Soft(enabled),
        Some(IrqCause::External) => EnablePlan::External(enabled),
        Some(IrqCause::Device(n)) => {
            if n == 0 || n > u32::MAX as usize {
                EnablePlan::Nothing
            } else {
                let source = n as u32;
                let priority = if enabled {
                    Some(PLIC_ENABLED_PRIORITY)
                } else {
                    None
                };
                EnablePlan::Source { source, priority, enabled }
            }
        },
        _ => EnablePlan::Nothing,
    }
}

/// Where the handler of an interrupt number is kept.
#[derive(PartialEq, Eq, Structural, Clone, Copy, Debug)]
pub enum HandlerSlot {
    /// The timer handler slot.
    Timer,
    /// The IPI (software interrupt) handler slot.
    Ipi,
    /// None: the external interrupt gets no handler of its own (its sources are
    /// claimed from the PLIC and registered by source id).
    Refused,
    /// Entry `idx` of the device handler table.
    Table(usize),
}

/// The slot of the handler of `irq`.
pub open spec fn handler_slot_spec(irq: usize) -> HandlerSlot {
    match cause_of(irq) {
        Some(IrqCause::Timer) => HandlerSlot::Timer,
        Some(IrqCause::Soft) => HandlerSlot::Ipi,
        Some(IrqCause::Device(n)) => HandlerSlot::Table(n),
        _ => HandlerSlot::Refused,
    }
}

/// The slot in which `register` stores, and from which `unregister` takes,
/// the handler of `irq`.
pub fn handler_slot(irq: usize) -> (r: HandlerSlot)
    requires
        cause_of(irq) is Some,
    ensures
        r == handler_slot_spec(irq),
{
    match classify(irq) {
        Some(IrqCause::Timer) => HandlerSlot::Timer,
        Some(IrqCause::Soft) => HandlerSlot::Ipi,
        Some(IrqCause::Device(n)) => HandlerSlot::Table(n),
        _ => HandlerSlot::Refused,
    }
}

/// The result of registering a handler for `irq`, given whether its slot
/// took the handler (`stored`; always `false` for a refused slot): whether the
/// registration succeeded, and, when it did, the enabling of `irq` that follows.
pub fn register_outcome(irq: usize, stored: bool) -> (r: (bool, Option<EnablePlan>))
    requires
        cause_of(irq) is Some,
    ensures
        r.0 == (stored && !(handler_slot_spec(irq) is Refused)),
        r.1 == (if r.0 {
            Some(enable_plan_spec(irq, true))
        } else {
            None::<EnablePlan>
        }),
{
    match handler_slot(irq) {
        HandlerSlot::Refused => (false, None),
        _ => {
            if stored {
                (true, Some(set_enable_plan(irq, true)))
            } else {
                (false, None)
            }
        },
    }
}

/// The disabling that unregistering the handler of `irq` entails, given
/// whether its slot held a handler (`removed`): when a handler was removed,
/// `irq` is disabled.
pub fn unregister_outcome(irq: usize, removed: bool) -> (r: Option<EnablePlan>)
    requires
        cause_of(irq) is Some,
    ensures
        r == (if removed && !(handler_slot_spec(irq) is Refused) {
            Some(enable_plan_spec(irq, false))
        } else {
            None::<EnablePlan>
        }),
{
    match handler_slot(irq) {
        HandlerSlot::Refused => None,
        _ => {
            if removed {
                Some(set_enable_plan(irq, false))
            } else {
                None
            }
        },
    }
}

/// What handling a claimed external interrupt did.
pub struct ClaimHandled {
    /// The source handled, `None` for a spurious interrupt.
    pub source: Option<usize>,
    /// The store that acknowledges the source in the complete register, to be
    /// made after handling.
    pub complete: Option<MmioWrite>,
    /// The handler-table index that the handler lookup is made for: the
    /// claimed source, `None` when no lookup is due. It records the index
    /// only; it does not by itself show that the lookup was made.
    pub dispatched: Ghost<Option<usize>>,
    /// The lookup made in the handler table, `None` when none was due. Only
    /// a call of the table can produce one, and it carries the index handed
    /// to the table.
    pub lookup: Option<TableLookup>,
}

/// Handles a supervisor external interrupt once the claim register has been
/// read: `raw == 0` is a spurious interrupt, and then no handler runs and
/// nothing is acknowledged. Otherwise the handler of source `raw` is run from
/// `table` (if there is one), and the source is returned together with the
/// store that writes it to the complete register, made even when no handler
/// was registered.
pub fn handle_claimed(table: &HandlerTable<MAX_IRQ_COUNT>, raw: u32) -> (r: ClaimHandled)
    ensures
        r.source == (if raw == 0 { None::<usize> } else { Some(raw as usize) }),
        r.complete == (if raw == 0 {
            None::<MmioWrite>
        } else {
            Some(MmioWrite { addr: PLIC_CLAIM_COMPLETE_VA, value: raw })
        }),
        r.dispatched@ == r.source,
        raw == 0 ==> r.lookup is None,
        raw != 0 ==> r.lookup is Some && r.lookup.unwrap().index_spec() == raw as usize,
{
    match claimed_source(raw) {
        None => ClaimHandled { source: None, complete: None, dispatched: Ghost(None), lookup: None },
        Some(source) => {
            let lookup = handler_table_handle(table, source as usize);
            let ghost idx = lookup.index_spec();
            ClaimHandled {
                source: Some(source as usize),
                complete: Some(MmioWrite { addr: PLIC_CLAIM_COMPLETE_VA, value: source }),
                dispatched: Ghost(Some(idx)),
                lookup: Some(lookup),
            }
        },
    }
}

/// Enabling or disabling a device number `n` from 1 to `u32::MAX` makes PLIC
/// source `n` itself enabled or disabled, with priority 6 given on enabling
/// and none on disabling; only 0 and numbers beyond 32 bits name no source.
/// The timer, software and external interrupts switch their own `sie` bit.
pub proof fn lemma_enable_plan(irq: usize, enabled: bool)
    ensures
        1 <= irq <= u32::MAX && irq < crate::cause::INTC_IRQ_BASE ==> enable_plan_spec(
            irq,
            enabled,
        ) == (EnablePlan::Source {
            source: irq as u32,
            priority: if enabled { Some(6u32) } else { None::<u32> },
            enabled,
        }),
        irq < crate::cause::INTC_IRQ_BASE ==> (enable_plan_spec(irq, enabled) == EnablePlan::Nothing
            <==> (irq == 0 || irq > u32::MAX)),
        forall|s: u32, p: Option<u32>, e: bool|
            enable_plan_spec(irq, enabled) == (EnablePlan::Source { source: s, priority: p, enabled: e })
                ==> s as usize == irq && e == enabled,
        enable_plan_spec(crate::cause::S_TIMER, enabled) == EnablePlan::Timer(enabled),
        enable_plan_spec(crate::cause::S_SOFT, enabled) == EnablePlan::Soft(enabled),
        enable_plan_spec(crate::cause::S_EXT, enabled) == EnablePlan::External(enabled),
{
    crate::cause::lemma_classification(irq);
    crate::cause::lemma_classification(crate::cause::S_TIMER);
    crate::cause::lemma_classification(crate::cause::S_SOFT);
    crate::cause::lemma_classification(crate::cause::S_EXT);
}

/// The timer and IPI handlers have a slot each, the external interrupt takes
/// no handler, and a device number `n` uses entry `n` of the handler table.
pub proof fn lemma_handler_slots(irq: usize)
    ensures
        handler_slot_spec(crate::cause::S_TIMER) == HandlerSlot::Timer,
        handler_slot_spec(crate::cause::S_SOFT) == HandlerSlot::Ipi,
        handler_slot_spec(crate::cause::S_EXT) == HandlerSlot::Refused,
        irq < crate::cause::INTC_IRQ_BASE ==> handler_slot_spec(irq) == HandlerSlot::Table(irq),
{
    crate::cause::lemma_classification(irq);
    crate::cause::lemma_classification(crate::cause::S_TIMER);
    crate::cause::lemma_classification(crate::cause::S_SOFT);
    crate::cause::lemma_classification(crate::cause::S_EXT);
}

} // verus!
