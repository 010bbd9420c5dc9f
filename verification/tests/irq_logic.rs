use axplat::irq::HandlerTable;
use axplat_riscv64_sg2002::cause::{classify, IrqCause, INTC_IRQ_BASE, S_EXT, S_SOFT, S_TIMER};
use axplat_riscv64_sg2002::enable_shadow::EnableShadow;
use axplat_riscv64_sg2002::ipi::{ipi_hart_masks, IpiTarget};
use axplat_riscv64_sg2002::irq::{
    handle_claimed, handler_slot, register_outcome, set_enable_plan, unregister_outcome, EnablePlan,
    HandlerSlot, MAX_IRQ_COUNT,
};
use axplat_riscv64_sg2002::plic::{
    claimed_source, cold_init_writes, context_of_cpu, enable_word_address, priority_address,
    MmioWrite, PLIC_CLAIM_COMPLETE_VA, PLIC_KERNEL_VA, PLIC_NDEV,
};
use std::sync::atomic::{AtomicUsize, Ordering};

#[test]
fn scause_constants() {
    assert_eq!(INTC_IRQ_BASE, 1usize << (usize::BITS - 1));
    assert_eq!(S_SOFT, INTC_IRQ_BASE + 1);
    assert_eq!(S_TIMER, INTC_IRQ_BASE + 5);
    assert_eq!(S_EXT, INTC_IRQ_BASE + 9);
}

#[test]
fn classify_each_cause() {
    assert_eq!(classify(S_TIMER), Some(IrqCause::Timer));
    assert_eq!(classify(S_SOFT), Some(IrqCause::Soft));
    assert_eq!(classify(S_EXT), Some(IrqCause::External));
    assert_eq!(classify(0x2c), Some(IrqCause::Device(0x2c)));
    assert_eq!(classify(0), Some(IrqCause::Device(0)));
    assert_eq!(classify(INTC_IRQ_BASE - 1), Some(IrqCause::Device(INTC_IRQ_BASE - 1)));
}

#[test]
fn classify_unknown_cpu_side() {
    assert_eq!(classify(INTC_IRQ_BASE), None);
    assert_eq!(classify(INTC_IRQ_BASE + 3), None);
    assert_eq!(classify(usize::MAX), None);
}

#[test]
fn enable_plan_timer() {
    assert_eq!(set_enable_plan(S_TIMER, true), EnablePlan::Timer(true));
    assert_eq!(set_enable_plan(S_TIMER, false), EnablePlan::Timer(false));
}

#[test]
fn enable_plan_soft_and_external() {
    assert_eq!(set_enable_plan(S_SOFT, true), EnablePlan::Soft(true));
    assert_eq!(set_enable_plan(S_SOFT, false), EnablePlan::Soft(false));
    assert_eq!(set_enable_plan(S_EXT, true), EnablePlan::External(true));
    assert_eq!(set_enable_plan(S_EXT, false), EnablePlan::External(false));
}

#[test]
fn enable_plan_device() {
    assert_eq!(
        set_enable_plan(44, true),
        EnablePlan::Source { source: 44, priority: Some(6), enabled: true }
    );
    assert_eq!(
        set_enable_plan(44, false),
        EnablePlan::Source { source: 44, priority: None, enabled: false }
    );
    assert_eq!(set_enable_plan(0, true), EnablePlan::Nothing);
}

#[test]
fn enable_plan_device_beyond_32_bits_does_nothing() {
    assert_eq!(set_enable_plan(1usize << 32, true), EnablePlan::Nothing);
    assert_eq!(set_enable_plan((1usize << 32) + 44, true), EnablePlan::Nothing);
    assert_eq!(set_enable_plan((1usize << 32) + 44, false), EnablePlan::Nothing);
    assert_eq!(
        set_enable_plan(u32::MAX as usize, true),
        EnablePlan::Source { source: u32::MAX, priority: Some(6), enabled: true }
    );
}

#[test]
fn shadow_starts_empty() {
    let s = EnableShadow::new();
    for irq in 0..200u32 {
        assert!(!s.is_enabled(irq));
    }
}

#[test]
fn shadow_enable_writes_word() {
    let mut s = EnableShadow::new();
    let w = s.update(44, true);
    assert_eq!(w, Some(MmioWrite { addr: PLIC_KERNEL_VA + 0x2100 + 4, value: 1 << 12 }));
    assert!(s.is_enabled(44));
    let w = s.update(38, true);
    assert_eq!(w, Some(MmioWrite { addr: PLIC_KERNEL_VA + 0x2104, value: (1 << 12) | (1 << 6) }));
    let w = s.update(3, true);
    assert_eq!(w, Some(MmioWrite { addr: 0xffff_ffc0_7000_2100, value: 1 << 3 }));
    let w = s.update(127, true);
    assert_eq!(w, Some(MmioWrite { addr: 0xffff_ffc0_7000_210c, value: 1 << 31 }));
}

#[test]
fn shadow_disable_clears_only_its_bit() {
    let mut s = EnableShadow::new();
    s.update(44, true);
    s.update(38, true);
    let w = s.update(44, false);
    assert_eq!(w, Some(MmioWrite { addr: PLIC_KERNEL_VA + 0x2104, value: 1 << 6 }));
    assert!(!s.is_enabled(44));
    assert!(s.is_enabled(38));
}

#[test]
fn shadow_beyond_range_is_ignored() {
    let mut s = EnableShadow::new();
    s.update(5, true);
    assert_eq!(s.update(128, true), None);
    assert_eq!(s.update(u32::MAX, false), None);
    assert!(!s.is_enabled(128));
    assert!(s.is_enabled(5));
}

#[test]
fn shadow_round_trip_and_idempotence() {
    let mut s = EnableShadow::new();
    s.update(10, true);
    let first = s.update(70, true);
    let again = s.update(70, true);
    assert_eq!(first, again);
    let back = s.update(70, false);
    assert_eq!(back, Some(MmioWrite { addr: PLIC_KERNEL_VA + 0x2108, value: 0 }));
    assert!(s.is_enabled(10));
    assert!(!s.is_enabled(70));
}

#[test]
fn cold_init_covers_every_source() {
    let w = cold_init_writes();
    assert_eq!(w.len(), PLIC_NDEV as usize);
    assert_eq!(w[0], MmioWrite { addr: 0xffff_ffc0_7000_0004, value: 1 });
    assert_eq!(w[100], MmioWrite { addr: 0xffff_ffc0_7000_0000 + 4 * 101, value: 1 });
    for (i, write) in w.iter().enumerate() {
        assert_eq!(write.addr, priority_address(i as u32 + 1));
        assert_eq!(write.value, 1);
    }
}

#[test]
fn register_addresses() {
    assert_eq!(priority_address(44), 0xffff_ffc0_7000_00b0);
    assert_eq!(priority_address(u32::MAX), 0xffff_ffc0_7000_0000 + 4 * (u32::MAX as u64));
    assert_eq!(enable_word_address(0), 0xffff_ffc0_7000_2100);
    assert_eq!(enable_word_address(3), 0xffff_ffc0_7000_210c);
    assert_eq!(PLIC_CLAIM_COMPLETE_VA, PLIC_KERNEL_VA + 0x20_2000);
}

#[test]
fn claim_zero_is_spurious() {
    assert_eq!(claimed_source(0), None);
    assert_eq!(claimed_source(44), Some(44));
}

static HITS: AtomicUsize = AtomicUsize::new(0);

fn count_hit() {
    HITS.fetch_add(1, Ordering::SeqCst);
}

#[test]
fn handle_claimed_runs_registered_handler() {
    let table: HandlerTable<MAX_IRQ_COUNT> = HandlerTable::new();
    assert!(table.register_handler(38, count_hit));
    let r = handle_claimed(&table, 0);
    assert_eq!(r.source, None);
    assert_eq!(r.complete, None);
    assert_eq!(HITS.load(Ordering::SeqCst), 0);
    let r = handle_claimed(&table, 38);
    assert_eq!(r.source, Some(38));
    assert_eq!(r.complete, Some(MmioWrite { addr: 0xffff_ffc0_7020_2000, value: 38 }));
    assert_eq!(HITS.load(Ordering::SeqCst), 1);
    let r = handle_claimed(&table, 39);
    assert_eq!(r.source, Some(39));
    assert_eq!(r.complete, Some(MmioWrite { addr: PLIC_CLAIM_COMPLETE_VA, value: 39 }));
    assert_eq!(HITS.load(Ordering::SeqCst), 1);
    let r = handle_claimed(&table, 5000);
    assert_eq!(r.source, Some(5000));
    assert_eq!(HITS.load(Ordering::SeqCst), 1);
}

#[test]
fn handler_slots() {
    assert_eq!(handler_slot(S_TIMER), HandlerSlot::Timer);
    assert_eq!(handler_slot(S_SOFT), HandlerSlot::Ipi);
    assert_eq!(handler_slot(S_EXT), HandlerSlot::Refused);
    assert_eq!(handler_slot(44), HandlerSlot::Table(44));
}

#[test]
fn register_outcomes() {
    assert_eq!(register_outcome(S_TIMER, false), (false, None));
    assert_eq!(register_outcome(S_SOFT, true), (true, Some(EnablePlan::Soft(true))));
    assert_eq!(register_outcome(S_EXT, false), (false, None));
    assert_eq!(register_outcome(S_EXT, true), (false, None));
    assert_eq!(
        register_outcome(44, true),
        (true, Some(EnablePlan::Source { source: 44, priority: Some(6), enabled: true }))
    );
    assert_eq!(register_outcome(44, false), (false, None));
}

#[test]
fn unregister_outcomes() {
    assert_eq!(unregister_outcome(S_TIMER, false), None);
    assert_eq!(unregister_outcome(S_SOFT, true), Some(EnablePlan::Soft(false)));
    assert_eq!(unregister_outcome(S_EXT, false), None);
    assert_eq!(
        unregister_outcome(44, true),
        Some(EnablePlan::Source { source: 44, priority: None, enabled: false })
    );
    assert_eq!(unregister_outcome(44, false), None);
}

#[test]
fn contexts_of_cpus() {
    assert_eq!(context_of_cpu(0), 2);
    assert_eq!(context_of_cpu(1), 4);
    assert_eq!(context_of_cpu(3), 8);
}

#[test]
fn ipi_single_targets() {
    assert_eq!(ipi_hart_masks(IpiTarget::Current { cpu_id: 0 }), vec![2]);
    assert_eq!(ipi_hart_masks(IpiTarget::Other { cpu_id: 3 }), vec![16]);
    assert_eq!(ipi_hart_masks(IpiTarget::Other { cpu_id: 62 }), vec![1usize << 63]);
}

#[test]
fn ipi_all_except_current() {
    assert_eq!(
        ipi_hart_masks(IpiTarget::AllExceptCurrent { cpu_id: 1, cpu_num: 4 }),
        vec![2, 8, 16]
    );
    assert_eq!(
        ipi_hart_masks(IpiTarget::AllExceptCurrent { cpu_id: 0, cpu_num: 1 }),
        Vec::<usize>::new()
    );
    assert_eq!(
        ipi_hart_masks(IpiTarget::AllExceptCurrent { cpu_id: 5, cpu_num: 3 }),
        vec![2, 4, 8]
    );
    assert_eq!(
        ipi_hart_masks(IpiTarget::AllExceptCurrent { cpu_id: 0, cpu_num: 0 }),
        Vec::<usize>::new()
    );
    assert_eq!(
        ipi_hart_masks(IpiTarget::AllExceptCurrent { cpu_id: 63, cpu_num: 64 }).len(),
        63
    );
}

#[test]
fn shadow_updates_commute() {
    let mut a = EnableShadow::new();
    a.update(33, true);
    a.update(40, false);
    let wa = a.update(60, true);
    let mut b = EnableShadow::new();
    b.update(60, true);
    b.update(40, false);
    let wb = b.update(33, true);
    assert_eq!(wa, wb);
    for irq in 0..128u32 {
        assert_eq!(a.is_enabled(irq), b.is_enabled(irq));
    }
}

#[test]
fn ipi_never_targets_current_cpu() {
    for cpu_id in 0..8usize {
        let masks = ipi_hart_masks(IpiTarget::AllExceptCurrent { cpu_id, cpu_num: 8 });
        assert_eq!(masks.len(), 7);
        assert!(!masks.contains(&(1usize << (cpu_id + 1))));
        assert!(!masks.contains(&1));
    }
}

#[test]
fn shadow_after_sequence_mirrors_last_updates() {
    let mut s = EnableShadow::new();
    let ops = [(44u32, true), (45, true), (44, false), (3, true), (45, true), (200, true)];
    let mut last = [None; 4];
    for &(irq, en) in ops.iter() {
        if let Some(w) = s.update(irq, en) {
            last[(irq / 32) as usize] = Some(w);
        }
    }
    assert!(!s.is_enabled(44));
    assert!(s.is_enabled(45));
    assert!(s.is_enabled(3));
    assert!(!s.is_enabled(200));
    assert_eq!(last[1], Some(MmioWrite { addr: PLIC_KERNEL_VA + 0x2104, value: 1 << 13 }));
    assert_eq!(last[0], Some(MmioWrite { addr: PLIC_KERNEL_VA + 0x2100, value: 1 << 3 }));
}

#[test]
fn register_timer_enables_timer() {
    assert_eq!(register_outcome(S_TIMER, true), (true, Some(EnablePlan::Timer(true))));
}

#[test]
fn unregister_timer_disables_timer() {
    assert_eq!(unregister_outcome(S_TIMER, true), Some(EnablePlan::Timer(false)));
}
