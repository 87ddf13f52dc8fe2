use oscore::context::TaskContext;
use oscore::trap::{Sstatus, TrapContext, SPP, SPP_BIT};

#[test]
fn zero_context_is_all_zero() {
    let cx = TaskContext::new_zero();
    assert_eq!(cx.ra, 0);
    assert_eq!(cx.sp, 0);
    assert_eq!(cx.s, [0usize; 12]);
}

#[test]
fn goto_restore_targets_the_trampoline() {
    let cx = TaskContext::goto_restore(0x8020_0000, 0x8040_1000);
    assert_eq!(cx.ra, 0x8020_0000);
    assert_eq!(cx.sp, 0x8040_1000);
    assert_eq!(cx.s, [0usize; 12]);
}

#[test]
fn initial_context_enters_user_mode_at_the_entry_point() {
    // Hand in status bits whose previous-mode field says supervisor: the
    // built context must nevertheless mark user mode.
    let live = Sstatus { bits: SPP_BIT | 0x22 };
    let cx = TrapContext::app_init_context(0x8040_0000, 0x8050_0000, live);
    assert_eq!(cx.sepc, 0x8040_0000);
    assert_eq!(cx.x[2], 0x8050_0000);
    assert_eq!(cx.sstatus.spp(), SPP::User);
    assert_eq!(cx.sstatus.bits, 0x22);
    for (i, &reg) in cx.x.iter().enumerate() {
        if i != 2 {
            assert_eq!(reg, 0);
        }
    }
}

#[test]
fn set_sp_overwrites_only_the_stack_pointer() {
    let live = Sstatus { bits: 0 };
    let mut cx = TrapContext::app_init_context(0x1000, 0x2000, live);
    cx.set_sp(0x3000);
    assert_eq!(cx.x[2], 0x3000);
    assert_eq!(cx.sepc, 0x1000);
    for (i, &reg) in cx.x.iter().enumerate() {
        if i != 2 {
            assert_eq!(reg, 0);
        }
    }
}

#[test]
fn set_spp_flips_only_the_previous_mode_bit() {
    let mut st = Sstatus { bits: 0x1aa };
    st.set_spp(SPP::User);
    assert_eq!(st.bits, 0xaa);
    assert_eq!(st.spp(), SPP::User);
    st.set_spp(SPP::Supervisor);
    assert_eq!(st.bits, 0x1aa);
    assert_eq!(st.spp(), SPP::Supervisor);
}
