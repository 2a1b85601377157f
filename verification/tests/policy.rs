use host_instrument::policy::{
    amend_after, decide, force_jump, pass_through, table_override, Decision, PolicyTable,
    SHORT_JUMP, SUPPRESSED,
};
use std::cell::Cell;

#[test]
fn inactive_policy_always_calls_the_original() {
    let table = PolicyTable::msb_events();
    for discriminant in [0u32, 4, 12, 23, 24, 25, u32::MAX] {
        assert_eq!(decide(false, &table, discriminant), Decision::CallOriginal);
    }
}

#[test]
fn event_table_suppresses_its_four_kinds() {
    let table = PolicyTable::msb_events();
    for discriminant in [4u32, 12, 23, 24] {
        assert_eq!(decide(true, &table, discriminant), Decision::Force(0));
        assert_eq!(table.forced(discriminant), Some(SUPPRESSED));
    }
    for discriminant in [0u32, 1, 2, 3, 5, 9, 11, 13, 22, 25, u32::MAX] {
        assert_eq!(decide(true, &table, discriminant), Decision::CallOriginal);
        assert_eq!(table.forced(discriminant), None);
    }
}

#[test]
fn parts_table_suppresses_enemies() {
    let table = PolicyTable::msb_parts();
    assert_eq!(decide(true, &table, 2), Decision::Force(0));
    assert_eq!(decide(true, &table, 9), Decision::Force(0));
    for discriminant in [0u32, 1, 3, 4, 8, 10] {
        assert_eq!(decide(true, &table, discriminant), Decision::CallOriginal);
    }
}

#[test]
fn point_table_suppresses_triggers_and_invasion_points() {
    let table = PolicyTable::msb_points();
    assert_eq!(decide(true, &table, 0), Decision::Force(0));
    assert_eq!(decide(true, &table, 1), Decision::Force(0));
    for discriminant in [2u32, 3, 4, 9] {
        assert_eq!(decide(true, &table, discriminant), Decision::CallOriginal);
    }
}

#[test]
fn later_line_overrides_earlier() {
    let mut table = PolicyTable::new();
    assert_eq!(table.forced(7), None);
    table.set(7, 1);
    table.set(8, 2);
    table.set(7, 3);
    assert_eq!(table.forced(7), Some(3));
    assert_eq!(table.forced(8), Some(2));
    assert_eq!(decide(true, &table, 7), Decision::Force(3));
}

#[test]
fn table_override_forces_or_forwards() {
    let calls = Cell::new(0u32);
    let call_original = |subject: usize, discriminant: u32| {
        calls.set(calls.get() + 1);
        subject as u32 + discriminant
    };
    let table = PolicyTable::msb_events();
    assert_eq!(table_override(true, &table, &call_original, 100, 4), 0);
    assert_eq!(table_override(true, &table, &call_original, 100, 24), 0);
    assert_eq!(calls.get(), 0);
    assert_eq!(table_override(true, &table, &call_original, 100, 5), 105);
    assert_eq!(calls.get(), 1);
    assert_eq!(table_override(false, &table, &call_original, 100, 4), 104);
    assert_eq!(calls.get(), 2);
}

#[test]
fn pass_through_forwards_while_inactive() {
    let handled = Cell::new(0u32);
    let call_original = |x: u32| x + 1;
    let handler = |x: u32| {
        handled.set(handled.get() + 1);
        x * 2
    };
    assert_eq!(pass_through(false, &call_original, &handler, 10), 11);
    assert_eq!(handled.get(), 0);
    assert_eq!(pass_through(true, &call_original, &handler, 10), 20);
    assert_eq!(handled.get(), 1);
}

#[test]
fn amendment_follows_the_original() {
    let calls = Cell::new(0u32);
    let call_original = |x: (u32, u32)| {
        calls.set(calls.get() + 1);
        (x.0 + 1, x.1 + 1)
    };
    let amendment = |produced: (u32, u32)| (produced.0, 99);
    assert_eq!(amend_after(false, &call_original, &amendment, (1, 2)), (2, 3));
    assert_eq!(calls.get(), 1);
    assert_eq!(amend_after(true, &call_original, &amendment, (1, 2)), (2, 99));
    assert_eq!(calls.get(), 2);
}

#[test]
fn forced_jump_replaces_one_opcode() {
    let mut code = vec![0x48, 0x85, 0xc9, 0x75, 0x2e, 0x90];
    assert_eq!(force_jump(&mut code, 3), 0x75);
    assert_eq!(code, vec![0x48, 0x85, 0xc9, 0xEB, 0x2e, 0x90]);
    assert_eq!(SHORT_JUMP, 0xEB);
    let mut one = [0x7f_u8];
    assert_eq!(force_jump(&mut one, 0), 0x7f);
    assert_eq!(one, [0xEB]);
}
