use host_instrument::hook::{
    patch_bytes, Hook, HookAction, HookError, HookRegistry, HookState, Route,
};

fn forward<O: Fn(u32) -> u32>(x: u32, call_original: &O) -> u32 {
    call_original(x)
}

fn tenfold<O: Fn(u32) -> u32>(x: u32, call_original: &O) -> u32 {
    call_original(x) * 10
}

fn silence<O: Fn(u32) -> u32>(_: u32, _: &O) -> u32 {
    0
}

#[test]
fn new_hook_is_uninitialized() {
    let hook = Hook::new();
    assert_eq!(hook.current(), HookState::Uninitialized);
    assert_eq!(hook.address(), None);
    assert_eq!(hook.route(), Route::Original);
}

#[test]
fn second_hook_at_one_target_is_refused() {
    let mut registry = HookRegistry::new();
    let mut first = Hook::new();
    assert_eq!(first.initialize(&mut registry, 0x1_4000_1000), Ok(()));
    assert_eq!(first.enable(), HookAction::Redirect { target: 0x1_4000_1000 });
    let mut second = Hook::new();
    assert_eq!(second.initialize(&mut registry, 0x1_4000_1000), Err(HookError::AlreadyHooked));
    assert_eq!(second.current(), HookState::Uninitialized);
    assert_eq!(second.address(), None);
    assert_eq!(first.current(), HookState::Enabled);
    assert_eq!(first.address(), Some(0x1_4000_1000));
    assert!(registry.owns(0x1_4000_1000));
    assert_eq!(Hook::install(&mut registry, 0x1_4000_1000).err(), Some(HookError::AlreadyHooked));
    assert_eq!(second.initialize(&mut registry, 0x1_4000_1001), Ok(()));
    assert_eq!(second.current(), HookState::Initialized);
}

#[test]
fn initialized_hook_is_not_initialized_again() {
    let mut registry = HookRegistry::new();
    let mut hook = Hook::install(&mut registry, 0x10).expect("a free address");
    assert_eq!(hook.current(), HookState::Initialized);
    assert_eq!(hook.initialize(&mut registry, 0x20), Err(HookError::AlreadyHooked));
    assert_eq!(hook.address(), Some(0x10));
    assert!(!registry.owns(0x20));
}

#[test]
fn enable_and_disable_walk_the_states() {
    let mut registry = HookRegistry::new();
    let mut hook = Hook::install(&mut registry, 0x10).expect("a free address");
    assert_eq!(hook.route(), Route::Original);
    assert_eq!(hook.disable(), HookAction::Nothing);
    assert_eq!(hook.current(), HookState::Initialized);
    assert_eq!(hook.enable(), HookAction::Redirect { target: 0x10 });
    assert_eq!(hook.current(), HookState::Enabled);
    assert_eq!(hook.route(), Route::Replacement);
    assert_eq!(hook.enable(), HookAction::Nothing);
    assert_eq!(hook.current(), HookState::Enabled);
    assert_eq!(hook.disable(), HookAction::Restore { target: 0x10 });
    assert_eq!(hook.current(), HookState::Disabled);
    assert_eq!(hook.route(), Route::Original);
    assert_eq!(hook.disable(), HookAction::Nothing);
    assert_eq!(hook.current(), HookState::Disabled);
    assert_eq!(hook.enable(), HookAction::Redirect { target: 0x10 });
    assert_eq!(hook.current(), HookState::Enabled);
}

#[test]
fn hook_without_target_cannot_be_enabled() {
    let mut hook = Hook::new();
    assert_eq!(hook.enable(), HookAction::Nothing);
    assert_eq!(hook.current(), HookState::Uninitialized);
    assert_eq!(hook.disable(), HookAction::Nothing);
    assert_eq!(hook.current(), HookState::Uninitialized);
    assert_eq!(hook.failed(HookAction::Redirect { target: 1 }), HookError::Platform);
    assert_eq!(hook.current(), HookState::Uninitialized);
}

#[test]
fn failed_transition_is_taken_back() {
    let mut registry = HookRegistry::new();
    let mut hook = Hook::install(&mut registry, 0x10).expect("a free address");
    let action = hook.enable();
    assert_eq!(hook.failed(action), HookError::Platform);
    assert_eq!(hook.current(), HookState::Disabled);
    assert_eq!(hook.route(), Route::Original);
    assert_eq!(hook.enable(), HookAction::Redirect { target: 0x10 });
    let action = hook.disable();
    assert_eq!(hook.failed(action), HookError::Platform);
    assert_eq!(hook.current(), HookState::Enabled);
    assert_eq!(hook.failed(HookAction::Nothing), HookError::Platform);
    assert_eq!(hook.current(), HookState::Enabled);
}

#[test]
fn removed_hook_frees_its_target() {
    let mut registry = HookRegistry::new();
    let mut first = Hook::install(&mut registry, 0x10).expect("a free address");
    first.enable();
    assert_eq!(first.remove(&mut registry), HookAction::Restore { target: 0x10 });
    assert_eq!(first.current(), HookState::Uninitialized);
    assert!(!registry.owns(0x10));
    let mut second = Hook::install(&mut registry, 0x10).expect("the address is free again");
    assert_eq!(second.remove(&mut registry), HookAction::Nothing);
    assert_eq!(first.remove(&mut registry), HookAction::Nothing);
    assert!(!registry.owns(0x10));
}

#[test]
fn registry_tells_which_targets_are_owned() {
    let mut registry = HookRegistry::new();
    assert!(!registry.owns(1));
    let mut one = Hook::install(&mut registry, 1).expect("a free address");
    let mut two = Hook::install(&mut registry, 2).expect("a free address");
    assert!(registry.owns(1));
    assert!(registry.owns(2));
    assert!(!registry.owns(3));
    one.remove(&mut registry);
    assert!(!registry.owns(1));
    assert!(registry.owns(2));
    two.remove(&mut registry);
    assert!(!registry.owns(2));
    assert!(Hook::install(&mut registry, 1).is_ok());
}

#[test]
fn transparent_replacement_equals_no_hook() {
    let original = |x: u32| x.wrapping_mul(31).wrapping_add(7);
    let replacement = forward;
    let mut registry = HookRegistry::new();
    let mut hook = Hook::install(&mut registry, 0x10).expect("a free address");
    for x in [0u32, 1, 2, 41, u32::MAX] {
        assert_eq!(Hook::new().invoke(&original, &replacement, x), original(x));
        assert_eq!(hook.invoke(&original, &replacement, x), original(x));
    }
    hook.enable();
    for x in [0u32, 1, 2, 41, u32::MAX] {
        assert_eq!(hook.invoke(&original, &replacement, x), original(x));
    }
}

#[test]
fn enabled_hook_runs_the_replacement() {
    let original = |x: u32| x + 1;
    let replacement = tenfold;
    let mut registry = HookRegistry::new();
    let mut hook = Hook::install(&mut registry, 0x10).expect("a free address");
    assert_eq!(hook.invoke(&original, &replacement, 4), 5);
    hook.enable();
    assert_eq!(hook.invoke(&original, &replacement, 4), 50);
    assert_eq!(hook.invoke(&original, &replacement, 5), 60);
}

#[test]
fn disabled_hook_runs_the_original() {
    let original = |x: u32| x + 1;
    let replacement = silence;
    let mut registry = HookRegistry::new();
    let mut hook = Hook::install(&mut registry, 0x10).expect("a free address");
    hook.enable();
    assert_eq!(hook.invoke(&original, &replacement, 4), 0);
    hook.disable();
    assert_eq!(hook.invoke(&original, &replacement, 4), 5);
    hook.remove(&mut registry);
    assert_eq!(hook.invoke(&original, &replacement, 4), 5);
}

#[test]
fn patch_overwrites_and_hands_back_what_stood_there() {
    let mut code = vec![0x74, 0x2e, 0x48, 0x8b, 0x0d];
    let overwritten = patch_bytes(&mut code, 1, &[0x90, 0x90]);
    assert_eq!(code, vec![0x74, 0x90, 0x90, 0x8b, 0x0d]);
    assert_eq!(overwritten, vec![0x2e, 0x48]);
    let nothing = patch_bytes(&mut code, 5, &[]);
    assert_eq!(code, vec![0x74, 0x90, 0x90, 0x8b, 0x0d]);
    assert!(nothing.is_empty());
    let last = patch_bytes(&mut code, 4, &[0xcc]);
    assert_eq!(code, vec![0x74, 0x90, 0x90, 0x8b, 0xcc]);
    assert_eq!(last, vec![0x0d]);
}

#[test]
fn patch_is_undone_by_writing_back() {
    let before = vec![1u8, 2, 3, 4, 5, 6, 7, 8];
    let mut code = before.clone();
    let overwritten = patch_bytes(&mut code, 2, &[0xe9, 0, 0, 0, 0]);
    assert_ne!(code, before);
    let patch = patch_bytes(&mut code, 2, &overwritten);
    assert_eq!(code, before);
    assert_eq!(patch, vec![0xe9, 0, 0, 0, 0]);
}
