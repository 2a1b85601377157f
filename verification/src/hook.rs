//! Function interception: the registry of hooked addresses, the life cycle
//! of a hook, the routing of a call to a hooked function, and the patching
//! of code bytes.

use vstd::prelude::*;

verus! {

/// The states of a hook.
#[derive(Clone, Copy, Debug, PartialEq, Eq, Structural)]
pub enum HookState {
    /// The hook has no target yet.
    Uninitialized,
    /// The hook owns its target; calls do not reach the replacement yet.
    Initialized,
    /// Calls to the target run the replacement.
    Enabled,
    /// Calls to the target run the original again.
    Disabled,
}

/// The reason a hook could not be placed.
#[derive(Clone, Copy, Debug, PartialEq, Eq, Structural)]
pub enum HookError {
    /// Another live hook owns the target address.
    AlreadyHooked,
    /// The platform could not install, enable or disable the redirect.
    Platform,
}

/// What the platform has to do to the code of the host for a transition of
/// a hook to take effect.
#[derive(Clone, Copy, Debug, PartialEq, Eq, Structural)]
pub enum HookAction {
    /// Nothing: the hook is in the state asked for already.
    Nothing,
    /// Redirect the calls to the target to the replacement.
    Redirect { target: u64 },
    /// Restore the code of the target, so that calls run the original with
    /// nothing in between.
    Restore { target: u64 },
}

/// The target addresses that live hooks own. No address is held twice.
#[derive(Debug)]
pub struct HookRegistry {
    owned: Vec<u64>,
}

impl View for HookRegistry {
    type V = Set<u64>;

    closed spec fn view(&self) -> Set<u64> {
        Set::new(|target: u64| self.owned@.contains(target))
    }
}

impl HookRegistry {
    /// No address is held twice.
    pub closed spec fn wf(&self) -> bool {
        self.owned@.no_duplicates()
    }

    /// A registry in which no address is owned.
    pub fn new() -> (registry: HookRegistry)
        ensures
            registry.wf(),
            registry@ == Set::<u64>::empty(),
    {
        let registry = HookRegistry { owned: Vec::new() };
        proof {
            assert(registry@ =~= Set::<u64>::empty());
        }
        registry
    }

    fn position(&self, target: u64) -> (found: Option<usize>)
        ensures
            match found {
                Some(i) => i < self.owned@.len() && self.owned@[i as int] == target,
                None => !self.owned@.contains(target),
            },
    {
        let mut i: usize = 0;
        while i < self.owned.len()
            invariant
                0 <= i <= self.owned.len(),
                forall|j: int| 0 <= j < i ==> self.owned@[j] != target,
            decreases self.owned.len() - i,
        {
            if self.owned[i] == target {
                return Some(i);
            }
            i = i + 1;
        }
        None
    }

    /// Tells whether a live hook owns the address.
    pub fn owns(&self, target: u64) -> (owned: bool)
        ensures
            owned == self@.contains(target),
    {
        self.position(target).is_some()
    }

    /// Takes the address for a hook. Fails with `AlreadyHooked`, and
    /// changes nothing, where a live hook owns the address.
    pub(crate) fn claim(&mut self, target: u64) -> (r: Result<(), HookError>)
        requires
            old(self).wf(),
        ensures
            final(self).wf(),
            old(self)@.contains(target) ==> r == Err::<(), HookError>(HookError::AlreadyHooked)
                && final(self)@ == old(self)@,
            !old(self)@.contains(target) ==> r is Ok && final(self)@ == old(self)@.insert(target),
    {
        match self.position(target) {
            Some(_) => Err(HookError::AlreadyHooked),
            None => {
                let ghost before = self.owned@;
                self.owned.push(target);
                proof {
                    assert(self.owned@ == before.push(target));
                    assert forall|t: u64| self.owned@.contains(t) <==> (before.contains(t) || t
                        == target) by {
                        if before.contains(t) {
                            let j = choose|j: int| 0 <= j < before.len() && before[j] == t;
                            assert(self.owned@[j] == t);
                        }
                        if t == target {
                            assert(self.owned@[before.len() as int] == t);
                        }
                    }
                    assert(self@ =~= old(self)@.insert(target));
                }
                Ok(())
            },
        }
    }

    /// Gives the address up. An address that no hook owns stays unowned.
    pub(crate) fn release(&mut self, target: u64)
        requires
            old(self).wf(),
        ensures
            final(self).wf(),
            final(self)@ == old(self)@.remove(target),
    {
        match self.position(target) {
            Some(i) => {
                let ghost before = self.owned@;
                self.owned.remove(i);
                proof {
                    assert(self.owned@ == before.remove(i as int));
                    assert forall|t: u64| self.owned@.contains(t) <==> (before.contains(t) && t
                        != target) by {
                        if self.owned@.contains(t) {
                            let j = choose|j: int|
                                0 <= j < self.owned@.len() && self.owned@[j] == t;
                            if j < i {
                                assert(before[j] == t);
                            } else {
                                assert(before[j + 1] == t);
                            }
                        }
                        if before.contains(t) && t != target {
                            let j = choose|j: int| 0 <= j < before.len() && before[j] == t;
                            if j < i {
                                assert(self.owned@[j] == t);
                            } else {
                                assert(self.owned@[j - 1] == t);
                            }
                        }
                    }
                    assert(self@ =~= old(self)@.remove(target));
                }
            },
            None => {
                proof {
                    assert(self@ =~= old(self)@.remove(target));
                }
            },
        }
    }
}

/// A hook: the target address that it owns, once it is initialized, and its
/// state.
#[derive(Debug)]
pub struct Hook {
    target: u64,
    state: HookState,
}

/// The code that a call to a hooked function runs.
#[derive(Clone, Copy, Debug, PartialEq, Eq, Structural)]
pub enum Route {
    /// The function as the host has it.
    Original,
    /// The replacement, which may call the original.
    Replacement,
}

/// The code that a call to the target of a hook in this state runs: the
/// replacement while the hook is enabled, the original in every other state.
pub open spec fn route_of(state: HookState) -> Route {
    if state == HookState::Enabled {
        Route::Replacement
    } else {
        Route::Original
    }
}

/// A hook in this state can take the target: it has no target yet, and no
/// live hook owns the address.
pub open spec fn claimable(owned: Set<u64>, state: HookState, target: u64) -> bool {
    state == HookState::Uninitialized && !owned.contains(target)
}

/// Once a hook has taken a target, no other hook can take it, whatever
/// else is owned: a second hook at the address of a first is refused.
pub proof fn lemma_second_hook_refused(owned: Set<u64>, target: u64, state: HookState)
    ensures
        !claimable(owned.insert(target), state, target),
{
}

/// The state of a hook after it is asked to enable: enabled, unless it has
/// no target.
pub open spec fn after_enable(state: HookState) -> HookState {
    if state == HookState::Uninitialized {
        HookState::Uninitialized
    } else {
        HookState::Enabled
    }
}

/// The state of a hook after it is asked to disable: disabled where it was
/// enabled, else as it was.
pub open spec fn after_disable(state: HookState) -> HookState {
    if state == HookState::Enabled {
        HookState::Disabled
    } else {
        state
    }
}

/// The outcome of a call to the target of a hook: that of the replacement,
/// which is handed the original, where the call is routed to it, and that
/// of the original where it is not.
pub open spec fn invoked<A, T, O: Fn(A) -> T, P: Fn(A, &O) -> T>(
    state: HookState,
    original: &O,
    replacement: &P,
    args: A,
    result: T,
) -> bool {
    match route_of(state) {
        Route::Original => original.ensures((args,), result),
        Route::Replacement => replacement.ensures((args, original), result),
    }
}

/// A replacement is transparent where all it does is call the original:
/// whatever it gives for a call, the original gives for the same call.
pub open spec fn transparent<A, T, O: Fn(A) -> T, P: Fn(A, &O) -> T>(
    original: &O,
    replacement: &P,
) -> bool {
    forall|args: A, result: T| #[trigger]
        replacement.ensures((args, original), result) ==> original.ensures((args,), result)
}

/// Enabling and disabling are idempotent: asked twice, a hook is in the
/// state that it is in when asked once.
pub proof fn lemma_transitions_idempotent(state: HookState)
    ensures
        after_enable(after_enable(state)) == after_enable(state),
        after_disable(after_disable(state)) == after_disable(state),
{
}

/// Under a transparent replacement a call gives what the original gives,
/// whatever the state of the hook: to wrap the original and do nothing else
/// is to have no hook.
pub proof fn lemma_transparent_replacement<A, T, O: Fn(A) -> T, P: Fn(A, &O) -> T>(
    state: HookState,
    original: &O,
    replacement: &P,
    args: A,
    result: T,
)
    requires
        transparent(original, replacement),
        invoked(state, original, replacement, args, result),
    ensures
        original.ensures((args,), result),
{
}

/// After a hook is disabled, a call to its target gives what the original
/// gives, whatever the state of the hook was and whatever the replacement
/// is.
pub proof fn lemma_disabled_runs_original<A, T, O: Fn(A) -> T, P: Fn(A, &O) -> T>(
    state: HookState,
    original: &O,
    replacement: &P,
    args: A,
    result: T,
)
    requires
        invoked(after_disable(state), original, replacement, args, result),
    ensures
        route_of(after_disable(state)) == Route::Original,
        original.ensures((args,), result),
{
}

impl Hook {
    /// The state of the hook.
    pub closed spec fn state(&self) -> HookState {
        self.state
    }

    /// The target address of the hook. It means something once the hook is
    /// initialized.
    pub closed spec fn target(&self) -> u64 {
        self.target
    }

    /// A hook that has a target owns it: the registry holds the target.
    pub open spec fn owns_target(&self, registry: &HookRegistry) -> bool {
        self.state() != HookState::Uninitialized ==> registry@.contains(self.target())
    }

    /// A hook without a target.
    pub fn new() -> (hook: Hook)
        ensures
            hook.state() == HookState::Uninitialized,
    {
        Hook { target: 0, state: HookState::Uninitialized }
    }

    /// Initializes a hook at `target`, in one step from nothing. Fails
    /// with `AlreadyHooked`, and changes nothing, where a live hook owns
    /// the address.
    pub fn install(registry: &mut HookRegistry, target: u64) -> (r: Result<Hook, HookError>)
        requires
            old(registry).wf(),
        ensures
            final(registry).wf(),
            old(registry)@.contains(target) ==> r == Err::<Hook, HookError>(
                HookError::AlreadyHooked,
            ) && final(registry)@ == old(registry)@,
            !old(registry)@.contains(target) ==> (r matches Ok(hook) && hook.state()
                == HookState::Initialized && hook.target() == target) && final(registry)@ == old(registry)@.insert(target),
    {
        let mut hook = Hook::new();
        match hook.initialize(registry, target) {
            Ok(()) => Ok(hook),
            Err(e) => Err(e),
        }
    }

    /// Gives the hook its target. Fails with `AlreadyHooked` where a live
    /// hook owns the address, this hook itself included where it has a
    /// target already: then neither the registry nor this hook changes.
    pub fn initialize(&mut self, registry: &mut HookRegistry, target: u64) -> (r: Result<
        (),
        HookError,
    >)
        requires
            old(registry).wf(),
        ensures
            final(registry).wf(),
            r is Ok <==> claimable(old(registry)@, old(self).state(), target),
            r matches Err(e) ==> e == HookError::AlreadyHooked && final(registry)@ == old(
                registry
            )@ && *final(self) == *old(self),
            r is Ok ==> final(registry)@ == old(registry)@.insert(target) && final(self).state()
                == HookState::Initialized && final(self).target() == target && final(
                self
            ).owns_target(final(registry)),
    {
        match self.state {
            HookState::Uninitialized => {},
            _ => {
                return Err(HookError::AlreadyHooked);
            },
        }
        match registry.claim(target) {
            Ok(()) => {
                self.target = target;
                self.state = HookState::Initialized;
                Ok(())
            },
            Err(e) => Err(e),
        }
    }

    /// The state of the hook.
    pub fn current(&self) -> (state: HookState)
        ensures
            state == self.state(),
    {
        self.state
    }

    /// The target address, once the hook is initialized.
    pub fn address(&self) -> (target: Option<u64>)
        ensures
            target == (if self.state() == HookState::Uninitialized {
                None
            } else {
                Some(self.target())
            }),
    {
        match self.state {
            HookState::Uninitialized => None,
            _ => Some(self.target),
        }
    }

    /// Enables the hook, and says what the platform has to do for it. A
    /// hook that is enabled already, or that has no target, stays as it is
    /// and asks for nothing.
    pub fn enable(&mut self) -> (action: HookAction)
        ensures
            final(self).target() == old(self).target(),
            final(self).state() == after_enable(old(self).state()),
            action == (if old(self).state() == HookState::Initialized || old(self).state()
                == HookState::Disabled {
                HookAction::Redirect { target: old(self).target() }
            } else {
                HookAction::Nothing
            }),
    {
        match self.state {
            HookState::Initialized | HookState::Disabled => {
                self.state = HookState::Enabled;
                HookAction::Redirect { target: self.target }
            },
            _ => HookAction::Nothing,
        }
    }

    /// Disables the hook, and says what the platform has to do for it. A
    /// hook that is not enabled stays as it is and asks for nothing.
    pub fn disable(&mut self) -> (action: HookAction)
        ensures
            final(self).target() == old(self).target(),
            final(self).state() == after_disable(old(self).state()),
            action == (if old(self).state() == HookState::Enabled {
                HookAction::Restore { target: old(self).target() }
            } else {
                HookAction::Nothing
            }),
    {
        match self.state {
            HookState::Enabled => {
                self.state = HookState::Disabled;
                HookAction::Restore { target: self.target }
            },
            _ => HookAction::Nothing,
        }
    }

    /// Takes back a transition that the platform could not carry out, and
    /// gives the error to report. After a redirect that failed, calls run
    /// the original: the hook is disabled. After a restore that failed, the
    /// redirect is still in place: the hook is enabled. A hook without a
    /// target stays as it is.
    pub fn failed(&mut self, action: HookAction) -> (e: HookError)
        ensures
            e == HookError::Platform,
            final(self).target() == old(self).target(),
            final(self).state() == (if old(self).state() == HookState::Uninitialized {
                HookState::Uninitialized
            } else {
                match action {
                    HookAction::Nothing => old(self).state(),
                    HookAction::Redirect { .. } => HookState::Disabled,
                    HookAction::Restore { .. } => HookState::Enabled,
                }
            }),
    {
        match self.state {
            HookState::Uninitialized => {},
            _ => {
                match action {
                    HookAction::Nothing => {},
                    HookAction::Redirect { .. } => {
                        self.state = HookState::Disabled;
                    },
                    HookAction::Restore { .. } => {
                        self.state = HookState::Enabled;
                    },
                }
            },
        }
        HookError::Platform
    }

    /// Ends the life of the hook: its target is free for another hook, and
    /// the hook has none. Where the hook was enabled the platform has to
    /// restore the code of the target.
    pub fn remove(&mut self, registry: &mut HookRegistry) -> (action: HookAction)
        requires
            old(registry).wf(),
        ensures
            final(registry).wf(),
            final(self).state() == HookState::Uninitialized,
            final(registry)@ == (if old(self).state() == HookState::Uninitialized {
                old(registry)@
            } else {
                old(registry)@.remove(old(self).target())
            }),
            action == (if old(self).state() == HookState::Enabled {
                HookAction::Restore { target: old(self).target() }
            } else {
                HookAction::Nothing
            }),
    {
        let action = match self.state {
            HookState::Enabled => HookAction::Restore { target: self.target },
            _ => HookAction::Nothing,
        };
        match self.state {
            HookState::Uninitialized => {},
            _ => {
                registry.release(self.target);
            },
        }
        self.state = HookState::Uninitialized;
        action
    }

    /// The code that a call to the target runs now.
    pub fn route(&self) -> (route: Route)
        ensures
            route == route_of(self.state()),
    {
        match self.state {
            HookState::Enabled => Route::Replacement,
            _ => Route::Original,
        }
    }

    /// Runs a call to the target: the replacement while the hook is
    /// enabled, the original in every other state. The replacement is
    /// handed the original, to call through to it.
    pub fn invoke<A, T, O: Fn(A) -> T, P: Fn(A, &O) -> T>(
        &self,
        original: &O,
        replacement: &P,
        args: A,
    ) -> (result: T)
        requires
            match route_of(self.state()) {
                Route::Original => original.requires((args,)),
                Route::Replacement => replacement.requires((args, original)),
            },
        ensures
            invoked(self.state(), original, replacement, args, result),
    {
        match self.route() {
            Route::Original => original(args),
            Route::Replacement => replacement(args, original),
        }
    }
}

/// The bytes of `code` with `bytes` written over them from `offset` on.
pub open spec fn patched(code: Seq<u8>, offset: int, bytes: Seq<u8>) -> Seq<u8> {
    Seq::new(
        code.len(),
        |i: int|
            if offset <= i < offset + bytes.len() {
                bytes[i - offset]
            } else {
                code[i]
            },
    )
}

/// Writes bytes over code, from `offset` on, and hands back the bytes that
/// stood there. Nothing is restored by itself: to undo the patch, write the
/// bytes handed back over the same place. The bytes must lie inside the
/// code.
pub fn patch_bytes(code: &mut [u8], offset: usize, bytes: &[u8]) -> (overwritten: Vec<u8>)
    requires
        offset + bytes@.len() <= old(code)@.len(),
    ensures
        final(code)@ == patched(old(code)@, offset as int, bytes@),
        overwritten@ == old(code)@.subrange(offset as int, offset + bytes@.len()),
{
    let total = code.len();
    let mut overwritten: Vec<u8> = Vec::new();
    let mut i: usize = 0;
    while i < bytes.len()
        invariant
            0 <= i <= bytes@.len(),
            offset + bytes@.len() <= total,
            code@.len() == total,
            old(code)@.len() == total,
            code@ == patched(old(code)@, offset as int, bytes@.take(i as int)),
            overwritten@ == old(code)@.subrange(offset as int, offset + i),
        decreases bytes@.len() - i,
    {
        overwritten.push(code[offset + i]);
        code[offset + i] = bytes[i];
        proof {
            assert(code@ =~= patched(old(code)@, offset as int, bytes@.take(i as int + 1)));
            assert(overwritten@ =~= old(code)@.subrange(offset as int, offset + i + 1));
        }
        i = i + 1;
    }
    proof {
        assert(bytes@.take(bytes@.len() as int) =~= bytes@);
    }
    overwritten
}

/// Writing back the bytes that a patch overwrote restores the code byte for
/// byte.
pub proof fn lemma_patch_undone(code: Seq<u8>, offset: int, bytes: Seq<u8>)
    requires
        0 <= offset,
        offset + bytes.len() <= code.len(),
    ensures
        patched(
            patched(code, offset, bytes),
            offset,
            code.subrange(offset, offset + bytes.len()),
        ) == code,
{
    assert(patched(
        patched(code, offset, bytes),
        offset,
        code.subrange(offset, offset + bytes.len()),
    ) =~= code);
}

} // verus!
