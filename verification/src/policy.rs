//! The policy of interception: how a replacement decides between the
//! original and an answer of its own.

use crate::hook::patch_bytes;
use crate::hook::patched;
use vstd::prelude::*;

verus! {

/// What a replacement does with a call.
#[derive(Clone, Copy, Debug, PartialEq, Eq, Structural)]
pub enum Decision {
    /// Hand the call to the original, unchanged.
    CallOriginal,
    /// Answer with this value; the original is not called.
    Force(u32),
}

/// One line of a policy table: calls with this discriminant are answered
/// with the forced value.
#[derive(Clone, Copy, Debug, PartialEq, Eq, Structural)]
pub struct PolicyEntry {
    pub discriminant: u32,
    pub forced: u32,
}

/// The mapping that lines stand for: a later line of a discriminant
/// overrides an earlier one.
pub open spec fn mapping_of(lines: Seq<PolicyEntry>) -> Map<u32, u32>
    decreases lines.len(),
{
    if lines.len() == 0 {
        Map::empty()
    } else {
        mapping_of(lines.drop_last()).insert(lines.last().discriminant, lines.last().forced)
    }
}

/// A policy table: the discriminants whose calls are answered with a forced
/// value, and these values.
#[derive(Clone, Debug, PartialEq, Eq)]
pub struct PolicyTable {
    lines: Vec<PolicyEntry>,
}

impl View for PolicyTable {
    type V = Map<u32, u32>;

    closed spec fn view(&self) -> Map<u32, u32> {
        mapping_of(self.lines@)
    }
}

/// The value that answers a call which a table suppresses.
pub const SUPPRESSED: u32 = 0;

impl PolicyTable {
    /// A table that forces nothing.
    pub fn new() -> (table: PolicyTable)
        ensures
            table@ == Map::<u32, u32>::empty(),
    {
        PolicyTable { lines: Vec::new() }
    }

    /// Adds a line to the table. A line that the discriminant had before
    /// is overridden.
    pub fn set(&mut self, discriminant: u32, forced: u32)
        ensures
            final(self)@ == old(self)@.insert(discriminant, forced),
    {
        let ghost before = self.lines@;
        self.lines.push(PolicyEntry { discriminant, forced });
        proof {
            assert(self.lines@.drop_last() =~= before);
        }
    }

    /// The value that the table forces for a discriminant, if it forces
    /// one.
    pub fn forced(&self, discriminant: u32) -> (value: Option<u32>)
        ensures
            value == (if self@.contains_key(discriminant) {
                Some(self@[discriminant])
            } else {
                None
            }),
    {
        let mut i: usize = self.lines.len();
        proof {
            assert(self.lines@.take(i as int) =~= self.lines@);
        }
        while i > 0
            invariant
                0 <= i <= self.lines.len(),
                mapping_of(self.lines@).contains_key(discriminant) == mapping_of(
                    self.lines@.take(i as int),
                ).contains_key(discriminant),
                mapping_of(self.lines@).contains_key(discriminant) ==> mapping_of(
                    self.lines@,
                )[discriminant] == mapping_of(self.lines@.take(i as int))[discriminant],
            decreases i,
        {
            proof {
                assert(self.lines@.take(i as int).drop_last() =~= self.lines@.take(i as int - 1));
                assert(self.lines@.take(i as int).last() == self.lines@[i as int - 1]);
            }
            i = i - 1;
            if self.lines[i].discriminant == discriminant {
                return Some(self.lines[i].forced);
            }
        }
        None
    }

    /// The table for the counts of the events of a map: treasure, invasions
    /// by characters of the host, pools of signs and points of retry are
    /// suppressed.
    pub fn msb_events() -> (table: PolicyTable)
        ensures
            table@ == Map::<u32, u32>::empty().insert(4, SUPPRESSED).insert(12, SUPPRESSED).insert(
                23,
                SUPPRESSED,
            ).insert(24, SUPPRESSED),
    {
        let mut table = PolicyTable::new();
        table.set(4, SUPPRESSED);
        table.set(12, SUPPRESSED);
        table.set(23, SUPPRESSED);
        table.set(24, SUPPRESSED);
        table
    }

    /// The table for the counts of the parts of a map: enemies and dummy
    /// enemies are suppressed.
    pub fn msb_parts() -> (table: PolicyTable)
        ensures
            table@ == Map::<u32, u32>::empty().insert(2, SUPPRESSED).insert(9, SUPPRESSED),
    {
        let mut table = PolicyTable::new();
        table.set(2, SUPPRESSED);
        table.set(9, SUPPRESSED);
        table
    }

    /// The table for the counts of the points of a map: trigger shapes and
    /// points of invasion are suppressed.
    pub fn msb_points() -> (table: PolicyTable)
        ensures
            table@ == Map::<u32, u32>::empty().insert(0, SUPPRESSED).insert(1, SUPPRESSED),
    {
        let mut table = PolicyTable::new();
        table.set(0, SUPPRESSED);
        table.set(1, SUPPRESSED);
        table
    }
}

/// What a table decides for a call: while the policy is inactive, and for a
/// discriminant that the table does not hold, the original; else the value
/// that the table forces.
pub open spec fn decision_of(active: bool, table: Map<u32, u32>, discriminant: u32) -> Decision {
    if active && table.contains_key(discriminant) {
        Decision::Force(table[discriminant])
    } else {
        Decision::CallOriginal
    }
}

/// Decides what a replacement does with a call of this discriminant.
pub fn decide(active: bool, table: &PolicyTable, discriminant: u32) -> (decision: Decision)
    ensures
        decision == decision_of(active, table@, discriminant),
{
    if !active {
        return Decision::CallOriginal;
    }
    match table.forced(discriminant) {
        Some(value) => Decision::Force(value),
        None => Decision::CallOriginal,
    }
}

/// A replacement that goes by a table: it answers with the value that the
/// table forces for the discriminant, and hands every other call to the
/// original, with the arguments it was called with.
pub fn table_override<O: Fn(usize, u32) -> u32>(
    active: bool,
    table: &PolicyTable,
    call_original: &O,
    subject: usize,
    discriminant: u32,
) -> (result: u32)
    requires
        decision_of(active, table@, discriminant) is CallOriginal ==> call_original.requires(
            (subject, discriminant),
        ),
    ensures
        match decision_of(active, table@, discriminant) {
            Decision::Force(value) => result == value,
            Decision::CallOriginal => call_original.ensures((subject, discriminant), result),
        },
{
    match decide(active, table, discriminant) {
        Decision::Force(value) => value,
        Decision::CallOriginal => call_original(subject, discriminant),
    }
}

/// A replacement that passes through by policy: while the policy is
/// inactive the call goes to the original, unchanged, and nothing else
/// happens; while it is active the handler answers.
pub fn pass_through<A, T, O: Fn(A) -> T, H: Fn(A) -> T>(
    active: bool,
    call_original: &O,
    handler: &H,
    args: A,
) -> (result: T)
    requires
        active ==> handler.requires((args,)),
        !active ==> call_original.requires((args,)),
    ensures
        active ==> handler.ensures((args,), result),
        !active ==> call_original.ensures((args,), result),
{
    if active {
        handler(args)
    } else {
        call_original(args)
    }
}

/// A replacement that amends after the call: the original is called first,
/// in every case, and while the policy is active its result is amended.
pub fn amend_after<A, T, O: Fn(A) -> T, M: Fn(T) -> T>(
    active: bool,
    call_original: &O,
    amendment: &M,
    args: A,
) -> (result: T)
    requires
        call_original.requires((args,)),
        active ==> forall|produced: T| #[trigger]
            call_original.ensures((args,), produced) ==> amendment.requires((produced,)),
    ensures
        !active ==> call_original.ensures((args,), result),
        active ==> exists|produced: T| #[trigger]
            call_original.ensures((args,), produced) && amendment.ensures((produced,), result),
{
    let produced = call_original(args);
    if active {
        amendment(produced)
    } else {
        produced
    }
}

/// The opcode of an unconditional short jump.
pub const SHORT_JUMP: u8 = 0xEB;

/// Defeats a conditional short jump: its opcode, the byte of the code at
/// `offset`, becomes that of an unconditional jump, so that the guarded
/// branch is always taken. Hands back the opcode that stood there.
pub fn force_jump(code: &mut [u8], offset: usize) -> (overwritten: u8)
    requires
        offset < old(code)@.len(),
    ensures
        final(code)@ == old(code)@.update(offset as int, SHORT_JUMP),
        overwritten == old(code)@[offset as int],
{
    let opcode: [u8; 1] = [SHORT_JUMP];
    let overwritten = patch_bytes(code, offset, opcode.as_slice());
    proof {
        assert(patched(old(code)@, offset as int, opcode@) =~= old(code)@.update(
            offset as int,
            SHORT_JUMP,
        ));
    }
    overwritten[0]
}

} // verus!
