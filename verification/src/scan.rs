//! Scanning a region of an image for the matches of a pattern.

use crate::image::view_len;
use crate::image::Image;
use crate::pattern::all_supported;
use crate::pattern::capture_count;
use crate::pattern::tokens_of;
use crate::pattern::Pattern;
use pelite::pattern::Atom;
use pelite::pe64::Pe;
use pelite::pe64::PeView;
use vstd::prelude::*;

verus! {

/// What the scanner of `pelite` finds first when it runs `atoms` over the
/// relative virtual addresses from `from` up to `to`, with a save array of
/// `slots` zeroes: the save array as the first match left it, or `None`
/// where nothing matches.
pub uninterp spec fn first_hit(
    view: PeView<'_>,
    atoms: Seq<Atom>,
    slots: nat,
    from: u32,
    to: u32,
) -> Option<Seq<u32>>;

/// Calls `Pe::scanner`, `Scanner::matches` on the range `from..to`, and
/// `Matches::next` once, on a fresh save array of `slots` zeroes. The
/// outcome is a function of the view, the instructions, the number of slots
/// and the range; nothing more is claimed of it. The range must start inside
/// the view, which the scanner slices by it, and the instructions must be
/// of the grammar of this library: of the others some read the save array,
/// and one shifts by its operand.
#[verifier::external_body]
fn find_first(view: &PeView<'_>, atoms: &Vec<Atom>, slots: usize, from: u32, to: u32) -> (hit:
    Option<Vec<u32>>)
    requires
        from <= to,
        from <= view_len(*view),
        view_len(*view) <= u32::MAX,
        all_supported(tokens_of(atoms@)),
    ensures
        match hit {
            Some(save) => save@.len() == slots && first_hit(*view, atoms@, slots as nat, from, to)
                == Some(save@),
            None => first_hit(*view, atoms@, slots as nat, from, to) is None,
        },
{
    let mut save = vec![0u32; slots];
    if view.scanner().matches(atoms, from..to).next(&mut save) {
        Some(save)
    } else {
        None
    }
}

/// One match of a pattern: the captured relative virtual addresses, one for
/// each capture slot. Slot 0 holds the address of the match itself.
#[derive(Clone, Debug, PartialEq, Eq)]
pub struct Match {
    pub captures: Vec<u32>,
}

impl View for Match {
    type V = Seq<u32>;

    open spec fn view(&self) -> Seq<u32> {
        self.captures@
    }
}

impl Match {
    /// The relative virtual address at which the pattern matched.
    pub fn base(&self) -> (rva: u32)
        requires
            self@.len() > 0,
        ensures
            rva == self@[0],
    {
        self.captures[0]
    }
}

/// The captures of each match of a sequence.
pub open spec fn captures_of(matches: Seq<Match>) -> Seq<Seq<u32>> {
    Seq::new(matches.len(), |i: int| matches[i]@)
}

/// The matches of a pattern in the range from `from` up to `to`, in
/// ascending order of their address: the first match of the range, then the
/// matches of the range that starts one byte behind the address of that
/// match. A range that is empty, or that starts outside the image, holds no
/// match.
pub open spec fn hits(view: PeView<'_>, atoms: Seq<Atom>, slots: nat, from: u32, to: u32) -> Seq<
    Seq<u32>,
>
    decreases to - from,
{
    if from >= to || from > view_len(view) {
        Seq::empty()
    } else {
        match first_hit(view, atoms, slots, from, to) {
            Some(save) => if save.len() == slots && slots > 0 && from <= save[0] < to {
                seq![save] + hits(view, atoms, slots, (save[0] + 1) as u32, to)
            } else {
                Seq::empty()
            },
            None => Seq::empty(),
        }
    }
}

/// A scan in progress: the part of a region that is still to be searched.
/// Each match is handed out once, and a scan that has ended stays ended.
#[derive(Debug)]
pub struct Scan {
    next: u32,
    end: u32,
}

impl Scan {
    /// The range that is still to be searched, start and exclusive end.
    pub closed spec fn range(&self) -> (u32, u32) {
        (self.next, self.end)
    }

    /// The matches that the scan has yet to hand out.
    pub open spec fn remaining(&self, pattern: &Pattern, image: &Image<'_>) -> Seq<Seq<u32>> {
        hits(
            image.mapped(),
            pattern.atoms(),
            capture_count(pattern@),
            self.range().0,
            self.range().1,
        )
    }

    /// Starts a scan of the relative virtual addresses from `start` up to
    /// `end`.
    pub fn new(start: u32, end: u32) -> (scan: Scan)
        ensures
            scan.range() == (start, end),
    {
        Scan { next: start, end }
    }

    /// Hands out the next match of the scan, or `None` when there is none
    /// left. Scanning goes on one byte behind the address of the match.
    pub fn next_match(&mut self, pattern: &Pattern, image: &Image<'_>) -> (found: Option<Match>)
        requires
            pattern.wf(),
            image.wf(),
        ensures
            match found {
                Some(m) => {
                    &&& old(self).remaining(pattern, image).len() > 0
                    &&& m@ == old(self).remaining(pattern, image)[0]
                    &&& final(self).remaining(pattern, image) == old(self).remaining(
                        pattern,
                        image,
                    ).skip(1)
                    &&& old(self).range().0 <= m@[0] < old(self).range().1
                    &&& final(self).range() == ((m@[0] + 1) as u32, old(self).range().1)
                },
                None => {
                    &&& old(self).remaining(pattern, image).len() == 0
                    &&& final(self).remaining(pattern, image).len() == 0
                },
            },
    {
        let from = self.next;
        let to = self.end;
        if from >= to || from as usize > image.len() {
            self.next = to;
            return None;
        }
        let slots = pattern.capture_count();
        let view = image.raw();
        match find_first(view, pattern.raw(), slots, from, to) {
            Some(save) => {
                let start = save[0];
                if from <= start && start < to {
                    self.next = start + 1;
                    proof {
                        let rest = hits(
                            image.mapped(),
                            pattern.atoms(),
                            slots as nat,
                            (start + 1) as u32,
                            to,
                        );
                        assert((seq![save@] + rest).skip(1) =~= rest);
                    }
                    Some(Match { captures: save })
                } else {
                    self.next = to;
                    None
                }
            },
            None => {
                self.next = to;
                None
            },
        }
    }
}

/// All matches of a pattern in the relative virtual addresses from `start`
/// up to `end` of an image, in ascending order of their address.
pub fn scan(pattern: &Pattern, image: &Image<'_>, start: u32, end: u32) -> (found: Vec<Match>)
    requires
        pattern.wf(),
        image.wf(),
    ensures
        captures_of(found@) == hits(
            image.mapped(),
            pattern.atoms(),
            capture_count(pattern@),
            start,
            end,
        ),
        start >= end ==> found@.len() == 0,
{
    let mut cursor = Scan::new(start, end);
    let mut found: Vec<Match> = Vec::new();
    let ghost all = cursor.remaining(pattern, image);
    loop
        invariant
            pattern.wf(),
            image.wf(),
            cursor.range().1 == end,
            all == hits(image.mapped(), pattern.atoms(), capture_count(pattern@), start, end),
            all == captures_of(found@) + cursor.remaining(pattern, image),
        decreases end - cursor.range().0,
    {
        let ghost before = captures_of(found@);
        let ghost left = cursor.remaining(pattern, image);
        match cursor.next_match(pattern, image) {
            Some(m) => {
                found.push(m);
                proof {
                    assert(captures_of(found@) =~= before.push(left[0]));
                    assert(before.push(left[0]) + left.skip(1) =~= before + left);
                }
            },
            None => {
                proof {
                    assert(before + left =~= before);
                    assert(captures_of(found@).len() == found@.len());
                }
                return found;
            },
        }
    }
}

/// A scan of an empty region finds nothing, whatever the pattern.
pub proof fn lemma_empty_region_has_no_hits(
    view: PeView<'_>,
    atoms: Seq<Atom>,
    slots: nat,
    from: u32,
    to: u32,
)
    requires
        from >= to,
    ensures
        hits(view, atoms, slots, from, to).len() == 0,
{
}

} // verus!
