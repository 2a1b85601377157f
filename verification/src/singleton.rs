//! Locating the singletons of the host: the idiom that gives them away, the
//! vetting of its matches, and the table of names and addresses built from
//! them.

use crate::image::range_of;
use crate::image::view_section;
use crate::image::Image;
use crate::image::VirtualRange;
use crate::pattern::capture_count;
use crate::pattern::compile;
use crate::pattern::compiled;
use crate::pattern::Pattern;
use crate::pattern::PatternError;
use crate::scan::captures_of;
use crate::scan::hits;
use crate::scan::scan;
use crate::scan::Match;
use crate::table::SingletonMap;
use std::marker::PhantomData;
use vstd::prelude::*;
use vstd::slice::slice_subrange;
use vstd::string::StringExecFns;
use vstd::utf8::decode_utf8;
use vstd::utf8::valid_utf8;

verus! {

/// The reason the table of singletons could not be built.
#[derive(Clone, Copy, Debug, PartialEq, Eq)]
pub enum SingletonMapError {
    /// The image has no section of this name.
    Section(&'static str),
    /// A name that the host gave for a singleton is not valid text.
    MalformedName,
}

impl SingletonMapError {
    /// The text that describes the error.
    pub open spec fn text(&self) -> Seq<char> {
        match *self {
            SingletonMapError::Section(name) => "Could not find section "@ + name@ + "."@,
            SingletonMapError::MalformedName =>
                "Could not parse the discovered singleton's name."@,
        }
    }

    /// Describes the error in words.
    pub fn message(&self) -> (text: String)
        ensures
            text@ == self.text(),
    {
        match *self {
            SingletonMapError::Section(name) => {
                let mut text = String::from_str("Could not find section ");
                text.append(name);
                text.append(".");
                text
            },
            SingletonMapError::MalformedName => String::from_str(
                "Could not parse the discovered singleton's name.",
            ),
        }
    }
}

/// The name of the section that holds the code of the host.
pub const TEXT_SECTION: &'static str = ".text";

/// The name of the section that holds the statics of the host.
pub const DATA_SECTION: &'static str = ".data";

/// The idiom that precedes the use of a singleton: the load of a register
/// from a static slot, a test of the register for zero, a conditional
/// branch, the load of the address of the reflection metadata, and the call
/// of the routine that gives the name of the type. It captures the address
/// of the static slot, of the metadata and of the routine, in this order.
pub const NULL_CHECK_PATTERN: &'static str =
    "48 8b 0d $ { ' }48 85 ? 75 ? 48 8d 0d $ { ' }e8 $ { ' }";

/// Compiles the idiom that precedes the use of a singleton.
pub fn null_check_pattern() -> (r: Result<Pattern, PatternError>)
    ensures
        match compiled(NULL_CHECK_PATTERN) {
            Some(atoms) => r matches Ok(p) && p.wf() && p.atoms() == atoms,
            None => r matches Err(e) && e == PatternError::Syntax,
        },
{
    compile(NULL_CHECK_PATTERN)
}

/// A singleton that the scan suggests: the absolute addresses of the static
/// slot that holds its instance, of its reflection metadata, and of the
/// routine that gives its name.
#[derive(Clone, Copy, Debug, PartialEq, Eq, Structural)]
pub struct Candidate {
    pub slot: u64,
    pub metadata: u64,
    pub routine: u64,
}

/// The captures of a match are plausible: the static slot and the metadata
/// lie in the data section, and the routine lies in the code section.
pub open spec fn plausible(captures: Seq<u32>, text: VirtualRange, data: VirtualRange) -> bool {
    &&& captures.len() >= 4
    &&& data.holds(captures[1])
    &&& data.holds(captures[2])
    &&& text.holds(captures[3])
}

/// The candidate that the captures of a match describe in an image mapped
/// at `base`.
pub open spec fn resolved(base: u64, captures: Seq<u32>) -> Candidate {
    Candidate {
        slot: (base + captures[1]) as u64,
        metadata: (base + captures[2]) as u64,
        routine: (base + captures[3]) as u64,
    }
}

/// The candidates among the matches of a scan, in the order of the matches:
/// a match whose captures are not plausible contributes nothing.
pub open spec fn vetted(
    matches: Seq<Seq<u32>>,
    base: u64,
    text: VirtualRange,
    data: VirtualRange,
) -> Seq<Candidate>
    decreases matches.len(),
{
    if matches.len() == 0 {
        Seq::empty()
    } else {
        let earlier = vetted(matches.drop_last(), base, text, data);
        if plausible(matches.last(), text, data) {
            earlier.push(resolved(base, matches.last()))
        } else {
            earlier
        }
    }
}

/// Vets the matches of a scan of an image mapped at `base`, and resolves
/// the captures of those that pass to absolute addresses.
pub fn vet(matches: &Vec<Match>, base: u64, text: VirtualRange, data: VirtualRange) -> (found: Vec<
    Candidate,
>)
    requires
        base + 0xffff_ffff <= u64::MAX,
    ensures
        found@ == vetted(captures_of(matches@), base, text, data),
{
    let mut found: Vec<Candidate> = Vec::new();
    let mut i: usize = 0;
    while i < matches.len()
        invariant
            0 <= i <= matches.len(),
            base + 0xffff_ffff <= u64::MAX,
            found@ == vetted(captures_of(matches@).take(i as int), base, text, data),
        decreases matches.len() - i,
    {
        proof {
            let all = captures_of(matches@);
            assert(all.take(i as int + 1).drop_last() =~= all.take(i as int));
            assert(all.take(i as int + 1).last() == matches@[i as int]@);
        }
        let captures = &matches[i].captures;
        if captures.len() >= 4 {
            let slot = captures[1];
            let metadata = captures[2];
            let routine = captures[3];
            if data.contains(slot) && data.contains(metadata) && text.contains(routine) {
                found.push(
                    Candidate {
                        slot: base + slot as u64,
                        metadata: base + metadata as u64,
                        routine: base + routine as u64,
                    },
                );
            }
        }
        i = i + 1;
    }
    proof {
        assert(captures_of(matches@).take(matches.len() as int) =~= captures_of(matches@));
    }
    found
}

/// The candidates of two runs of matches, one after the other, are the
/// candidates of the first run followed by those of the second.
pub proof fn lemma_vetted_concat(
    first: Seq<Seq<u32>>,
    second: Seq<Seq<u32>>,
    base: u64,
    text: VirtualRange,
    data: VirtualRange,
)
    ensures
        vetted(first + second, base, text, data) == vetted(first, base, text, data) + vetted(
            second,
            base,
            text,
            data,
        ),
    decreases second.len(),
{
    if second.len() == 0 {
        assert(first + second =~= first);
        assert(vetted(first, base, text, data) + vetted(second, base, text, data) =~= vetted(
            first,
            base,
            text,
            data,
        ));
    } else {
        lemma_vetted_concat(first, second.drop_last(), base, text, data);
        assert((first + second).drop_last() =~= first + second.drop_last());
        assert((first + second).last() == second.last());
        let earlier = vetted(second.drop_last(), base, text, data);
        let head = vetted(first, base, text, data);
        if plausible(second.last(), text, data) {
            assert((head + earlier).push(resolved(base, second.last())) =~= head + earlier.push(
                resolved(base, second.last()),
            ));
        }
    }
}

proof fn lemma_vetted_single(
    captures: Seq<u32>,
    base: u64,
    text: VirtualRange,
    data: VirtualRange,
)
    ensures
        vetted(seq![captures], base, text, data) == (if plausible(captures, text, data) {
            seq![resolved(base, captures)]
        } else {
            Seq::<Candidate>::empty()
        }),
{
    let single = seq![captures];
    assert(single.drop_last() =~= Seq::<Seq<u32>>::empty());
    assert(single.last() == captures);
    assert(vetted(single.drop_last(), base, text, data) =~= Seq::<Candidate>::empty());
    if plausible(captures, text, data) {
        assert(Seq::<Candidate>::empty().push(resolved(base, captures)) =~= seq![
            resolved(base, captures),
        ]);
    }
}

/// A match whose captures fall outside the sections they belong to never
/// contributes a candidate: with it or without it, the matches give the
/// same candidates.
pub proof fn lemma_implausible_match_contributes_nothing(
    before: Seq<Seq<u32>>,
    captures: Seq<u32>,
    after: Seq<Seq<u32>>,
    base: u64,
    text: VirtualRange,
    data: VirtualRange,
)
    requires
        !plausible(captures, text, data),
    ensures
        vetted(before + seq![captures] + after, base, text, data) == vetted(
            before + after,
            base,
            text,
            data,
        ),
{
    lemma_vetted_concat(before + seq![captures], after, base, text, data);
    lemma_vetted_concat(before, seq![captures], base, text, data);
    lemma_vetted_concat(before, after, base, text, data);
    lemma_vetted_single(captures, base, text, data);
    assert(vetted(before, base, text, data) + Seq::<Candidate>::empty() =~= vetted(
        before,
        base,
        text,
        data,
    ));
}

/// Every candidate comes from a match whose captures are plausible, and
/// holds the addresses that the captures of this match resolve to.
pub proof fn lemma_candidates_come_from_plausible_matches(
    matches: Seq<Seq<u32>>,
    base: u64,
    text: VirtualRange,
    data: VirtualRange,
    k: int,
)
    requires
        0 <= k < vetted(matches, base, text, data).len(),
    ensures
        exists|i: int|
            0 <= i < matches.len() && plausible(#[trigger] matches[i], text, data) && vetted(
                matches,
                base,
                text,
                data,
            )[k] == resolved(base, matches[i]),
    decreases matches.len(),
{
    let earlier = vetted(matches.drop_last(), base, text, data);
    if k < earlier.len() {
        lemma_candidates_come_from_plausible_matches(matches.drop_last(), base, text, data, k);
        let i = choose|i: int|
            0 <= i < matches.drop_last().len() && plausible(
                #[trigger] matches.drop_last()[i],
                text,
                data,
            ) && earlier[k] == resolved(base, matches.drop_last()[i]);
        assert(matches[i] == matches.drop_last()[i]);
    } else {
        assert(matches[matches.len() - 1] == matches.last());
    }
}

/// One match with plausible captures and a name of valid text give a table
/// of exactly one entry: the name, and under it the absolute address of the
/// static slot that the match captured.
pub proof fn lemma_single_match_single_entry(
    captures: Seq<u32>,
    base: u64,
    text: VirtualRange,
    data: VirtualRange,
    name: Seq<u8>,
)
    requires
        plausible(captures, text, data),
        valid_utf8(name_bytes(name)),
        base + 0xffff_ffff <= u64::MAX,
    ensures
        vetted(seq![captures], base, text, data) == seq![resolved(base, captures)],
        table_of(vetted(seq![captures], base, text, data), seq![name]) == Ok::<
            Map<Seq<char>, u64>,
            SingletonMapError,
        >(
            Map::<Seq<char>, u64>::empty().insert(
                decode_utf8(name_bytes(name)),
                (base + captures[1]) as u64,
            ),
        ),
{
    lemma_vetted_single(captures, base, text, data);
    let found = vetted(seq![captures], base, text, data);
    let names = seq![name];
    assert(names.drop_last() =~= Seq::<Seq<u8>>::empty());
    assert(names.last() == name);
    assert(table_of(found, names.drop_last()) == Ok::<Map<Seq<char>, u64>, SingletonMapError>(
        Map::empty(),
    ));
    assert(found[0] == resolved(base, captures));
}

/// The candidates of an image: the vetted matches of the pattern in the
/// code section.
pub open spec fn candidates_of(
    image: &Image<'_>,
    pattern: &Pattern,
    text: VirtualRange,
    data: VirtualRange,
) -> Seq<Candidate> {
    vetted(
        hits(image.mapped(), pattern.atoms(), capture_count(pattern@), text.start, text.end),
        image.base_address(),
        text,
        data,
    )
}

/// Scans the code section of an image for a pattern and vets the matches.
/// Fails where the image lacks its code section or its data section, the
/// code section being looked for first.
pub fn find_candidates(image: &Image<'_>, pattern: &Pattern) -> (r: Result<
    Vec<Candidate>,
    SingletonMapError,
>)
    requires
        image.wf(),
        pattern.wf(),
    ensures
        match (
            view_section(image.mapped(), TEXT_SECTION@),
            view_section(image.mapped(), DATA_SECTION@),
        ) {
            (None, _) => r matches Err(SingletonMapError::Section(name)) && name@ == TEXT_SECTION@,
            (Some(_), None) => r matches Err(SingletonMapError::Section(name)) && name@
                == DATA_SECTION@,
            (Some(text), Some(data)) => r matches Ok(found) && found@ == candidates_of(
                image,
                pattern,
                range_of(text),
                range_of(data),
            ),
        },
{
    let text = match image.require_section(TEXT_SECTION) {
        Ok(section) => section.range,
        Err(_) => {
            return Err(SingletonMapError::Section(TEXT_SECTION));
        },
    };
    let data = match image.require_section(DATA_SECTION) {
        Ok(section) => section.range,
        Err(_) => {
            return Err(SingletonMapError::Section(DATA_SECTION));
        },
    };
    let matches = scan(pattern, image, text.start, text.end);
    Ok(vet(&matches, image.base(), text, data))
}

/// Calls `std::str::from_utf8`: the text that the bytes encode, where they
/// are valid UTF-8, and `None` where they are not.
#[verifier::external_body]
fn decode<'a>(bytes: &'a [u8]) -> (text: Option<&'a str>)
    ensures
        match text {
            Some(s) => valid_utf8(bytes@) && s@ == decode_utf8(bytes@),
            None => !valid_utf8(bytes@),
        },
{
    std::str::from_utf8(bytes).ok()
}

/// The number of bytes of a name before the zero byte that ends it; the
/// number of all its bytes where none is zero.
pub open spec fn name_len(bytes: Seq<u8>) -> nat
    decreases bytes.len(),
{
    if bytes.len() == 0 || bytes[0] == 0 {
        0
    } else {
        1 + name_len(bytes.drop_first())
    }
}

/// The bytes of a name as the host gives it, up to the zero byte that ends
/// it.
pub open spec fn name_bytes(bytes: Seq<u8>) -> Seq<u8> {
    bytes.take(name_len(bytes) as int)
}

proof fn lemma_name_len(bytes: Seq<u8>, n: int)
    requires
        0 <= n <= bytes.len(),
        forall|i: int| 0 <= i < n ==> #[trigger] bytes[i] != 0,
        n == bytes.len() || bytes[n] == 0,
    ensures
        name_len(bytes) == n,
    decreases n,
{
    if n > 0 {
        let rest = bytes.drop_first();
        assert forall|i: int| 0 <= i < n - 1 implies #[trigger] rest[i] != 0 by {
            assert(rest[i] == bytes[i + 1]);
        }
        lemma_name_len(rest, n - 1);
    }
}

fn terminated(bytes: &[u8]) -> (name: &[u8])
    ensures
        name@ == name_bytes(bytes@),
{
    let mut n: usize = 0;
    while n < bytes.len() && bytes[n] != 0
        invariant
            0 <= n <= bytes@.len(),
            forall|i: int| 0 <= i < n ==> #[trigger] bytes@[i] != 0,
        decreases bytes@.len() - n,
    {
        n = n + 1;
    }
    proof {
        lemma_name_len(bytes@, n as int);
    }
    slice_subrange(bytes, 0, n)
}

/// Enters a candidate into the table under the name that the host gave for
/// it: the bytes up to the zero byte that ends them, read as text. A name
/// that is not valid text leaves the table as it was and fails.
pub fn add_named(table: &mut SingletonMap, candidate: &Candidate, name: &[u8]) -> (r: Result<
    (),
    SingletonMapError,
>)
    requires
        old(table).wf(),
    ensures
        final(table).wf(),
        valid_utf8(name_bytes(name@)) ==> r is Ok && final(table)@ == old(table)@.insert(
            decode_utf8(name_bytes(name@)),
            candidate.slot,
        ),
        !valid_utf8(name_bytes(name@)) ==> r == Err::<(), SingletonMapError>(
            SingletonMapError::MalformedName,
        ) && final(table)@ == old(table)@,
{
    match decode(terminated(name)) {
        Some(text) => {
            table.insert(text.to_owned(), candidate.slot);
            Ok(())
        },
        None => Err(SingletonMapError::MalformedName),
    }
}

/// The table that the first candidates give under the names that the host
/// gave for them, one name for each in order: each candidate is entered in
/// turn under the text of its name, so of two candidates of one name the
/// later decides the address. One name that is not valid text fails the
/// whole table.
pub open spec fn table_of(candidates: Seq<Candidate>, names: Seq<Seq<u8>>) -> Result<
    Map<Seq<char>, u64>,
    SingletonMapError,
>
    recommends
        names.len() <= candidates.len(),
    decreases names.len(),
{
    if names.len() == 0 {
        Ok(Map::empty())
    } else {
        match table_of(candidates, names.drop_last()) {
            Err(e) => Err(e),
            Ok(earlier) => if valid_utf8(name_bytes(names.last())) {
                Ok(
                    earlier.insert(
                        decode_utf8(name_bytes(names.last())),
                        candidates[names.len() - 1].slot,
                    ),
                )
            } else {
                Err(SingletonMapError::MalformedName)
            },
        }
    }
}

/// The bytes of each of a sequence of names.
pub open spec fn bytes_of(names: Seq<Vec<u8>>) -> Seq<Seq<u8>> {
    Seq::new(names.len(), |i: int| names[i]@)
}

/// The routine can be called for each of the candidates: with the address
/// of the routine of the candidate and the address of its metadata.
pub open spec fn callable_on<F: Fn(u64, u64) -> Vec<u8>>(
    get_name: &F,
    candidates: Seq<Candidate>,
) -> bool {
    forall|i: int|
        0 <= i < candidates.len() ==> get_name.requires(
            ((#[trigger] candidates[i]).routine, candidates[i].metadata),
        )
}

/// A routine that can be called for whatever plausible captures resolve to
/// can be called for each candidate among the matches of a scan.
pub proof fn lemma_callable_on_vetted<F: Fn(u64, u64) -> Vec<u8>>(
    get_name: &F,
    matches: Seq<Seq<u32>>,
    base: u64,
    text: VirtualRange,
    data: VirtualRange,
)
    requires
        forall|captures: Seq<u32>| #[trigger]
            plausible(captures, text, data) ==> get_name.requires(
                (resolved(base, captures).routine, resolved(base, captures).metadata),
            ),
    ensures
        callable_on(get_name, vetted(matches, base, text, data)),
{
    let found = vetted(matches, base, text, data);
    assert forall|k: int| 0 <= k < found.len() implies get_name.requires(
        ((#[trigger] found[k]).routine, found[k].metadata),
    ) by {
        lemma_candidates_come_from_plausible_matches(matches, base, text, data, k);
        let i = choose|i: int|
            0 <= i < matches.len() && plausible(#[trigger] matches[i], text, data) && found[k]
                == resolved(base, matches[i]);
        assert(plausible(matches[i], text, data));
    }
}

/// The names are what the routine gave for the first candidates, one for
/// each in order.
pub open spec fn answered<F: Fn(u64, u64) -> Vec<u8>>(
    get_name: &F,
    candidates: Seq<Candidate>,
    names: Seq<Vec<u8>>,
) -> bool {
    &&& names.len() <= candidates.len()
    &&& forall|i: int|
        0 <= i < names.len() ==> get_name.ensures(
            (candidates[i].routine, candidates[i].metadata),
            #[trigger] names[i],
        )
}

/// The outcome of a build agrees with the table that the candidates give
/// under the names: the same mapping, built from a name for every candidate,
/// or the same failure.
pub open spec fn agrees(
    r: Result<SingletonMap, SingletonMapError>,
    candidates: Seq<Candidate>,
    names: Seq<Seq<u8>>,
) -> bool {
    match table_of(candidates, names) {
        Ok(mapping) => {
            &&& names.len() == candidates.len()
            &&& r matches Ok(table) && table.wf() && table@ == mapping
        },
        Err(e) => r matches Err(failure) && failure == e,
    }
}

/// Builds the table from the candidates. For each candidate in turn the
/// routine is asked for the name, with the address of the routine of the
/// candidate and the address of its metadata, and the candidate is entered
/// under the name it gives. The first name that is not valid text ends the
/// build with `MalformedName`; the routine is not asked again after it.
pub fn table_from_candidates<F: Fn(u64, u64) -> Vec<u8>>(
    candidates: &Vec<Candidate>,
    get_name: &F,
) -> (r: Result<SingletonMap, SingletonMapError>)
    requires
        callable_on(get_name, candidates@),
    ensures
        exists|names: Seq<Vec<u8>>| #[trigger]
            answered(get_name, candidates@, names) && agrees(r, candidates@, bytes_of(names)),
{
    let mut table = SingletonMap::new();
    let ghost mut names: Seq<Vec<u8>> = Seq::empty();
    let mut i: usize = 0;
    while i < candidates.len()
        invariant
            0 <= i <= candidates.len(),
            names.len() == i,
            table.wf(),
            answered(get_name, candidates@, names),
            table_of(candidates@, bytes_of(names)) == Ok::<Map<Seq<char>, u64>, SingletonMapError>(
                table@,
            ),
            callable_on(get_name, candidates@),
        decreases candidates.len() - i,
    {
        let candidate = &candidates[i];
        proof {
            assert(get_name.requires((candidates@[i as int].routine, candidates@[i as int].metadata)));
        }
        let name = get_name(candidate.routine, candidate.metadata);
        let ghost before = names;
        proof {
            names = names.push(name);
            assert(bytes_of(names).drop_last() =~= bytes_of(before));
            assert(bytes_of(names).last() == name@);
        }
        match add_named(&mut table, candidate, name.as_slice()) {
            Ok(()) => {},
            Err(e) => {
                proof {
                    assert(answered(get_name, candidates@, names));
                    assert(agrees(Err(e), candidates@, bytes_of(names)));
                }
                return Err(e);
            },
        }
        i = i + 1;
    }
    proof {
        assert(answered(get_name, candidates@, names));
        assert(agrees(Ok(table), candidates@, bytes_of(names)));
    }
    Ok(table)
}

/// What a build of the table of an image may come to: the failure for the
/// section that is missing, or else an outcome that agrees with the table
/// of the candidates of the image under names that the routine gave.
pub open spec fn built_from<F: Fn(u64, u64) -> Vec<u8>>(
    r: Result<SingletonMap, SingletonMapError>,
    image: &Image<'_>,
    pattern: &Pattern,
    get_name: &F,
) -> bool {
    match (
        view_section(image.mapped(), TEXT_SECTION@),
        view_section(image.mapped(), DATA_SECTION@),
    ) {
        (None, _) => r matches Err(SingletonMapError::Section(name)) && name@ == TEXT_SECTION@,
        (Some(_), None) => r matches Err(SingletonMapError::Section(name)) && name@
            == DATA_SECTION@,
        (Some(text), Some(data)) => exists|names: Seq<Vec<u8>>| #[trigger]
            answered(
                get_name,
                candidates_of(image, pattern, range_of(text), range_of(data)),
                names,
            ) && agrees(
                r,
                candidates_of(image, pattern, range_of(text), range_of(data)),
                bytes_of(names),
            ),
    }
}

/// The routine can be called for each candidate of the image, where the
/// image has its code section and its data section: for the address of a
/// routine in the code section that a match captured, with the address of
/// metadata in the data section that the same match captured.
pub open spec fn callable_in<F: Fn(u64, u64) -> Vec<u8>>(
    get_name: &F,
    image: &Image<'_>,
    pattern: &Pattern,
) -> bool {
    match (
        view_section(image.mapped(), TEXT_SECTION@),
        view_section(image.mapped(), DATA_SECTION@),
    ) {
        (Some(text), Some(data)) => callable_on(
            get_name,
            candidates_of(image, pattern, range_of(text), range_of(data)),
        ),
        _ => true,
    }
}

/// Builds the table of the singletons of an image. The code section is
/// scanned for the pattern, the matches are vetted, and each candidate is
/// entered under the name that the routine gives for it. The routine is
/// called for candidates only, one call for each in the order of the scan,
/// and not again after a name that is not valid text.
pub fn build_singleton_table<F: Fn(u64, u64) -> Vec<u8>>(
    image: &Image<'_>,
    pattern: &Pattern,
    get_name: &F,
) -> (r: Result<SingletonMap, SingletonMapError>)
    requires
        image.wf(),
        pattern.wf(),
        callable_in(get_name, image, pattern),
    ensures
        built_from(r, image, pattern, get_name),
        r matches Ok(table) ==> table.wf(),
{
    match find_candidates(image, pattern) {
        Ok(candidates) => table_from_candidates(&candidates, get_name),
        Err(e) => Err(e),
    }
}

/// The reason a singleton could not be looked up.
#[derive(Clone, Copy, Debug, PartialEq, Eq)]
pub enum LookupError {
    /// The table holds no singleton of the name.
    NotFound,
    /// The table could not be built.
    SingletonMapCreation(SingletonMapError),
}

impl LookupError {
    /// The text that describes the error.
    pub open spec fn text(&self) -> Seq<char> {
        match *self {
            LookupError::NotFound => "Singleton was not found."@,
            LookupError::SingletonMapCreation(cause) => "Could not create the singleton map. "@
                + cause.text(),
        }
    }

    /// Describes the error in words.
    pub fn message(&self) -> (text: String)
        ensures
            text@ == self.text(),
    {
        match *self {
            LookupError::NotFound => String::from_str("Singleton was not found."),
            LookupError::SingletonMapCreation(cause) => {
                let mut text = String::from_str("Could not create the singleton map. ");
                let why = cause.message();
                text.append(why.as_str());
                text
            },
        }
    }
}

/// The address of the static slot of the singleton of a name, or
/// `NotFound` where the table holds no such name.
pub fn address_of(table: &SingletonMap, name: &str) -> (r: Result<u64, LookupError>)
    requires
        table.wf(),
    ensures
        r == (if table@.contains_key(name@) {
            Ok::<u64, LookupError>(table@[name@])
        } else {
            Err::<u64, LookupError>(LookupError::NotFound)
        }),
{
    match table.get(name) {
        Some(address) => Ok(address),
        None => Err(LookupError::NotFound),
    }
}

/// The tag of a type of the host: it carries the name under which the host
/// knows the type. The name is a hint; nothing verifies the layout of the
/// memory that a lookup by it leads to.
#[derive(Debug)]
pub struct TypeTag<T> {
    name: &'static str,
    shape: PhantomData<T>,
}

impl<T> TypeTag<T> {
    /// The name that the tag carries.
    pub closed spec fn key(&self) -> Seq<char> {
        self.name@
    }

    /// The tag of the type that the host knows under `name`.
    pub fn new(name: &'static str) -> (tag: TypeTag<T>)
        ensures
            tag.key() == name@,
    {
        TypeTag { name, shape: PhantomData }
    }

    /// The name that the tag carries.
    pub fn name(&self) -> (name: &'static str)
        ensures
            name@ == self.key(),
    {
        self.name
    }
}

/// A handle to the live memory of a singleton: the absolute address of the
/// static slot that holds its instance, to be read as the type of the tag.
/// The handle owns nothing.
#[derive(Debug)]
pub struct TypedHandle<T> {
    address: u64,
    shape: PhantomData<T>,
}

impl<T> TypedHandle<T> {
    /// The address that the handle points at.
    pub closed spec fn target(&self) -> u64 {
        self.address
    }

    /// The address that the handle points at.
    pub fn address(&self) -> (address: u64)
        ensures
            address == self.target(),
    {
        self.address
    }
}

/// What a lookup of a name gives on the outcome of a build, if there is
/// one: the failure of the build, the address under the name, or nothing
/// where no entry of the name exists.
pub open spec fn lookup_of(
    outcome: Option<Result<SingletonMap, SingletonMapError>>,
    name: Seq<char>,
) -> Result<Option<u64>, LookupError> {
    match outcome {
        Some(Err(e)) => Err(LookupError::SingletonMapCreation(e)),
        Some(Ok(table)) => if table@.contains_key(name) {
            Ok(Some(table@[name]))
        } else {
            Ok(None)
        },
        None => Ok(None),
    }
}

/// A lookup of a name of which no entry exists gives nothing, and no
/// error: be it that nothing has been built yet, be it that the table built
/// does not hold the name.
pub proof fn lemma_lookup_without_entry(
    outcome: Option<Result<SingletonMap, SingletonMapError>>,
    name: Seq<char>,
)
    requires
        outcome is None || (outcome matches Some(Ok(table)) && !table@.contains_key(name)),
    ensures
        lookup_of(outcome, name) == Ok::<Option<u64>, LookupError>(None),
{
}

/// The address that a lookup led to, if it led to one.
pub open spec fn address_in<T>(r: Result<Option<TypedHandle<T>>, LookupError>) -> Result<
    Option<u64>,
    LookupError,
> {
    match r {
        Ok(Some(handle)) => Ok(Some(handle.target())),
        Ok(None) => Ok(None),
        Err(e) => Err(e),
    }
}

/// The cell that holds the table for the lifetime of the process. It is
/// settled once, by the outcome of the first build; a failure settles it as
/// a table does, and nothing settles it again.
#[derive(Debug)]
pub struct TableCell {
    outcome: Option<Result<SingletonMap, SingletonMapError>>,
}

impl TableCell {
    /// The outcome that settled the cell, if it is settled.
    pub closed spec fn outcome(&self) -> Option<Result<SingletonMap, SingletonMapError>> {
        self.outcome
    }

    /// A table in the cell is a valid table.
    pub open spec fn wf(&self) -> bool {
        self.outcome() matches Some(Ok(table)) ==> table.wf()
    }

    /// A cell that nothing has settled yet.
    pub fn new() -> (cell: TableCell)
        ensures
            cell.outcome() is None,
            cell.wf(),
    {
        TableCell { outcome: None }
    }

    /// Tells whether the cell is settled.
    pub fn is_settled(&self) -> (settled: bool)
        ensures
            settled == self.outcome() is Some,
    {
        self.outcome.is_some()
    }

    /// Settles the cell by the outcome of a build, unless it is settled
    /// already: the first outcome stays.
    pub fn settle(&mut self, outcome: Result<SingletonMap, SingletonMapError>)
        requires
            old(self).wf(),
            outcome matches Ok(table) ==> table.wf(),
        ensures
            final(self).wf(),
            final(self).outcome() == (if old(self).outcome() is Some {
                old(self).outcome()
            } else {
                Some(outcome)
            }),
    {
        if self.outcome.is_none() {
            self.outcome = Some(outcome);
        }
    }

    /// Builds the table of the image and settles the cell by the outcome,
    /// unless the cell is settled already: then nothing is scanned and the
    /// routine is not asked.
    pub fn build_once<F: Fn(u64, u64) -> Vec<u8>>(
        &mut self,
        image: &Image<'_>,
        pattern: &Pattern,
        get_name: &F,
    )
        requires
            old(self).wf(),
            image.wf(),
            pattern.wf(),
            old(self).outcome() is None ==> callable_in(get_name, image, pattern),
        ensures
            final(self).wf(),
            old(self).outcome() is Some ==> final(self).outcome() == old(self).outcome(),
            old(self).outcome() is None ==> (final(self).outcome() matches Some(r) && built_from(
                r,
                image,
                pattern,
                get_name,
            )),
    {
        if self.outcome.is_none() {
            self.outcome = Some(build_singleton_table(image, pattern, get_name));
        }
    }

    /// Looks the type of a tag up: a handle to the static slot of its
    /// singleton, or nothing where no entry of its name exists. Fails where
    /// the build of the table failed.
    pub fn lookup<T>(&self, tag: &TypeTag<T>) -> (r: Result<Option<TypedHandle<T>>, LookupError>)
        requires
            self.wf(),
        ensures
            address_in(r) == lookup_of(self.outcome(), tag.key()),
    {
        match &self.outcome {
            None => Ok(None),
            Some(Err(e)) => Err(LookupError::SingletonMapCreation(*e)),
            Some(Ok(table)) => match address_of(table, tag.name()) {
                Ok(address) => Ok(Some(TypedHandle { address, shape: PhantomData })),
                Err(_) => Ok(None),
            },
        }
    }
}

/// Looks the type of a tag up in the cell, building the table of the image
/// first where the cell is not settled yet.
pub fn get_instance<T, F: Fn(u64, u64) -> Vec<u8>>(
    cell: &mut TableCell,
    image: &Image<'_>,
    pattern: &Pattern,
    get_name: &F,
    tag: &TypeTag<T>,
) -> (r: Result<Option<TypedHandle<T>>, LookupError>)
    requires
        old(cell).wf(),
        image.wf(),
        pattern.wf(),
        old(cell).outcome() is None ==> callable_in(get_name, image, pattern),
    ensures
        final(cell).wf(),
        old(cell).outcome() is Some ==> final(cell).outcome() == old(cell).outcome(),
        old(cell).outcome() is None ==> (final(cell).outcome() matches Some(built) && built_from(
            built,
            image,
            pattern,
            get_name,
        )),
        address_in(r) == lookup_of(final(cell).outcome(), tag.key()),
{
    cell.build_once(image, pattern, get_name);
    cell.lookup(tag)
}

} // verus!
