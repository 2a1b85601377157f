//! Byte patterns: the token model of a compiled pattern and its compilation
//! from pattern text.

use pelite::pattern::Atom;
use pelite::pattern::ParsePatError;
use vstd::prelude::*;
use vstd::string::StringSliceAdditionalSpecFns;

verus! {

/// One pattern instruction of `pelite`, opaque to the verifier.
#[verifier::external_type_specification]
#[verifier::external_body]
pub struct ExAtom(pelite::pattern::Atom);

/// The error of `pelite::pattern::parse`, opaque to the verifier.
#[verifier::external_type_specification]
#[verifier::external_body]
pub struct ExParsePatError(pelite::pattern::ParsePatError);

/// One token of a pattern: what one instruction of the scanner does. The
/// first seven are the tokens of the grammar of this library; a pattern
/// that holds another is refused.
#[derive(Clone, Copy, Debug, PartialEq, Eq, Structural)]
pub enum Token {
    /// Matches exactly this byte.
    Byte(u8),
    /// Matches this many bytes of any value.
    Wildcard(u8),
    /// Records the cursor in the capture slot of this index.
    Capture(u8),
    /// Opens a capture group: after the group ends, matching resumes this
    /// many bytes behind the cursor at which the group was opened.
    GroupStart(u8),
    /// Follows the signed one-byte displacement under the cursor.
    Follow1,
    /// Follows the signed four-byte displacement under the cursor.
    Follow4,
    /// Closes the innermost capture group.
    GroupEnd,
    /// Reads a sign-extended byte into the slot.
    ReadI8(u8),
    /// Reads a zero-extended byte into the slot.
    ReadU8(u8),
    /// Reads a sign-extended word into the slot.
    ReadI16(u8),
    /// Reads a zero-extended word into the slot.
    ReadU16(u8),
    /// Reads a double word into the slot.
    ReadI32(u8),
    /// Reads a double word into the slot.
    ReadU32(u8),
    /// Fails unless the cursor equals the slot.
    Check(u8),
    /// Writes zero to the slot.
    Zero(u8),
    /// Follows a reference relative to the slot.
    FollowRelative(u8),
    /// Follows the absolute pointer under the cursor.
    FollowPointer,
    /// Follows a table of virtual functions to the name of its type.
    TypeName,
    /// Fails unless the cursor is aligned to this power of two.
    Aligned(u8),
    /// Masks the next byte match.
    Mask(u8),
    /// Rewinds the cursor by this many bytes.
    Rewind(u8),
    /// Extends the range of the next token.
    Extend(u8),
    /// Looks for the rest of the pattern within this many bytes.
    Within(u8),
    /// Opens an alternative.
    Case(u8),
    /// Ends an alternative.
    Break(u8),
    /// Does nothing.
    Nop,
}

/// The reason a pattern text was not compiled.
#[derive(Clone, Copy, Debug, PartialEq, Eq, Structural)]
pub enum PatternError {
    /// The text is malformed, or it describes no valid pattern.
    Syntax,
}

/// The token that stands for an instruction of `pelite`.
pub uninterp spec fn token_of(atom: Atom) -> Token;

/// What `pelite::pattern::parse` makes of a pattern text: the instructions,
/// or `None` where it reports a syntax error.
pub uninterp spec fn parsed_atoms(text: Seq<char>) -> Option<Seq<Atom>>;

/// The byte that opens and closes a quoted text in a pattern text.
pub const QUOTE: u8 = 0x22;

/// The byte that opens a capture group in a pattern text.
pub const GROUP_OPENER: u8 = 0x7B;

/// The byte that closes a capture group in a pattern text.
pub const GROUP_CLOSER: u8 = 0x7D;

/// The deepest nesting of capture groups in a pattern text that is
/// compiled: the parser counts the open groups in a byte.
pub const MAX_NESTING: usize = 255;

/// The end of the bytes lies inside a quoted text.
pub open spec fn quoted(bytes: Seq<u8>) -> bool
    decreases bytes.len(),
{
    if bytes.len() == 0 {
        false
    } else if bytes.last() == QUOTE {
        !quoted(bytes.drop_last())
    } else {
        quoted(bytes.drop_last())
    }
}

/// The byte is one of those that write alternatives: `(`, `|` and `)`.
pub open spec fn is_alternation(byte: u8) -> bool {
    byte == 0x28 || byte == 0x7C || byte == 0x29
}

/// The number of capture groups that are open at the end of the bytes.
/// Bytes inside a quoted text open and close nothing, and a byte that would
/// close a group where none is open closes nothing.
pub open spec fn open_groups(bytes: Seq<u8>) -> nat
    decreases bytes.len(),
{
    if bytes.len() == 0 {
        0
    } else {
        let before = open_groups(bytes.drop_last());
        if quoted(bytes.drop_last()) {
            before
        } else if bytes.last() == GROUP_OPENER {
            before + 1
        } else if bytes.last() == GROUP_CLOSER && before > 0 {
            (before - 1) as nat
        } else {
            before
        }
    }
}

/// The largest number of capture groups that are open at one time.
pub open spec fn deepest_nesting(bytes: Seq<u8>) -> nat
    decreases bytes.len(),
{
    if bytes.len() == 0 {
        0
    } else {
        let before = deepest_nesting(bytes.drop_last());
        if open_groups(bytes) > before {
            open_groups(bytes)
        } else {
            before
        }
    }
}

/// Some byte outside every quoted text writes alternatives.
pub open spec fn alternates(bytes: Seq<u8>) -> bool
    decreases bytes.len(),
{
    if bytes.len() == 0 {
        false
    } else {
        alternates(bytes.drop_last()) || (!quoted(bytes.drop_last()) && is_alternation(
            bytes.last(),
        ))
    }
}

/// The text can be handed to the parser: it nests its capture groups no
/// deeper than the parser can count, and it writes no alternatives, which
/// lie outside the grammar of this library and reset the count.
pub open spec fn parseable(bytes: Seq<u8>) -> bool {
    deepest_nesting(bytes) <= MAX_NESTING && !alternates(bytes)
}

/// Calls `pelite::pattern::parse`. The outcome is a function of the text
/// alone; nothing more is claimed of it. The parser counts the open groups
/// in a byte: it adds one for each `{` outside a quoted text, takes one off
/// for each `}`, and sets the count back at `|` and `)`. So the text must
/// nest no deeper than 255 groups and write no alternatives.
#[verifier::external_body]
fn parse_atoms(text: &str) -> (r: Result<Vec<Atom>, ParsePatError>)
    requires
        parseable(text.spec_bytes()),
    ensures
        match r {
            Ok(atoms) => parsed_atoms(text@) == Some(atoms@),
            Err(_) => parsed_atoms(text@) is None,
        },
{
    pelite::pattern::parse(text)
}

/// The token is one of the grammar of this library.
pub open spec fn in_grammar(token: Token) -> bool {
    token is Byte || token is Wildcard || token is Capture || token is GroupStart
        || token is Follow1 || token is Follow4 || token is GroupEnd
}

/// The token reads a value into a slot.
pub open spec fn is_read(token: Token) -> bool {
    token is ReadI8 || token is ReadU8 || token is ReadI16 || token is ReadU16
        || token is ReadI32 || token is ReadU32
}

/// The token tests the cursor or a slot, or follows a reference that is no
/// displacement under the cursor.
pub open spec fn is_probe(token: Token) -> bool {
    token is Check || token is Zero || token is FollowRelative || token is FollowPointer
        || token is TypeName || token is Aligned || token is Mask
}

/// The token moves the cursor over a range, or steers between
/// alternatives.
pub open spec fn is_ranging(token: Token) -> bool {
    token is Rewind || token is Extend || token is Within || token is Case || token is Break
        || token is Nop
}

/// Tells the instructions of the grammar apart, handing each operand over
/// unchanged; `None` for every other instruction.
#[verifier::external_body]
fn grammar_token(atom: &Atom) -> (t: Option<Token>)
    ensures
        t == (if in_grammar(token_of(*atom)) {
            Some(token_of(*atom))
        } else {
            None
        }),
{
    match *atom {
        Atom::Byte(b) => Some(Token::Byte(b)),
        Atom::Skip(n) => Some(Token::Wildcard(n)),
        Atom::Save(s) => Some(Token::Capture(s)),
        Atom::Push(n) => Some(Token::GroupStart(n)),
        Atom::Jump1 => Some(Token::Follow1),
        Atom::Jump4 => Some(Token::Follow4),
        Atom::Pop => Some(Token::GroupEnd),
        _ => None,
    }
}

/// Tells the instructions that read a value apart, handing each slot over
/// unchanged; `None` for every other instruction.
#[verifier::external_body]
fn read_token(atom: &Atom) -> (t: Option<Token>)
    ensures
        t == (if is_read(token_of(*atom)) {
            Some(token_of(*atom))
        } else {
            None
        }),
{
    match *atom {
        Atom::ReadI8(s) => Some(Token::ReadI8(s)),
        Atom::ReadU8(s) => Some(Token::ReadU8(s)),
        Atom::ReadI16(s) => Some(Token::ReadI16(s)),
        Atom::ReadU16(s) => Some(Token::ReadU16(s)),
        Atom::ReadI32(s) => Some(Token::ReadI32(s)),
        Atom::ReadU32(s) => Some(Token::ReadU32(s)),
        _ => None,
    }
}

/// Tells the instructions that test or follow apart, handing each operand
/// over unchanged; `None` for every other instruction.
#[verifier::external_body]
fn probe_token(atom: &Atom) -> (t: Option<Token>)
    ensures
        t == (if is_probe(token_of(*atom)) {
            Some(token_of(*atom))
        } else {
            None
        }),
{
    match *atom {
        Atom::Check(s) => Some(Token::Check(s)),
        Atom::Zero(s) => Some(Token::Zero(s)),
        Atom::Pir(s) => Some(Token::FollowRelative(s)),
        Atom::Ptr => Some(Token::FollowPointer),
        Atom::VTypeName => Some(Token::TypeName),
        Atom::Aligned(n) => Some(Token::Aligned(n)),
        Atom::Fuzzy(m) => Some(Token::Mask(m)),
        _ => None,
    }
}

/// Tells the instructions that range or steer apart, handing each operand
/// over unchanged; `None` for every other instruction.
#[verifier::external_body]
fn ranging_token(atom: &Atom) -> (t: Option<Token>)
    ensures
        t == (if is_ranging(token_of(*atom)) {
            Some(token_of(*atom))
        } else {
            None
        }),
{
    match *atom {
        Atom::Back(n) => Some(Token::Rewind(n)),
        Atom::Rangext(n) => Some(Token::Extend(n)),
        Atom::Many(n) => Some(Token::Within(n)),
        Atom::Case(n) => Some(Token::Case(n)),
        Atom::Break(n) => Some(Token::Break(n)),
        Atom::Nop => Some(Token::Nop),
        _ => None,
    }
}

/// The token that stands for an instruction.
fn classify(atom: &Atom) -> (t: Token)
    ensures
        t == token_of(*atom),
{
    if let Some(t) = grammar_token(atom) {
        return t;
    }
    if let Some(t) = read_token(atom) {
        return t;
    }
    if let Some(t) = probe_token(atom) {
        return t;
    }
    match ranging_token(atom) {
        Some(t) => t,
        None => {
            proof {
                let token = token_of(*atom);
                assert(in_grammar(token) || is_read(token) || is_probe(token) || is_ranging(
                    token,
                ));
            }
            Token::Nop
        },
    }
}

/// The tokens that stand for a sequence of instructions, one for one.
pub open spec fn tokens_of(atoms: Seq<Atom>) -> Seq<Token> {
    Seq::new(atoms.len(), |i: int| token_of(atoms[i]))
}

/// The number of capture tokens among `tokens`.
pub open spec fn capture_count(tokens: Seq<Token>) -> nat
    decreases tokens.len(),
{
    if tokens.len() == 0 {
        0
    } else {
        capture_count(tokens.drop_last()) + if tokens.last() is Capture {
            1nat
        } else {
            0nat
        }
    }
}

/// Every capture token carries the number of capture tokens before it: the
/// capture slots are 0, 1, 2, ... in the order of declaration.
pub open spec fn captures_in_order(tokens: Seq<Token>) -> bool {
    forall|i: int|
        0 <= i < tokens.len() ==> (#[trigger] tokens[i] matches Token::Capture(slot)
            ==> slot as nat == capture_count(tokens.take(i)))
}

/// Some token matches an exact byte.
pub open spec fn has_byte(tokens: Seq<Token>) -> bool {
    exists|i: int| 0 <= i < tokens.len() && #[trigger] tokens[i] is Byte
}

/// Every token is one of the grammar.
pub open spec fn all_supported(tokens: Seq<Token>) -> bool {
    forall|i: int| 0 <= i < tokens.len() ==> in_grammar(#[trigger] tokens[i])
}

/// The token at `i` has the shape that the grammar gives it: a wildcard
/// matches at least one byte, and the start of a capture group stands
/// before the displacement that the group follows, and resumes behind as
/// many bytes as the displacement has.
pub open spec fn shaped_at(tokens: Seq<Token>, i: int) -> bool {
    match tokens[i] {
        Token::Wildcard(count) => count >= 1,
        Token::GroupStart(width) => i + 1 < tokens.len() && ((width == 1 && tokens[i + 1]
            == Token::Follow1) || (width == 4 && tokens[i + 1] == Token::Follow4)),
        _ => true,
    }
}

/// Every token has the shape that the grammar gives it.
pub open spec fn shaped(tokens: Seq<Token>) -> bool {
    forall|i: int| 0 <= i < tokens.len() ==> #[trigger] shaped_at(tokens, i)
}

/// The invariant of a pattern: it starts by recording the address of the
/// match in slot 0, holds only tokens of the grammar, each in its shape,
/// matches at least one exact byte, and numbers its captures in the order
/// of declaration.
pub open spec fn well_formed(tokens: Seq<Token>) -> bool {
    &&& tokens.len() > 0
    &&& tokens[0] == Token::Capture(0)
    &&& all_supported(tokens)
    &&& shaped(tokens)
    &&& has_byte(tokens)
    &&& captures_in_order(tokens)
}

proof fn lemma_capture_count_step(tokens: Seq<Token>, i: int)
    requires
        0 <= i < tokens.len(),
    ensures
        capture_count(tokens.take(i + 1)) == capture_count(tokens.take(i)) + if tokens[i]
            is Capture {
            1nat
        } else {
            0nat
        },
{
    assert(tokens.take(i + 1).drop_last() =~= tokens.take(i));
}

/// Capture slots are bytes, so a pattern that numbers its captures in order
/// has at most 256 of them.
pub proof fn lemma_capture_count_bounded(tokens: Seq<Token>)
    requires
        captures_in_order(tokens),
    ensures
        capture_count(tokens) <= 256,
    decreases tokens.len(),
{
    if tokens.len() > 0 {
        let rest = tokens.drop_last();
        assert forall|i: int| 0 <= i < rest.len() implies (#[trigger] rest[i] matches Token::Capture(
            slot,
        ) ==> slot as nat == capture_count(rest.take(i))) by {
            assert(rest[i] == tokens[i]);
            assert(rest.take(i) =~= tokens.take(i));
        }
        lemma_capture_count_bounded(rest);
        if tokens.last() is Capture {
            let i = tokens.len() - 1;
            assert(tokens[i] == tokens.last());
            assert(tokens.take(i) =~= rest);
        }
    }
}

/// Decides whether `tokens` form a valid pattern.
pub fn check_tokens(tokens: &Vec<Token>) -> (ok: bool)
    ensures
        ok == well_formed(tokens@),
{
    if tokens.len() == 0 {
        return false;
    }
    match tokens[0] {
        Token::Capture(slot) => {
            if slot != 0 {
                return false;
            }
        },
        _ => {
            return false;
        },
    }
    let mut seen: usize = 0;
    let mut bytes: bool = false;
    let mut i: usize = 0;
    while i < tokens.len()
        invariant
            0 <= i <= tokens.len(),
            seen as nat == capture_count(tokens@.take(i as int)),
            seen <= i,
            bytes == (exists|j: int| 0 <= j < i && #[trigger] tokens@[j] is Byte),
            forall|j: int| 0 <= j < i ==> in_grammar(#[trigger] tokens@[j]),
            forall|j: int| 0 <= j < i ==> #[trigger] shaped_at(tokens@, j),
            forall|j: int|
                0 <= j < i ==> (#[trigger] tokens@[j] matches Token::Capture(slot) ==> slot as nat
                    == capture_count(tokens@.take(j))),
        decreases tokens.len() - i,
    {
        proof {
            lemma_capture_count_step(tokens@, i as int);
        }
        match tokens[i] {
            Token::Capture(slot) => {
                if slot as usize != seen {
                    return false;
                }
                seen = seen + 1;
            },
            Token::Byte(_) => {
                bytes = true;
            },
            Token::Wildcard(count) => {
                if count == 0 {
                    proof {
                        assert(!shaped_at(tokens@, i as int));
                    }
                    return false;
                }
            },
            Token::GroupStart(width) => {
                let fits = i + 1 < tokens.len() && match tokens[i + 1] {
                    Token::Follow1 => width == 1,
                    Token::Follow4 => width == 4,
                    _ => false,
                };
                if !fits {
                    proof {
                        assert(!shaped_at(tokens@, i as int));
                    }
                    return false;
                }
            },
            Token::Follow1 | Token::Follow4 | Token::GroupEnd => {},
            _ => {
                proof {
                    assert(!in_grammar(tokens@[i as int]));
                }
                return false;
            },
        }
        proof {
            assert(shaped_at(tokens@, i as int));
        }
        i = i + 1;
    }
    bytes
}

/// A compiled pattern: the instructions that the scanner runs, and the
/// tokens that stand for them.
#[derive(Clone, Debug)]
pub struct Pattern {
    atoms: Vec<Atom>,
    tokens: Vec<Token>,
}

impl View for Pattern {
    type V = Seq<Token>;

    closed spec fn view(&self) -> Seq<Token> {
        self.tokens@
    }
}

impl Pattern {
    /// The instructions behind the tokens.
    pub closed spec fn atoms(&self) -> Seq<Atom> {
        self.atoms@
    }

    /// The tokens stand for the instructions and form a valid pattern.
    pub open spec fn wf(&self) -> bool {
        &&& self@ == tokens_of(self.atoms())
        &&& well_formed(self@)
    }

    /// The tokens of the pattern, in order.
    pub fn tokens(&self) -> (t: &Vec<Token>)
        ensures
            t@ == self@,
    {
        &self.tokens
    }

    /// The number of capture slots, slot 0 for the address of the match
    /// included.
    pub fn capture_count(&self) -> (n: usize)
        requires
            self.wf(),
        ensures
            n as nat == capture_count(self@),
            1 <= n <= 256,
    {
        proof {
            lemma_capture_count_bounded(self@);
            lemma_capture_count_step(self@, 0);
            lemma_capture_count_monotone(self@, 1);
        }
        let mut n: usize = 0;
        let mut i: usize = 0;
        while i < self.tokens.len()
            invariant
                0 <= i <= self.tokens.len(),
                n <= i,
                n as nat == capture_count(self.tokens@.take(i as int)),
            decreases self.tokens.len() - i,
        {
            proof {
                lemma_capture_count_step(self.tokens@, i as int);
            }
            match self.tokens[i] {
                Token::Capture(_) => {
                    n = n + 1;
                },
                _ => {},
            }
            i = i + 1;
        }
        proof {
            assert(self.tokens@.take(self.tokens.len() as int) =~= self.tokens@);
        }
        n
    }

    pub(crate) fn raw(&self) -> (a: &Vec<Atom>)
        ensures
            a@ == self.atoms(),
    {
        &self.atoms
    }
}

proof fn lemma_capture_count_monotone(tokens: Seq<Token>, i: int)
    requires
        0 <= i <= tokens.len(),
    ensures
        capture_count(tokens.take(i)) <= capture_count(tokens),
    decreases tokens.len() - i,
{
    if i < tokens.len() {
        lemma_capture_count_step(tokens, i);
        lemma_capture_count_monotone(tokens, i + 1);
    } else {
        assert(tokens.take(i) =~= tokens);
    }
}

/// The instructions that a pattern text compiles to: what `pelite` parses
/// it to, where the text can be handed to the parser and the instructions
/// form a valid pattern; `None` in every other case.
pub open spec fn compiled(text: &str) -> Option<Seq<Atom>> {
    if parseable(text.spec_bytes()) {
        match parsed_atoms(text@) {
            Some(atoms) => if well_formed(tokens_of(atoms)) {
                Some(atoms)
            } else {
                None
            },
            None => None,
        }
    } else {
        None
    }
}

fn can_be_parsed(text: &str) -> (ok: bool)
    ensures
        ok == parseable(text.spec_bytes()),
{
    let bytes = text.as_bytes();
    let mut inside: bool = false;
    let mut open: usize = 0;
    let mut deepest: usize = 0;
    let mut alternatives: bool = false;
    let mut i: usize = 0;
    while i < bytes.len()
        invariant
            0 <= i <= bytes@.len(),
            inside == quoted(bytes@.take(i as int)),
            open == open_groups(bytes@.take(i as int)),
            deepest == deepest_nesting(bytes@.take(i as int)),
            alternatives == alternates(bytes@.take(i as int)),
            open <= i,
            deepest <= i,
        decreases bytes@.len() - i,
    {
        proof {
            assert(bytes@.take(i as int + 1).drop_last() =~= bytes@.take(i as int));
            assert(bytes@.take(i as int + 1).last() == bytes@[i as int]);
        }
        let byte = bytes[i];
        if !inside {
            if byte == GROUP_OPENER {
                open = open + 1;
            } else if byte == GROUP_CLOSER && open > 0 {
                open = open - 1;
            }
            if byte == 0x28 || byte == 0x7C || byte == 0x29 {
                alternatives = true;
            }
        }
        if byte == QUOTE {
            inside = !inside;
        }
        if open > deepest {
            deepest = open;
        }
        i = i + 1;
    }
    proof {
        assert(bytes@.take(bytes@.len() as int) =~= bytes@);
    }
    deepest <= MAX_NESTING && !alternatives
}

/// Compiles a pattern text. The text is parsed by `pelite`; the pattern is
/// accepted where the parsed instructions form a valid pattern, and refused
/// as a syntax error in every other case. A text that nests its capture
/// groups deeper than 255, or that writes alternatives, is refused without
/// being parsed.
pub fn compile(text: &str) -> (r: Result<Pattern, PatternError>)
    ensures
        match compiled(text) {
            Some(atoms) => r matches Ok(p) && p.wf() && p.atoms() == atoms,
            None => r matches Err(e) && e == PatternError::Syntax,
        },
{
    if !can_be_parsed(text) {
        return Err(PatternError::Syntax);
    }
    match parse_atoms(text) {
        Err(_) => Err(PatternError::Syntax),
        Ok(atoms) => {
            let mut tokens: Vec<Token> = Vec::new();
            let mut i: usize = 0;
            while i < atoms.len()
                invariant
                    0 <= i <= atoms.len(),
                    tokens@ == tokens_of(atoms@.take(i as int)),
                decreases atoms.len() - i,
            {
                let t = classify(&atoms[i]);
                tokens.push(t);
                proof {
                    assert(tokens@ =~= tokens_of(atoms@.take(i as int + 1)));
                }
                i = i + 1;
            }
            proof {
                assert(atoms@.take(atoms.len() as int) =~= atoms@);
            }
            if check_tokens(&tokens) {
                Ok(Pattern { atoms, tokens })
            } else {
                Err(PatternError::Syntax)
            }
        },
    }
}

} // verus!
