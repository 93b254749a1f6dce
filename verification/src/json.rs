//! A tokenizer for JSON held in memory.
//!
//! The parser walks a byte slice and hands out one token at a time. It keeps
//! count of the arrays and objects that are open, so that a reader who gave
//! up in the middle of a value can find the end of that value again. Strings
//! are handed out as the span of bytes between their quotes; whoever wants
//! the text, or the packed form of a key, decodes the span.

use crate::error::{
    invalid_arguments, malformed, not_request, result_view, Error, ErrorView,
};
use crate::request::method::MethodObject;
use vstd::prelude::*;
use vstd::slice::slice_subrange;

verus! {

broadcast use vstd::slice::group_slice_axioms;

/// How many arrays and objects may be open at once.
pub const MAX_DEPTH: u32 = 16;

/// A range of bytes of the input: from `start` up to, not including, `end`.
#[derive(Clone, Copy, Debug, PartialEq, Eq, Structural)]
pub struct Span {
    pub start: usize,
    pub end: usize,
}

/// One token of JSON.
#[derive(Clone, Copy, Debug)]
pub enum Token {
    DictStart,
    DictEnd,
    ArrayStart,
    ArrayEnd,
    Comma,
    Colon,
    /// A string; the span holds the bytes between the quotes, escapes still
    /// as written.
    String(Span),
    /// A number: its value where it is written as an integer that an `i64`
    /// can hold, and nothing otherwise.
    Number(Option<i64>),
    Bool(bool),
    Null,
}

impl View for Span {
    type V = Span;

    open spec fn view(&self) -> Span {
        *self
    }
}

impl View for Token {
    type V = Token;

    open spec fn view(&self) -> Token {
        *self
    }
}

/// Where a parser stands: the next byte to read, and how many arrays and
/// objects are open.
pub struct Cursor {
    pub pos: int,
    pub depth_array: int,
    pub depth_dict: int,
}

/// What reading something of type `V` at a cursor gives: the value or an
/// error, and where the parser stands afterwards.
pub type Parsed<V> = (Result<V, ErrorView>, Cursor);

pub open spec fn is_space(b: u8) -> bool {
    b == 32 || b == 9 || b == 10 || b == 13
}

pub open spec fn is_digit(b: u8) -> bool {
    48 <= b <= 57
}

/// A byte that can stand in a number: a digit, a sign, a point or an `e`.
pub open spec fn is_number_byte(b: u8) -> bool {
    is_digit(b) || b == 43 || b == 45 || b == 46 || b == 69 || b == 101
}

/// The first position at or after `pos` that holds no white space.
pub open spec fn skip_space(bytes: Seq<u8>, pos: int) -> int
    decreases bytes.len() - pos,
{
    if 0 <= pos < bytes.len() && is_space(bytes[pos]) {
        skip_space(bytes, pos + 1)
    } else {
        pos
    }
}

/// The position of the quote that closes a string whose content starts at
/// `pos`. A backslash takes the next byte with it. There is no such quote if
/// the input ends first or a control byte stands in the string.
pub open spec fn string_end(bytes: Seq<u8>, pos: int) -> Option<int>
    decreases bytes.len() - pos,
{
    if pos < 0 || pos >= bytes.len() {
        None
    } else if bytes[pos] == 34 {
        Some(pos)
    } else if bytes[pos] < 32 {
        None
    } else if bytes[pos] == 92 {
        if pos + 1 < bytes.len() && bytes[pos + 1] >= 32 {
            string_end(bytes, pos + 2)
        } else {
            None
        }
    } else {
        string_end(bytes, pos + 1)
    }
}

/// The first position at or after `pos` that holds no byte of a number.
pub open spec fn number_end(bytes: Seq<u8>, pos: int) -> int
    decreases bytes.len() - pos,
{
    if 0 <= pos < bytes.len() && is_number_byte(bytes[pos]) {
        number_end(bytes, pos + 1)
    } else {
        pos
    }
}

/// The number that the decimal digits `s` spell.
pub open spec fn decimal(s: Seq<u8>) -> nat
    decreases s.len(),
{
    if s.len() == 0 {
        0
    } else {
        10 * decimal(s.drop_last()) + (s.last() - 48) as nat
    }
}

pub open spec fn all_digits(s: Seq<u8>) -> bool {
    forall|i: int| 0 <= i < s.len() ==> is_digit(#[trigger] s[i])
}

/// The value of a number's text, where the text is an optional minus sign
/// and one or more digits and the value fits an `i64`.
pub open spec fn integer_of(text: Seq<u8>) -> Option<i64> {
    let negative = text.len() > 0 && text[0] == 45;
    let digits = if negative {
        text.skip(1)
    } else {
        text
    };
    if digits.len() > 0 && all_digits(digits) {
        let v = decimal(digits);
        if negative && v <= 0x8000_0000_0000_0000 {
            Some((-(v as int)) as i64)
        } else if !negative && v <= 0x7fff_ffff_ffff_ffff {
            Some(v as i64)
        } else {
            None
        }
    } else {
        None
    }
}

/// Whether the four bytes at `pos` are `a b c d`.
pub open spec fn four_at(bytes: Seq<u8>, pos: int, a: u8, b: u8, c: u8, d: u8) -> bool {
    pos + 4 <= bytes.len() && bytes[pos] == a && bytes[pos + 1] == b && bytes[pos + 2] == c
        && bytes[pos + 3] == d
}

/// The token that starts at the first byte after the white space at the
/// cursor, and the cursor behind it. An opening bracket is refused when
/// `MAX_DEPTH` containers are open, a closing one when none of its kind is.
/// Every failure is `Malformed` and leaves the cursor where it was.
pub open spec fn next_token_spec(bytes: Seq<u8>, c: Cursor) -> Parsed<Token> {
    let p = skip_space(bytes, c.pos);
    let bad = (Err(malformed()), c);
    if p < 0 || p >= bytes.len() {
        bad
    } else {
        let b = bytes[p];
        let after = Cursor { pos: p + 1, ..c };
        if b == 34 {
            match string_end(bytes, p + 1) {
                Some(e) => (
                    Ok(Token::String(Span { start: (p + 1) as usize, end: e as usize })),
                    Cursor { pos: e + 1, ..c },
                ),
                None => bad,
            }
        } else if b == 44 {
            (Ok(Token::Comma), after)
        } else if b == 58 {
            (Ok(Token::Colon), after)
        } else if b == 91 {
            if c.depth_array + c.depth_dict < MAX_DEPTH {
                (Ok(Token::ArrayStart), Cursor { depth_array: c.depth_array + 1, ..after })
            } else {
                bad
            }
        } else if b == 93 {
            if c.depth_array > 0 {
                (Ok(Token::ArrayEnd), Cursor { depth_array: c.depth_array - 1, ..after })
            } else {
                bad
            }
        } else if b == 123 {
            if c.depth_array + c.depth_dict < MAX_DEPTH {
                (Ok(Token::DictStart), Cursor { depth_dict: c.depth_dict + 1, ..after })
            } else {
                bad
            }
        } else if b == 125 {
            if c.depth_dict > 0 {
                (Ok(Token::DictEnd), Cursor { depth_dict: c.depth_dict - 1, ..after })
            } else {
                bad
            }
        } else if is_digit(b) || b == 45 {
            let e = number_end(bytes, p);
            (Ok(Token::Number(integer_of(bytes.subrange(p, e)))), Cursor { pos: e, ..c })
        } else if four_at(bytes, p, 116, 114, 117, 101) {
            (Ok(Token::Bool(true)), Cursor { pos: p + 4, ..c })
        } else if four_at(bytes, p, 102, 97, 108, 115) && p + 4 < bytes.len() && bytes[p + 4]
            == 101 {
            (Ok(Token::Bool(false)), Cursor { pos: p + 5, ..c })
        } else if four_at(bytes, p, 110, 117, 108, 108) {
            (Ok(Token::Null), Cursor { pos: p + 4, ..c })
        } else {
            bad
        }
    }
}

/// A cursor that stands inside `bytes` with no more than `MAX_DEPTH`
/// containers open.
pub open spec fn cursor_ok(bytes: Seq<u8>, c: Cursor) -> bool {
    &&& bytes.len() <= usize::MAX
    &&& 0 <= c.pos <= bytes.len()
    &&& 0 <= c.depth_array
    &&& 0 <= c.depth_dict
    &&& c.depth_array + c.depth_dict <= MAX_DEPTH
}

pub proof fn lemma_skip_space(bytes: Seq<u8>, pos: int)
    requires
        0 <= pos <= bytes.len(),
    ensures
        pos <= skip_space(bytes, pos) <= bytes.len(),
    decreases bytes.len() - pos,
{
    if pos < bytes.len() && is_space(bytes[pos]) {
        lemma_skip_space(bytes, pos + 1);
    }
}

pub proof fn lemma_number_end(bytes: Seq<u8>, pos: int)
    requires
        0 <= pos <= bytes.len(),
    ensures
        pos <= number_end(bytes, pos) <= bytes.len(),
        pos < bytes.len() && is_number_byte(bytes[pos]) ==> pos < number_end(bytes, pos),
    decreases bytes.len() - pos,
{
    if pos < bytes.len() && is_number_byte(bytes[pos]) {
        lemma_number_end(bytes, pos + 1);
    }
}

/// The closing quote of a string stands inside the input, and no byte before
/// it is a control byte.
pub proof fn lemma_string_end(bytes: Seq<u8>, pos: int)
    requires
        0 <= pos,
        string_end(bytes, pos) is Some,
    ensures
        pos <= string_end(bytes, pos)->0 < bytes.len(),
        forall|i: int| pos <= i < string_end(bytes, pos)->0 ==> bytes[i] >= 32,
    decreases bytes.len() - pos,
{
    if bytes[pos] == 34 {
    } else if bytes[pos] == 92 {
        lemma_string_end(bytes, pos + 2);
    } else {
        lemma_string_end(bytes, pos + 1);
    }
}

/// A token that was read leaves the cursor inside the input and further on
/// than it was; a failure leaves it in place.
pub proof fn lemma_next_token(bytes: Seq<u8>, c: Cursor)
    requires
        cursor_ok(bytes, c),
    ensures
        cursor_ok(bytes, next_token_spec(bytes, c).1),
        next_token_spec(bytes, c).0 is Ok ==> next_token_spec(bytes, c).1.pos > c.pos,
        next_token_spec(bytes, c).0 is Err ==> next_token_spec(bytes, c).1 == c
            && next_token_spec(bytes, c).0 == Err::<Token, ErrorView>(malformed()),
{
    lemma_skip_space(bytes, c.pos);
    let p = skip_space(bytes, c.pos);
    if p < bytes.len() {
        if bytes[p] == 34 {
            if string_end(bytes, p + 1) is Some {
                lemma_string_end(bytes, p + 1);
            }
        }
        lemma_number_end(bytes, p);
    }
}

/// The bytes of the input that `span` covers.
pub open spec fn span_bytes(bytes: Seq<u8>, span: Span) -> Seq<u8> {
    bytes.subrange(span.start as int, span.end as int)
}

/// Reading one token and holding it against `want`. Another token is
/// `NotRequest` where `envelope` is set and `InvalidArguments` where it is
/// not.
pub open spec fn expect_spec(bytes: Seq<u8>, c: Cursor, want: Token, envelope: bool) -> Parsed<()> {
    let (token, c1) = next_token_spec(bytes, c);
    match token {
        Err(e) => (Err(e), c1),
        Ok(t) => if t == want {
            (Ok(()), c1)
        } else if envelope {
            (Err(not_request()), c1)
        } else {
            (Err(invalid_arguments()), c1)
        },
    }
}

/// Reading a key of an object: a string and the colon behind it.
pub open spec fn next_dict_key_spec(bytes: Seq<u8>, c: Cursor) -> Parsed<Span> {
    let (token, c1) = next_token_spec(bytes, c);
    match token {
        Err(e) => (Err(e), c1),
        Ok(Token::String(span)) => {
            let (colon, c2) = expect_spec(bytes, c1, Token::Colon, false);
            match colon {
                Err(e) => (Err(e), c2),
                Ok(_) => (Ok(span), c2),
            }
        },
        Ok(_) => (Err(invalid_arguments()), c1),
    }
}

/// Reading what follows a member of a container: a comma, and the container
/// goes on, or `close`, and it has ended. Anything else is `Malformed`.
pub open spec fn container_end_spec(bytes: Seq<u8>, c: Cursor, close: Token) -> Parsed<bool> {
    let (token, c1) = next_token_spec(bytes, c);
    match token {
        Err(e) => (Err(e), c1),
        Ok(t) => if t == close {
            (Ok(true), c1)
        } else if t == Token::Comma {
            (Ok(false), c1)
        } else {
            (Err(malformed()), c1)
        },
    }
}

/// Reading tokens until as many arrays and objects are open as the two
/// floors say: one token at least, and then as many as it takes.
pub open spec fn skip_token_spec(bytes: Seq<u8>, c: Cursor, floor_array: int, floor_dict: int) -> Parsed<()>
    decreases bytes.len() - c.pos,
{
    if cursor_ok(bytes, c) {
        let (token, c1) = next_token_spec(bytes, c);
        match token {
            Err(e) => (Err(e), c1),
            Ok(_) => {
                if c1.depth_array != floor_array || c1.depth_dict != floor_dict {
                    proof {
                        lemma_next_token(bytes, c);
                    }
                    skip_token_spec(bytes, c1, floor_array, floor_dict)
                } else {
                    (Ok(()), c1)
                }
            },
        }
    } else {
        (Err(malformed()), c)
    }
}

/// Reading the members of a container that has been opened, one after the
/// other, until `close` ends it. `step` reads one member at a cursor and
/// folds it into what was gathered so far; the first error ends the reading.
/// A container has one member at least.
pub open spec fn members<A>(
    bytes: Seq<u8>,
    c: Cursor,
    acc: A,
    step: spec_fn(Cursor, A) -> Parsed<A>,
    close: Token,
) -> Parsed<A>
    decreases bytes.len() - c.pos,
{
    let (member, c1) = step(c, acc);
    match member {
        Err(e) => (Err(e), c1),
        Ok(acc1) => {
            let (end, c2) = container_end_spec(bytes, c1, close);
            match end {
                Err(e) => (Err(e), c2),
                Ok(true) => (Ok(acc1), c2),
                Ok(false) => if c.pos < c2.pos <= bytes.len() {
                    members(bytes, c2, acc1, step, close)
                } else {
                    (Err(malformed()), c2)
                },
            }
        },
    }
}

/// The span of a token that must be a string.
pub open spec fn string_of(token: Token) -> Result<Span, ErrorView> {
    match token {
        Token::String(span) => Ok(span),
        _ => Err(invalid_arguments()),
    }
}

/// The value of a token that must be `true`, `false` or `null`.
pub open spec fn bool_or_null_of(token: Token) -> Result<Option<bool>, ErrorView> {
    match token {
        Token::Bool(b) => Ok(Some(b)),
        Token::Null => Ok(None),
        _ => Err(invalid_arguments()),
    }
}

/// The value of a token that must be `null` or an integer that is not
/// negative and fits a `usize`.
pub open spec fn usize_or_null_of(token: Token) -> Result<Option<usize>, ErrorView> {
    match token {
        Token::Number(Some(v)) => if 0 <= v <= usize::MAX {
            Ok(Some(v as usize))
        } else {
            Err(invalid_arguments())
        },
        Token::Null => Ok(None),
        _ => Err(invalid_arguments()),
    }
}

/// Reading a value that must be `true`, `false` or `null`.
pub open spec fn bool_or_null_spec(bytes: Seq<u8>, c: Cursor) -> Parsed<Option<bool>> {
    let (token, c1) = next_token_spec(bytes, c);
    match token {
        Err(e) => (Err(e), c1),
        Ok(t) => (bool_or_null_of(t), c1),
    }
}

/// Reading a value that must be `null` or a size.
pub open spec fn usize_or_null_spec(bytes: Seq<u8>, c: Cursor) -> Parsed<Option<usize>> {
    let (token, c1) = next_token_spec(bytes, c);
    match token {
        Err(e) => (Err(e), c1),
        Ok(t) => (usize_or_null_of(t), c1),
    }
}

/// Skipping tokens leaves the cursor inside the input, and further on where
/// it succeeds.
pub proof fn lemma_skip_token(bytes: Seq<u8>, c: Cursor, floor_array: int, floor_dict: int)
    requires
        cursor_ok(bytes, c),
    ensures
        cursor_ok(bytes, skip_token_spec(bytes, c, floor_array, floor_dict).1),
        skip_token_spec(bytes, c, floor_array, floor_dict).1.pos >= c.pos,
        skip_token_spec(bytes, c, floor_array, floor_dict).0 is Ok ==> {
            let end = skip_token_spec(bytes, c, floor_array, floor_dict).1;
            end.pos > c.pos && end.depth_array == floor_array && end.depth_dict == floor_dict
        },
    decreases bytes.len() - c.pos,
{
    lemma_next_token(bytes, c);
    let (token, c1) = next_token_spec(bytes, c);
    if token is Ok && (c1.depth_array != floor_array || c1.depth_dict != floor_dict) {
        lemma_skip_token(bytes, c1, floor_array, floor_dict);
    }
}

/// The parser: the input, the place in it, and the object whose arguments
/// are being read.
pub struct Parser<'a> {
    pub bytes: &'a [u8],
    pub pos: usize,
    pub depth_array: u32,
    pub depth_dict: u32,
    pub ctx: MethodObject,
}

/// The index of the quote that closes the string whose content starts at
/// `pos`.
pub fn find_string_end(bytes: &[u8], pos: usize) -> (end: Option<usize>)
    requires
        pos <= bytes.len(),
    ensures
        match end {
            Some(e) => string_end(bytes@, pos as int) == Some(e as int) && pos <= e < bytes.len(),
            None => string_end(bytes@, pos as int) is None,
        },
{
    let len = bytes.len();
    let mut i: usize = pos;
    while i < len
        invariant
            pos <= i <= len,
            len == bytes.len(),
            string_end(bytes@, pos as int) == string_end(bytes@, i as int),
        decreases len - i,
    {
        let b = bytes[i];
        if b == 34 {
            return Some(i);
        } else if b < 32 {
            return None;
        } else if b == 92 {
            if i + 1 < len && bytes[i + 1] >= 32 {
                i = i + 2;
            } else {
                return None;
            }
        } else {
            i = i + 1;
        }
    }
    None
}

/// The index behind the number that starts at `pos`.
pub fn find_number_end(bytes: &[u8], pos: usize) -> (end: usize)
    requires
        pos <= bytes.len(),
    ensures
        end == number_end(bytes@, pos as int),
        pos <= end <= bytes.len(),
{
    let len = bytes.len();
    let mut i: usize = pos;
    while i < len && (48 <= bytes[i] && bytes[i] <= 57 || bytes[i] == 43 || bytes[i] == 45
        || bytes[i] == 46 || bytes[i] == 69 || bytes[i] == 101)
        invariant
            pos <= i <= len,
            len == bytes.len(),
            number_end(bytes@, pos as int) == number_end(bytes@, i as int),
        decreases len - i,
    {
        i = i + 1;
    }
    i
}

/// Appending a digit multiplies the number by ten and adds the digit.
pub proof fn lemma_decimal_step(s: Seq<u8>, k: int)
    requires
        0 <= k < s.len(),
    ensures
        decimal(s.take(k + 1)) == 10 * decimal(s.take(k)) + (s[k] - 48) as nat,
{
    assert(s.take(k + 1).drop_last() =~= s.take(k));
}

/// The value of the number written in `text`.
pub fn integer_value(text: &[u8]) -> (value: Option<i64>)
    ensures
        value == integer_of(text@),
{
    let n = text.len();
    let negative = n > 0 && text[0] == 45;
    let start: usize = if negative {
        1
    } else {
        0
    };
    let ghost digits = if negative {
        text@.skip(1)
    } else {
        text@
    };
    if start >= n {
        return None;
    }
    let mut acc: u64 = 0;
    let mut over = false;
    let mut i: usize = start;
    proof {
        assert(digits.take(0) =~= Seq::<u8>::empty());
    }
    while i < n
        invariant
            start <= i <= n,
            n == text.len(),
            negative == (n > 0 && text@[0] == 45),
            start == if negative { 1usize } else { 0usize },
            digits == if negative { text@.skip(1) } else { text@ },
            all_digits(digits.take(i - start)),
            !over ==> acc == decimal(digits.take(i - start)),
            over ==> decimal(digits.take(i - start)) > u64::MAX,
        decreases n - i,
    {
        let b = text[i];
        if b < 48 || b > 57 {
            proof {
                assert(!is_digit(digits[i - start]));
            }
            return None;
        }
        let d: u64 = (b - 48) as u64;
        proof {
            lemma_decimal_step(digits, i - start);
            let t = digits.take(i - start + 1);
            assert forall|j: int| 0 <= j < t.len() implies is_digit(#[trigger] t[j]) by {
                if j < i - start {
                    assert(t[j] == digits.take(i - start)[j]);
                }
            }
        }
        if !over {
            if acc > (u64::MAX - d) / 10 {
                over = true;
            } else {
                acc = acc * 10 + d;
            }
        }
        i = i + 1;
    }
    proof {
        assert(digits.take(n - start) =~= digits);
    }
    if over {
        None
    } else if negative {
        if acc < 0x8000_0000_0000_0000 {
            Some(-(acc as i64))
        } else if acc == 0x8000_0000_0000_0000 {
            Some(i64::MIN)
        } else {
            None
        }
    } else if acc <= 0x7fff_ffff_ffff_ffff {
        Some(acc as i64)
    } else {
        None
    }
}

impl<'a> Parser<'a> {
    /// Where the parser stands.
    pub open spec fn cursor(&self) -> Cursor {
        Cursor {
            pos: self.pos as int,
            depth_array: self.depth_array as int,
            depth_dict: self.depth_dict as int,
        }
    }

    /// The parser stands inside its input, with no more than `MAX_DEPTH`
    /// containers open.
    pub open spec fn wf(&self) -> bool {
        cursor_ok(self.bytes@, self.cursor())
    }

    /// `self` reads the same input for the same object as `other`.
    pub open spec fn same_input(&self, other: &Parser<'a>) -> bool {
        self.bytes == other.bytes && self.ctx == other.ctx
    }

    /// A parser at the start of `bytes`.
    pub fn new(bytes: &'a [u8]) -> (parser: Parser<'a>)
        ensures
            parser.wf(),
            parser.bytes == bytes,
            parser.cursor() == (Cursor { pos: 0, depth_array: 0, depth_dict: 0 }),
            parser.ctx == MethodObject::Core,
    {
        proof {
            assert(bytes.len() == bytes@.len());
        }
        Parser { bytes, pos: 0, depth_array: 0, depth_dict: 0, ctx: MethodObject::Core }
    }

    /// The bytes of `span`.
    pub fn slice(&self, span: Span) -> (content: &'a [u8])
        requires
            span.start <= span.end <= self.bytes.len(),
        ensures
            content@ == span_bytes(self.bytes@, span),
    {
        slice_subrange(self.bytes, span.start, span.end)
    }

    /// Reads the next token.
    pub fn next_token(&mut self) -> (token: Result<Token, Error>)
        requires
            old(self).wf(),
        ensures
            final(self).wf(),
            final(self).same_input(old(self)),
            old(self).pos <= final(self).pos,
            (result_view(token), final(self).cursor()) == next_token_spec(
                old(self).bytes@,
                old(self).cursor(),
            ),
            token matches Ok(Token::String(span)) ==> span.start <= span.end <= final(self).pos,
    {
        let bytes = self.bytes;
        let len = bytes.len();
        let mut p: usize = self.pos;
        while p < len && (bytes[p] == 32 || bytes[p] == 9 || bytes[p] == 10 || bytes[p] == 13)
            invariant
                self.pos <= p <= len,
                len == bytes.len(),
                skip_space(bytes@, self.pos as int) == skip_space(bytes@, p as int),
            decreases len - p,
        {
            p = p + 1;
        }
        proof {
            lemma_next_token(bytes@, self.cursor());
            lemma_token_span(bytes@, self.cursor());
        }
        if p >= len {
            return Err(Error::malformed());
        }
        let b = bytes[p];
        if b == 34 {
            match find_string_end(bytes, p + 1) {
                Some(e) => {
                    self.pos = e + 1;
                    Ok(Token::String(Span { start: p + 1, end: e }))
                },
                None => Err(Error::malformed()),
            }
        } else if b == 44 {
            self.pos = p + 1;
            Ok(Token::Comma)
        } else if b == 58 {
            self.pos = p + 1;
            Ok(Token::Colon)
        } else if b == 91 {
            if self.depth_array + self.depth_dict < MAX_DEPTH {
                self.pos = p + 1;
                self.depth_array = self.depth_array + 1;
                Ok(Token::ArrayStart)
            } else {
                Err(Error::malformed())
            }
        } else if b == 93 {
            if self.depth_array > 0 {
                self.pos = p + 1;
                self.depth_array = self.depth_array - 1;
                Ok(Token::ArrayEnd)
            } else {
                Err(Error::malformed())
            }
        } else if b == 123 {
            if self.depth_array + self.depth_dict < MAX_DEPTH {
                self.pos = p + 1;
                self.depth_dict = self.depth_dict + 1;
                Ok(Token::DictStart)
            } else {
                Err(Error::malformed())
            }
        } else if b == 125 {
            if self.depth_dict > 0 {
                self.pos = p + 1;
                self.depth_dict = self.depth_dict - 1;
                Ok(Token::DictEnd)
            } else {
                Err(Error::malformed())
            }
        } else if (48 <= b && b <= 57) || b == 45 {
            let e = find_number_end(bytes, p);
            let value = integer_value(slice_subrange(bytes, p, e));
            self.pos = e;
            Ok(Token::Number(value))
        } else if len - p >= 4 && b == 116 && bytes[p + 1] == 114 && bytes[p + 2] == 117
            && bytes[p + 3] == 101 {
            self.pos = p + 4;
            Ok(Token::Bool(true))
        } else if len - p >= 5 && b == 102 && bytes[p + 1] == 97 && bytes[p + 2] == 108
            && bytes[p + 3] == 115 && bytes[p + 4] == 101 {
            self.pos = p + 5;
            Ok(Token::Bool(false))
        } else if len - p >= 4 && b == 110 && bytes[p + 1] == 117 && bytes[p + 2] == 108
            && bytes[p + 3] == 108 {
            self.pos = p + 4;
            Ok(Token::Null)
        } else {
            Err(Error::malformed())
        }
    }

    /// Reads one token, which must be `want`.
    pub fn expect(&mut self, want: Token, envelope: bool) -> (r: Result<(), Error>)
        requires
            old(self).wf(),
        ensures
            final(self).wf(),
            final(self).same_input(old(self)),
            old(self).pos <= final(self).pos,
            (result_view(r), final(self).cursor()) == expect_spec(
                old(self).bytes@,
                old(self).cursor(),
                want,
                envelope,
            ),
    {
        match self.next_token() {
            Err(e) => Err(e),
            Ok(t) => if t.is(&want) {
                Ok(())
            } else if envelope {
                Err(Error::not_request())
            } else {
                Err(Error::invalid_arguments())
            },
        }
    }

    /// Reads a key of an object and the colon behind it.
    pub fn next_dict_key(&mut self) -> (key: Result<Span, Error>)
        requires
            old(self).wf(),
        ensures
            final(self).wf(),
            final(self).same_input(old(self)),
            old(self).pos <= final(self).pos,
            (result_view(key), final(self).cursor()) == next_dict_key_spec(
                old(self).bytes@,
                old(self).cursor(),
            ),
            key is Ok ==> key->Ok_0.start <= key->Ok_0.end <= final(self).pos,
            key is Ok ==> old(self).pos < final(self).pos,
    {
        proof {
            lemma_token_span(self.bytes@, self.cursor());
            lemma_next_token(self.bytes@, self.cursor());
        }
        match self.next_token() {
            Err(e) => Err(e),
            Ok(Token::String(span)) => {
                proof {
                    lemma_next_token(self.bytes@, self.cursor());
                }
                match self.expect(Token::Colon, false) {
                    Err(e) => Err(e),
                    Ok(_) => Ok(span),
                }
            },
            Ok(_) => Err(Error::invalid_arguments()),
        }
    }

    /// Reads what follows a member of an object: `true` if the object has
    /// ended, `false` if another member follows.
    pub fn is_dict_end(&mut self) -> (end: Result<bool, Error>)
        requires
            old(self).wf(),
        ensures
            final(self).wf(),
            final(self).same_input(old(self)),
            old(self).pos <= final(self).pos,
            (result_view(end), final(self).cursor()) == container_end_spec(
                old(self).bytes@,
                old(self).cursor(),
                Token::DictEnd,
            ),
    {
        match self.next_token() {
            Err(e) => Err(e),
            Ok(Token::DictEnd) => Ok(true),
            Ok(Token::Comma) => Ok(false),
            Ok(_) => Err(Error::malformed()),
        }
    }

    /// Reads what follows a member of an array: `true` if the array has
    /// ended, `false` if another member follows.
    pub fn is_array_end(&mut self) -> (end: Result<bool, Error>)
        requires
            old(self).wf(),
        ensures
            final(self).wf(),
            final(self).same_input(old(self)),
            old(self).pos <= final(self).pos,
            (result_view(end), final(self).cursor()) == container_end_spec(
                old(self).bytes@,
                old(self).cursor(),
                Token::ArrayEnd,
            ),
    {
        match self.next_token() {
            Err(e) => Err(e),
            Ok(Token::ArrayEnd) => Ok(true),
            Ok(Token::Comma) => Ok(false),
            Ok(_) => Err(Error::malformed()),
        }
    }

    /// Reads a value that must be `true`, `false` or `null`.
    pub fn next_bool_or_null(&mut self) -> (value: Result<Option<bool>, Error>)
        requires
            old(self).wf(),
        ensures
            final(self).wf(),
            final(self).same_input(old(self)),
            old(self).pos <= final(self).pos,
            (result_view(value), final(self).cursor()) == bool_or_null_spec(
                old(self).bytes@,
                old(self).cursor(),
            ),
    {
        match self.next_token() {
            Err(e) => Err(e),
            Ok(token) => token.unwrap_bool_or_null(),
        }
    }

    /// Reads a value that must be `null` or a size.
    pub fn next_usize_or_null(&mut self) -> (value: Result<Option<usize>, Error>)
        requires
            old(self).wf(),
        ensures
            final(self).wf(),
            final(self).same_input(old(self)),
            old(self).pos <= final(self).pos,
            (result_view(value), final(self).cursor()) == usize_or_null_spec(
                old(self).bytes@,
                old(self).cursor(),
            ),
    {
        match self.next_token() {
            Err(e) => Err(e),
            Ok(token) => token.unwrap_usize_or_null(),
        }
    }

    /// Reads over one value, or over what is left of one: tokens are read
    /// until `floor_array` arrays and `floor_dict` objects are open.
    pub fn skip_token(&mut self, floor_array: u32, floor_dict: u32) -> (r: Result<(), Error>)
        requires
            old(self).wf(),
        ensures
            final(self).wf(),
            final(self).same_input(old(self)),
            old(self).pos <= final(self).pos,
            (result_view(r), final(self).cursor()) == skip_token_spec(
                old(self).bytes@,
                old(self).cursor(),
                floor_array as int,
                floor_dict as int,
            ),
    {
        let ghost start = self.cursor();
        let ghost bytes = self.bytes@;
        loop
            invariant
                self.wf(),
                self.same_input(old(self)),
                bytes == self.bytes@,
                start == old(self).cursor(),
                old(self).pos <= self.pos,
                skip_token_spec(bytes, start, floor_array as int, floor_dict as int)
                    == skip_token_spec(bytes, self.cursor(), floor_array as int, floor_dict as int),
            decreases self.bytes.len() - self.pos,
        {
            let ghost before = self.cursor();
            proof {
                lemma_next_token(bytes, before);
            }
            let token = self.next_token();
            proof {
                let (t, c1) = next_token_spec(bytes, before);
                assert(c1 == self.cursor());
                assert(skip_token_spec(bytes, before, floor_array as int, floor_dict as int) == (
                    match t {
                        Err(e) => (Err::<(), ErrorView>(e), c1),
                        Ok(_) => if c1.depth_array != floor_array || c1.depth_dict != floor_dict {
                            skip_token_spec(bytes, c1, floor_array as int, floor_dict as int)
                        } else {
                            (Ok::<(), ErrorView>(()), c1)
                        },
                    }
                ));
            }
            match token {
                Err(e) => {
                    return Err(e);
                },
                Ok(_) => {
                    if self.depth_array == floor_array && self.depth_dict == floor_dict {
                        return Ok(());
                    }
                },
            }
        }
    }
}

/// A string token's span lies inside the input, before the cursor that
/// follows the token.
pub proof fn lemma_token_span(bytes: Seq<u8>, c: Cursor)
    requires
        cursor_ok(bytes, c),
    ensures
        match next_token_spec(bytes, c).0 {
            Ok(Token::String(span)) => {
                &&& c.pos < span.start <= span.end < next_token_spec(bytes, c).1.pos
                &&& string_end(bytes, span.start as int) == Some(span.end as int)
                &&& forall|i: int| span.start <= i < span.end ==> bytes[i] >= 32
            },
            _ => true,
        },
{
    lemma_skip_space(bytes, c.pos);
    let p = skip_space(bytes, c.pos);
    if p < bytes.len() {
        if bytes[p] == 34 {
            if string_end(bytes, p + 1) is Some {
                lemma_string_end(bytes, p + 1);
            }
        }
        lemma_number_end(bytes, p);
    }
}

/// Reading over a value can be taken up after any token that does not end
/// it: where a token leaves more containers open than the floors say, or
/// fewer, reading over from behind that token ends where reading over from
/// before it ends.
pub proof fn lemma_skip_after_token(bytes: Seq<u8>, c: Cursor, floor_array: int, floor_dict: int)
    requires
        cursor_ok(bytes, c),
        next_token_spec(bytes, c).0 is Ok,
        next_token_spec(bytes, c).1.depth_array != floor_array || next_token_spec(
            bytes,
            c,
        ).1.depth_dict != floor_dict,
    ensures
        skip_token_spec(bytes, c, floor_array, floor_dict) == skip_token_spec(
            bytes,
            next_token_spec(bytes, c).1,
            floor_array,
            floor_dict,
        ),
{
}

/// The bytes of a string that the parser hands out hold no zero byte, so
/// that packing tells any two of them apart.
pub proof fn lemma_string_has_no_zero(bytes: Seq<u8>, c: Cursor)
    requires
        cursor_ok(bytes, c),
    ensures
        match next_token_spec(bytes, c).0 {
            Ok(Token::String(span)) => crate::keys::no_zero(span_bytes(bytes, span)),
            _ => true,
        },
{
    lemma_token_span(bytes, c);
    lemma_next_token(bytes, c);
    match next_token_spec(bytes, c).0 {
        Ok(Token::String(span)) => {
            let content = span_bytes(bytes, span);
            assert forall|i: int| 0 <= i < content.len() implies content[i] != 0 by {
                assert(content[i] == bytes[span.start + i]);
            }
        },
        _ => {},
    }
}

impl Token {
    /// Whether two tokens are the same.
    pub fn is(&self, other: &Token) -> (same: bool)
        ensures
            same == (*self == *other),
    {
        match (*self, *other) {
            (Token::DictStart, Token::DictStart) => true,
            (Token::DictEnd, Token::DictEnd) => true,
            (Token::ArrayStart, Token::ArrayStart) => true,
            (Token::ArrayEnd, Token::ArrayEnd) => true,
            (Token::Comma, Token::Comma) => true,
            (Token::Colon, Token::Colon) => true,
            (Token::String(a), Token::String(b)) => a.start == b.start && a.end == b.end,
            (Token::Number(Some(a)), Token::Number(Some(b))) => a == b,
            (Token::Number(None), Token::Number(None)) => true,
            (Token::Bool(a), Token::Bool(b)) => a == b,
            (Token::Null, Token::Null) => true,
            _ => false,
        }
    }

    /// The span of a token that must be a string.
    pub fn unwrap_string(self) -> (span: Result<Span, Error>)
        ensures
            result_view(span) == string_of(self),
    {
        match self {
            Token::String(span) => Ok(span),
            _ => Err(Error::invalid_arguments()),
        }
    }

    /// The value of a token that must be `true`, `false` or `null`.
    pub fn unwrap_bool_or_null(self) -> (value: Result<Option<bool>, Error>)
        ensures
            result_view(value) == bool_or_null_of(self),
    {
        match self {
            Token::Bool(b) => Ok(Some(b)),
            Token::Null => Ok(None),
            _ => Err(Error::invalid_arguments()),
        }
    }

    /// The value of a token that must be `null` or a size.
    pub fn unwrap_usize_or_null(self) -> (value: Result<Option<usize>, Error>)
        ensures
            result_view(value) == usize_or_null_of(self),
    {
        match self {
            Token::Number(Some(v)) => {
                if v >= 0 && v as u64 <= usize::MAX as u64 {
                    Ok(Some(v as usize))
                } else {
                    Err(Error::invalid_arguments())
                }
            },
            Token::Null => Ok(None),
            _ => Err(Error::invalid_arguments()),
        }
    }
}

} // verus!
