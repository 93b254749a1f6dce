//! Identifiers and property names, and how they are read from a request.

use crate::error::{invalid_arguments, result_view, Error, ErrorView};
use crate::json::{
    lemma_next_token, members, next_token_spec, span_bytes, string_of, Cursor, Parsed, Parser,
    Span, Token,
};
use crate::text::{decode_text, text_of};
use vstd::prelude::*;

verus! {

/// A value that is a piece of text and can be made from one.
pub trait Text: Sized {
    /// The text of the value.
    spec fn text(&self) -> Seq<char>;

    /// The value with the text `text`.
    fn from_text(text: String) -> (value: Self)
        ensures
            value.text() == text@,
    ;
}

/// The identifier of an account or of an object: opaque text that the
/// server chose, or that a client chose for an object it creates.
#[derive(Clone, Debug)]
pub struct Id {
    pub text: String,
}

/// The name of a property of an object.
#[derive(Clone, Debug)]
pub struct Property {
    pub name: String,
}

impl View for Id {
    type V = Seq<char>;

    open spec fn view(&self) -> Seq<char> {
        self.text@
    }
}

impl View for Property {
    type V = Seq<char>;

    open spec fn view(&self) -> Seq<char> {
        self.name@
    }
}

impl Text for Id {
    open spec fn text(&self) -> Seq<char> {
        self.text@
    }

    fn from_text(text: String) -> (value: Id) {
        Id { text }
    }
}

impl Text for Property {
    open spec fn text(&self) -> Seq<char> {
        self.name@
    }

    fn from_text(text: String) -> (value: Property) {
        Property { name: text }
    }
}

impl Text for String {
    open spec fn text(&self) -> Seq<char> {
        self@
    }

    fn from_text(text: String) -> (value: String) {
        text
    }
}

impl Default for Id {
    /// The empty identifier.
    fn default() -> (id: Id)
        ensures
            id@ == Seq::<char>::empty(),
    {
        Id { text: String::new() }
    }
}

/// The text of a string that may be missing.
pub open spec fn opt_text(text: Option<String>) -> Option<Seq<char>> {
    match text {
        Some(t) => Some(t@),
        None => None,
    }
}

/// The texts of a list of values, in order.
pub open spec fn texts<T: Text>(values: Seq<T>) -> Seq<Seq<char>> {
    Seq::new(values.len(), |i: int| values[i].text())
}

/// The mathematical value of what reading a list gives.
pub open spec fn list_view<T: Text>(r: Result<Option<Vec<T>>, Error>) -> Result<
    Option<Seq<Seq<char>>>,
    ErrorView,
> {
    match r {
        Ok(Some(list)) => Ok(Some(texts(list@))),
        Ok(None) => Ok(None),
        Err(e) => Err(e@),
    }
}

/// The text of the string at `span`.
pub open spec fn text_at(bytes: Seq<u8>, span: Span) -> Result<Seq<char>, ErrorView> {
    text_of(span_bytes(bytes, span))
}

/// Reading a string and decoding it. Another token is `InvalidArguments`.
pub open spec fn read_text_spec(bytes: Seq<u8>, c: Cursor) -> Parsed<Seq<char>> {
    let (token, c1) = next_token_spec(bytes, c);
    match token {
        Err(e) => (Err(e), c1),
        Ok(t) => match string_of(t) {
            Err(e) => (Err(e), c1),
            Ok(span) => (text_at(bytes, span), c1),
        },
    }
}

/// Reading one member of a list of strings and appending its text.
pub open spec fn list_step(bytes: Seq<u8>) -> spec_fn(Cursor, Seq<Seq<char>>) -> Parsed<
    Seq<Seq<char>>,
> {
    |c: Cursor, acc: Seq<Seq<char>>|
        {
            let (text, c1) = read_text_spec(bytes, c);
            match text {
                Err(e) => (Err(e), c1),
                Ok(t) => (Ok(acc.push(t)), c1),
            }
        }
}

/// Reading `null`, which is no list, or an array of strings, which may be
/// empty. Anything else is `InvalidArguments`.
pub open spec fn text_list_spec(bytes: Seq<u8>, c: Cursor) -> Parsed<Option<Seq<Seq<char>>>> {
    let (token, c1) = next_token_spec(bytes, c);
    match token {
        Err(e) => (Err(e), c1),
        Ok(Token::Null) => (Ok(None), c1),
        Ok(Token::ArrayStart) => {
            let (first, c2) = next_token_spec(bytes, c1);
            if first == Ok::<Token, ErrorView>(Token::ArrayEnd) {
                (Ok(Some(Seq::empty())), c2)
            } else {
                let (list, c3) = members(bytes, c1, Seq::empty(), list_step(bytes), Token::ArrayEnd);
                match list {
                    Err(e) => (Err(e), c3),
                    Ok(l) => (Ok(Some(l)), c3),
                }
            }
        },
        Ok(_) => (Err(invalid_arguments()), c1),
    }
}

/// Reads a string and decodes it.
pub fn read_text(parser: &mut Parser) -> (text: Result<String, Error>)
    requires
        old(parser).wf(),
    ensures
        final(parser).wf(),
        final(parser).same_input(old(parser)),
        old(parser).pos <= final(parser).pos,
        text is Ok ==> old(parser).pos < final(parser).pos,
        (result_view(text), final(parser).cursor()) == read_text_spec(
            old(parser).bytes@,
            old(parser).cursor(),
        ),
{
    proof {
        lemma_next_token(parser.bytes@, parser.cursor());
    }
    match parser.next_token() {
        Err(e) => Err(e),
        Ok(token) => match token.unwrap_string() {
            Err(e) => Err(e),
            Ok(span) => decode_text(parser.slice(span)),
        },
    }
}

/// Reads `null` or an array of strings.
pub fn parse_text_list<T: Text>(parser: &mut Parser) -> (list: Result<Option<Vec<T>>, Error>)
    requires
        old(parser).wf(),
    ensures
        final(parser).wf(),
        final(parser).same_input(old(parser)),
        old(parser).pos <= final(parser).pos,
        (list_view(list), final(parser).cursor()) == text_list_spec(
            old(parser).bytes@,
            old(parser).cursor(),
        ),
{
    let ghost bytes = parser.bytes@;
    let ghost whole = text_list_spec(bytes, parser.cursor());
    proof {
        lemma_next_token(bytes, parser.cursor());
    }
    match parser.next_token() {
        Err(e) => {
            return Err(e);
        },
        Ok(Token::Null) => {
            return Ok(None);
        },
        Ok(Token::ArrayStart) => {},
        Ok(_) => {
            return Err(Error::invalid_arguments());
        },
    }
    let pos = parser.pos;
    let depth_array = parser.depth_array;
    let depth_dict = parser.depth_dict;
    let ghost start = parser.cursor();
    let mut list: Vec<T> = Vec::new();
    proof {
        lemma_next_token(bytes, start);
    }
    match parser.next_token() {
        Ok(Token::ArrayEnd) => {
            proof {
                assert(texts(list@) =~= Seq::<Seq<char>>::empty());
            }
            return Ok(Some(list));
        },
        _ => {},
    }
    parser.pos = pos;
    parser.depth_array = depth_array;
    parser.depth_dict = depth_dict;
    let ghost step = list_step(bytes);
    proof {
        assert(texts(list@) =~= Seq::<Seq<char>>::empty());
    }
    loop
        invariant
            parser.wf(),
            parser.same_input(old(parser)),
            old(parser).pos <= parser.pos,
            bytes == parser.bytes@,
            step == list_step(bytes),
            whole == text_list_spec(bytes, old(parser).cursor()),
            whole == match members(bytes, parser.cursor(), texts(list@), step, Token::ArrayEnd).0 {
                Err(e) => (
                    Err::<Option<Seq<Seq<char>>>, ErrorView>(e),
                    members(bytes, parser.cursor(), texts(list@), step, Token::ArrayEnd).1,
                ),
                Ok(l) => (
                    Ok(Some(l)),
                    members(bytes, parser.cursor(), texts(list@), step, Token::ArrayEnd).1,
                ),
            },
        decreases parser.bytes.len() - parser.pos,
    {
        let ghost acc = texts(list@);
        match read_text(parser) {
            Err(e) => {
                return Err(e);
            },
            Ok(text) => {
                list.push(T::from_text(text));
                proof {
                    assert(texts(list@) =~= acc.push(text@));
                }
            },
        }
        proof {
            lemma_next_token(bytes, parser.cursor());
        }
        match parser.is_array_end() {
            Err(e) => {
                return Err(e);
            },
            Ok(true) => {
                return Ok(Some(list));
            },
            Ok(false) => {},
        }
    }
}

} // verus!
