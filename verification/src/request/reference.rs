//! References from the arguments of one call to the result of an earlier
//! call. The parser records a reference; it is resolved when the call runs.

use crate::error::{invalid_arguments, result_view, Error, ErrorView};
use crate::json::{
    container_end_spec, expect_spec, lemma_next_token, members, next_dict_key_spec,
    next_token_spec, skip_token_spec, span_bytes, string_of, Cursor, Parsed, Parser, Token,
};
use crate::request::method::{method_name_of, MethodName};
use crate::request::{pack_key, short_key};
use crate::types::{opt_text, read_text, read_text_spec};
use vstd::prelude::*;

verus! {

/// Either a value or a reference to where the value will be found.
#[derive(Clone, Debug)]
pub enum MaybeReference<V, R> {
    Value(V),
    Reference(R),
}

/// A reference to the result of an earlier call of the same request.
#[derive(Clone, Debug)]
pub struct ResultReference {
    /// The identifier of the call whose result is meant.
    pub result_of: String,
    /// The method that the call must have been of.
    pub name: MethodName,
    /// A JSON pointer into the result.
    pub path: String,
}

/// The mathematical value of a [`ResultReference`].
pub struct ResultReferenceView {
    pub result_of: Seq<char>,
    pub name: MethodName,
    pub path: Seq<char>,
}

/// The members of a reference that have been read so far.
pub struct PartialReference {
    pub result_of: Option<Seq<char>>,
    pub name: Option<MethodName>,
    pub path: Option<Seq<char>>,
}

impl View for ResultReference {
    type V = ResultReferenceView;

    open spec fn view(&self) -> ResultReferenceView {
        ResultReferenceView { result_of: self.result_of@, name: self.name, path: self.path@ }
    }
}

/// `resultOf`
pub const KEY_RESULT_OF: u128 = 0x666f_746c_7573_6572;

/// `name`
pub const KEY_NAME: u128 = 0x656d_616e;

/// `path`
pub const KEY_PATH: u128 = 0x6874_6170;

/// Reading one member of a reference: `resultOf` and `path` hold text,
/// `name` holds the name of a known method, and any other member is read
/// over.
pub open spec fn reference_member(bytes: Seq<u8>) -> spec_fn(
    Cursor,
    PartialReference,
) -> Parsed<PartialReference> {
    |c: Cursor, acc: PartialReference|
        {
            let (key, c1) = next_dict_key_spec(bytes, c);
            match key {
                Err(e) => (Err(e), c1),
                Ok(span) => {
                    let k = short_key(span_bytes(bytes, span));
                    if k == KEY_RESULT_OF {
                        let (text, c2) = read_text_spec(bytes, c1);
                        match text {
                            Err(e) => (Err(e), c2),
                            Ok(t) => (Ok(PartialReference { result_of: Some(t), ..acc }), c2),
                        }
                    } else if k == KEY_NAME {
                        let (token, c2) = next_token_spec(bytes, c1);
                        match token {
                            Err(e) => (Err(e), c2),
                            Ok(t) => match string_of(t) {
                                Err(e) => (Err(e), c2),
                                Ok(s) => match method_name_of(span_bytes(bytes, s)) {
                                    Some(n) => (Ok(PartialReference { name: Some(n), ..acc }), c2),
                                    None => (Err(invalid_arguments()), c2),
                                },
                            },
                        }
                    } else if k == KEY_PATH {
                        let (text, c2) = read_text_spec(bytes, c1);
                        match text {
                            Err(e) => (Err(e), c2),
                            Ok(t) => (Ok(PartialReference { path: Some(t), ..acc }), c2),
                        }
                    } else {
                        let (skipped, c2) = skip_token_spec(
                            bytes,
                            c1,
                            c1.depth_array,
                            c1.depth_dict,
                        );
                        match skipped {
                            Err(e) => (Err(e), c2),
                            Ok(_) => (Ok(acc), c2),
                        }
                    }
                },
            }
        }
}

/// A reference whose members have all been read; one that lacks a member
/// is `InvalidArguments`.
pub open spec fn reference_finish(read: Parsed<PartialReference>) -> Parsed<ResultReferenceView> {
    match read.0 {
        Err(e) => (Err(e), read.1),
        Ok(acc) => if acc.result_of is Some && acc.name is Some && acc.path is Some {
            (
                Ok(
                    ResultReferenceView {
                        result_of: acc.result_of->0,
                        name: acc.name->0,
                        path: acc.path->0,
                    },
                ),
                read.1,
            )
        } else {
            (Err(invalid_arguments()), read.1)
        },
    }
}

/// Reading a reference: an object with the members `resultOf`, `name` and
/// `path`.
pub open spec fn reference_spec(bytes: Seq<u8>, c: Cursor) -> Parsed<ResultReferenceView> {
    let (open, c1) = expect_spec(bytes, c, Token::DictStart, false);
    match open {
        Err(e) => (Err(e), c1),
        Ok(_) => reference_finish(
            members(
                bytes,
                c1,
                PartialReference { result_of: None, name: None, path: None },
                reference_member(bytes),
                Token::DictEnd,
            ),
        ),
    }
}

/// The members of a reference that have been read so far.
pub struct ReferenceParts {
    pub result_of: Option<String>,
    pub name: Option<MethodName>,
    pub path: Option<String>,
}

impl View for ReferenceParts {
    type V = PartialReference;

    open spec fn view(&self) -> PartialReference {
        PartialReference {
            result_of: opt_text(self.result_of),
            name: self.name,
            path: opt_text(self.path),
        }
    }
}

impl ReferenceParts {
    /// Reads one member of a reference.
    pub fn member(self, parser: &mut Parser) -> (parts: Result<ReferenceParts, Error>)
        requires
            old(parser).wf(),
        ensures
            final(parser).wf(),
            final(parser).same_input(old(parser)),
            old(parser).pos <= final(parser).pos,
            parts is Ok ==> old(parser).pos < final(parser).pos,
            (result_view(parts), final(parser).cursor()) == reference_member(old(parser).bytes@)(
                old(parser).cursor(),
                self@,
            ),
    {
        let span = match parser.next_dict_key() {
            Err(e) => {
                return Err(e);
            },
            Ok(span) => span,
        };
        let k = pack_key(parser.slice(span));
        proof {
            lemma_next_token(parser.bytes@, parser.cursor());
        }
        if k == KEY_RESULT_OF {
            match read_text(parser) {
                Err(e) => Err(e),
                Ok(t) => Ok(ReferenceParts { result_of: Some(t), name: self.name, path: self.path }),
            }
        } else if k == KEY_NAME {
            match parser.next_token() {
                Err(e) => Err(e),
                Ok(t) => match t.unwrap_string() {
                    Err(e) => Err(e),
                    Ok(s) => match MethodName::parse(parser.slice(s)) {
                        Some(n) => Ok(
                            ReferenceParts {
                                result_of: self.result_of,
                                name: Some(n),
                                path: self.path,
                            },
                        ),
                        None => Err(Error::invalid_arguments()),
                    },
                },
            }
        } else if k == KEY_PATH {
            match read_text(parser) {
                Err(e) => Err(e),
                Ok(t) => Ok(
                    ReferenceParts { result_of: self.result_of, name: self.name, path: Some(t) },
                ),
            }
        } else {
            let floor_array = parser.depth_array;
            let floor_dict = parser.depth_dict;
            match parser.skip_token(floor_array, floor_dict) {
                Err(e) => Err(e),
                Ok(_) => Ok(self),
            }
        }
    }
}

impl ResultReference {
    /// Reads a reference.
    pub fn parse(parser: &mut Parser) -> (reference: Result<ResultReference, Error>)
        requires
            old(parser).wf(),
        ensures
            final(parser).wf(),
            final(parser).same_input(old(parser)),
            old(parser).pos <= final(parser).pos,
            (result_view(reference), final(parser).cursor()) == reference_spec(
                old(parser).bytes@,
                old(parser).cursor(),
            ),
    {
        let ghost bytes = parser.bytes@;
        let ghost whole = reference_spec(bytes, parser.cursor());
        let ghost step = reference_member(bytes);
        match parser.expect(Token::DictStart, false) {
            Err(e) => {
                return Err(e);
            },
            Ok(_) => {},
        }
        let mut parts = ReferenceParts { result_of: None, name: None, path: None };
        loop
            invariant
                parser.wf(),
                parser.same_input(old(parser)),
                old(parser).pos <= parser.pos,
                bytes == parser.bytes@,
                step == reference_member(bytes),
                whole == reference_spec(bytes, old(parser).cursor()),
                whole == reference_finish(
                    members(bytes, parser.cursor(), parts@, step, Token::DictEnd),
                ),
            decreases parser.bytes.len() - parser.pos,
        {
            match parts.member(parser) {
                Err(e) => {
                    return Err(e);
                },
                Ok(next) => {
                    parts = next;
                },
            }
            proof {
                lemma_next_token(bytes, parser.cursor());
            }
            match parser.is_dict_end() {
                Err(e) => {
                    return Err(e);
                },
                Ok(true) => {
                    return match (parts.result_of, parts.name, parts.path) {
                        (Some(result_of), Some(name), Some(path)) => Ok(
                            ResultReference { result_of, name, path },
                        ),
                        _ => Err(Error::invalid_arguments()),
                    };
                },
                Ok(false) => {},
            }
        }
    }
}

} // verus!
