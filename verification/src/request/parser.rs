//! Reading a request from its bytes.

use crate::error::{
    as_request_error, not_request, result_view, unknown_method, Error, ErrorView, MethodError,
    MethodErrorView, RequestError, RequestErrorView, RequestLimitError,
};
use crate::json::{
    container_end_spec, cursor_ok, expect_spec, lemma_next_token, lemma_skip_token, members,
    next_dict_key_spec, next_token_spec, skip_token_spec, span_bytes, string_of, Cursor, Parsed,
    Parser, Token,
};
use crate::method::account::{account_spec, AccountRequest, AccountRequestView};
use crate::method::get::{get_spec, GetRequest};
use crate::request::capability::{capability_bits, Capability};
use crate::request::echo::{echo_spec, Echo};
use crate::request::method::{method_name_of, MethodFunction, MethodName, MethodObject};
use crate::request::{
    calls_view, pack_key, short_key, Call, CallView, CreatedIds, Request, RequestMethod,
    RequestMethodView, RequestView,
};
use crate::text::{decode_text, text_of};
use crate::types::{read_text, read_text_spec, text_at, Id};
use vstd::prelude::*;

verus! {

/// `using`
pub const KEY_USING: u128 = 0x67_6e69_7375;

/// `methodCalls`
pub const KEY_METHOD_CALLS: u128 = 0x73_6c6c_6163_646f_6874_656d;

/// `createdIds`
pub const KEY_CREATED_IDS: u128 = 0x7364_6964_6574_6165_7263;

/// What has been read of a request, and whether one of the keys of a
/// request has been seen.
pub struct EnvelopeView {
    pub request: RequestView,
    pub found: bool,
}

/// What has been read of a request.
pub struct Envelope {
    pub request: Request,
    pub found: bool,
}

impl View for Envelope {
    type V = EnvelopeView;

    open spec fn view(&self) -> EnvelopeView {
        EnvelopeView { request: self.request@, found: self.found }
    }
}

/// The error that more calls than one request may hold give.
pub open spec fn too_many_calls() -> ErrorView {
    ErrorView::Request(RequestErrorView::Limit(RequestLimitError::CallsIn))
}

/// Reading one capability and adding its bit to the set.
pub open spec fn using_member(bytes: Seq<u8>) -> spec_fn(Cursor, u32) -> Parsed<u32> {
    |c: Cursor, acc: u32|
        {
            let (token, c1) = next_token_spec(bytes, c);
            match token {
                Err(e) => (Err(e), c1),
                Ok(t) => match string_of(t) {
                    Err(e) => (Err(e), c1),
                    Ok(span) => (Ok(acc | capability_bits(span_bytes(bytes, span))), c1),
                },
            }
        }
}

/// Reading one created identifier: the client's identifier as the key and
/// the server's as the value.
pub open spec fn created_member(bytes: Seq<u8>) -> spec_fn(
    Cursor,
    Map<Seq<char>, Seq<char>>,
) -> Parsed<Map<Seq<char>, Seq<char>>> {
    |c: Cursor, acc: Map<Seq<char>, Seq<char>>|
        {
            let (key, c1) = next_dict_key_spec(bytes, c);
            match key {
                Err(e) => (Err(e), c1),
                Ok(span) => match text_at(bytes, span) {
                    Err(e) => (Err(e), c1),
                    Ok(client) => {
                        let (id, c2) = read_text_spec(bytes, c1);
                        match id {
                            Err(e) => (Err(e), c2),
                            Ok(id) => (Ok(acc.insert(client, id)), c2),
                        }
                    },
                },
            }
        }
}

/// The error of a call whose method is not known: it holds the name as the
/// client wrote it. A name that is no text makes the request malformed.
pub open spec fn unknown(raw: Seq<u8>) -> ErrorView {
    match text_of(raw) {
        Ok(name) => unknown_method(name),
        Err(e) => e,
    }
}

/// `read` with its value wrapped by `wrap`.
pub open spec fn wrapped<V>(
    read: Parsed<V>,
    wrap: spec_fn(V) -> RequestMethodView,
) -> Parsed<RequestMethodView> {
    match read.0 {
        Ok(v) => (Ok(wrap(v)), read.1),
        Err(e) => (Err(e), read.1),
    }
}

/// Reading the arguments of a call of the method `name`, written `raw`, by
/// the reader that the function and the object type select. A name that is
/// not known, or a function that the object type does not have, is an
/// unknown method, and nothing is read.
pub open spec fn decode_method_spec(
    bytes: Seq<u8>,
    c: Cursor,
    name: Option<MethodName>,
    raw: Seq<u8>,
) -> Parsed<RequestMethodView> {
    match name {
        None => (Err(unknown(raw)), c),
        Some(n) => match n.fnc {
            MethodFunction::Get => wrapped(
                get_spec(bytes, c, n.obj),
                |r| RequestMethodView::Get(r),
            ),
            MethodFunction::Query => wrapped(
                account_spec(bytes, c, n.fnc, n.obj),
                |r| RequestMethodView::Query(r),
            ),
            MethodFunction::Modify => wrapped(
                account_spec(bytes, c, n.fnc, n.obj),
                |r| RequestMethodView::Modify(r),
            ),
            MethodFunction::Changes => wrapped(
                account_spec(bytes, c, n.fnc, n.obj),
                |r| RequestMethodView::Changes(r),
            ),
            MethodFunction::QueryChanges => wrapped(
                account_spec(bytes, c, n.fnc, n.obj),
                |r| RequestMethodView::QueryChanges(r),
            ),
            MethodFunction::Copy => if n.obj == MethodObject::Email {
                wrapped(account_spec(bytes, c, n.fnc, n.obj), |r| RequestMethodView::Copy(r))
            } else if n.obj == MethodObject::Blob {
                wrapped(account_spec(bytes, c, n.fnc, n.obj), |r| RequestMethodView::CopyBlob(r))
            } else {
                (Err(unknown(raw)), c)
            },
            MethodFunction::Import => if n.obj == MethodObject::Email {
                wrapped(
                    account_spec(bytes, c, n.fnc, n.obj),
                    |r| RequestMethodView::ImportEmail(r),
                )
            } else {
                (Err(unknown(raw)), c)
            },
            MethodFunction::Parse => if n.obj == MethodObject::Email {
                wrapped(
                    account_spec(bytes, c, n.fnc, n.obj),
                    |r| RequestMethodView::ParseEmail(r),
                )
            } else {
                (Err(unknown(raw)), c)
            },
            MethodFunction::Validate => if n.obj == MethodObject::SieveScript {
                wrapped(
                    account_spec(bytes, c, n.fnc, n.obj),
                    |r| RequestMethodView::ValidateScript(r),
                )
            } else {
                (Err(unknown(raw)), c)
            },
            MethodFunction::Echo => if n.obj == MethodObject::Core {
                wrapped(echo_spec(bytes, c), |r| RequestMethodView::Echo(r))
            } else {
                (Err(unknown(raw)), c)
            },
        },
    }
}

/// Reading the arguments of a call, and standing an error of the call in
/// for them: where the reader fails with an error of the method, the rest
/// of the arguments is read over, down to the depth at which they began,
/// and the call is recorded with that error. Any other error stays one.
pub open spec fn method_spec(
    bytes: Seq<u8>,
    c: Cursor,
    name: Option<MethodName>,
    raw: Seq<u8>,
) -> Parsed<RequestMethodView> {
    let (decoded, c1) = decode_method_spec(bytes, c, name, raw);
    match decoded {
        Ok(m) => (Ok(m), c1),
        Err(ErrorView::Method(err)) => {
            let (skipped, c2) = skip_token_spec(bytes, c1, c.depth_array, c.depth_dict);
            match skipped {
                Err(e) => (Err(e), c2),
                Ok(_) => (Ok(RequestMethodView::Error(err)), c2),
            }
        },
        Err(e) => (Err(e), c1),
    }
}

/// Reading one call: an array of the method's name, its arguments and the
/// call's identifier.
#[verifier::opaque]
pub open spec fn call_spec(bytes: Seq<u8>, c: Cursor) -> Parsed<CallView> {
    let (open, c1) = expect_spec(bytes, c, Token::ArrayStart, true);
    match open {
        Err(e) => (Err(e), c1),
        Ok(_) => {
            let (token, c2) = next_token_spec(bytes, c1);
            match token {
                Err(e) => (Err(e), c2),
                Ok(Token::String(span)) => {
                    let raw = span_bytes(bytes, span);
                    let (comma, c3) = expect_spec(bytes, c2, Token::Comma, true);
                    match comma {
                        Err(e) => (Err(e), c3),
                        Ok(_) => {
                            let (method, c4) = method_spec(bytes, c3, method_name_of(raw), raw);
                            match method {
                                Err(e) => (Err(e), c4),
                                Ok(m) => call_tail(bytes, c4, m),
                            }
                        },
                    }
                },
                Ok(_) => (Err(not_request()), c2),
            }
        },
    }
}

/// Reading what follows the arguments of a call: a comma, the call's
/// identifier, and the end of the array.
pub open spec fn call_tail(bytes: Seq<u8>, c: Cursor, method: RequestMethodView) -> Parsed<
    CallView,
> {
    let (comma, c1) = expect_spec(bytes, c, Token::Comma, true);
    match comma {
        Err(e) => (Err(e), c1),
        Ok(_) => {
            let (id, c2) = read_text_spec(bytes, c1);
            match id {
                Err(e) => (Err(e), c2),
                Ok(id) => {
                    let (close, c3) = expect_spec(bytes, c2, Token::ArrayEnd, true);
                    match close {
                        Err(e) => (Err(e), c3),
                        Ok(_) => (Ok(CallView { id, method }), c3),
                    }
                },
            }
        },
    }
}

/// Reading one call and appending it to the calls read so far. A call
/// beyond `max_calls` is refused before anything of it is read.
pub open spec fn call_member(bytes: Seq<u8>, max_calls: usize) -> spec_fn(
    Cursor,
    Seq<CallView>,
) -> Parsed<Seq<CallView>> {
    |c: Cursor, acc: Seq<CallView>|
        {
            if acc.len() >= max_calls {
                (Err(too_many_calls()), c)
            } else {
                let (call, c1) = call_spec(bytes, c);
                match call {
                    Err(e) => (Err(e), c1),
                    Ok(call) => (Ok(acc.push(call)), c1),
                }
            }
        }
}

/// Reading one member of a request. `using` adds capabilities to the set,
/// `methodCalls` appends calls, `createdIds` sets the created identifiers,
/// and any other member is read over.
pub open spec fn envelope_member(bytes: Seq<u8>, max_calls: usize) -> spec_fn(
    Cursor,
    EnvelopeView,
) -> Parsed<EnvelopeView> {
    |c: Cursor, acc: EnvelopeView|
        {
            let (key, c1) = next_dict_key_spec(bytes, c);
            match key {
                Err(e) => (Err(e), c1),
                Ok(span) => {
                    let k = short_key(span_bytes(bytes, span));
                    if k == KEY_USING {
                        let (open, c2) = expect_spec(bytes, c1, Token::ArrayStart, false);
                        match open {
                            Err(e) => (Err(e), c2),
                            Ok(_) => {
                                let (bits, c3) = members(
                                    bytes,
                                    c2,
                                    acc.request.using,
                                    using_member(bytes),
                                    Token::ArrayEnd,
                                );
                                match bits {
                                    Err(e) => (Err(e), c3),
                                    Ok(using) => (
                                        Ok(
                                            EnvelopeView {
                                                request: RequestView { using, ..acc.request },
                                                found: true,
                                            },
                                        ),
                                        c3,
                                    ),
                                }
                            },
                        }
                    } else if k == KEY_METHOD_CALLS {
                        let (open, c2) = expect_spec(bytes, c1, Token::ArrayStart, true);
                        match open {
                            Err(e) => (Err(e), c2),
                            Ok(_) => {
                                let (calls, c3) = members(
                                    bytes,
                                    c2,
                                    acc.request.method_calls,
                                    call_member(bytes, max_calls),
                                    Token::ArrayEnd,
                                );
                                match calls {
                                    Err(e) => (Err(e), c3),
                                    Ok(method_calls) => (
                                        Ok(
                                            EnvelopeView {
                                                request: RequestView {
                                                    method_calls,
                                                    ..acc.request
                                                },
                                                found: true,
                                            },
                                        ),
                                        c3,
                                    ),
                                }
                            },
                        }
                    } else if k == KEY_CREATED_IDS {
                        let (open, c2) = expect_spec(bytes, c1, Token::DictStart, false);
                        match open {
                            Err(e) => (Err(e), c2),
                            Ok(_) => {
                                let (ids, c3) = members(
                                    bytes,
                                    c2,
                                    Map::empty(),
                                    created_member(bytes),
                                    Token::DictEnd,
                                );
                                match ids {
                                    Err(e) => (Err(e), c3),
                                    Ok(ids) => (
                                        Ok(
                                            EnvelopeView {
                                                request: RequestView {
                                                    created_ids: Some(ids),
                                                    ..acc.request
                                                },
                                                found: true,
                                            },
                                        ),
                                        c3,
                                    ),
                                }
                            },
                        }
                    } else {
                        let (skipped, c2) = skip_token_spec(
                            bytes,
                            c1,
                            c1.depth_array,
                            c1.depth_dict,
                        );
                        match skipped {
                            Err(e) => (Err(e), c2),
                            Ok(_) => (Ok(acc), c2),
                        }
                    }
                },
            }
        }
}

/// The request with nothing in it.
pub open spec fn empty_envelope() -> EnvelopeView {
    EnvelopeView {
        request: RequestView { using: 0, method_calls: Seq::empty(), created_ids: None },
        found: false,
    }
}

/// The request that `bytes` hold, for a server that takes requests of up to
/// `max_size` bytes with up to `max_calls` calls.
///
/// A request is a JSON object. Longer bytes than `max_size` are refused
/// unread. An object without any of `using`, `methodCalls` and `createdIds`
/// is no request. An error of one call does not fail the request; any other
/// error does, and an error of a method met outside the arguments of a call
/// means that the bytes are no request.
pub open spec fn request_spec(bytes: Seq<u8>, max_calls: usize, max_size: usize) -> Result<
    RequestView,
    RequestErrorView,
> {
    if bytes.len() > max_size {
        Err(RequestErrorView::Limit(RequestLimitError::Size))
    } else {
        let (open, c1) = expect_spec(
            bytes,
            Cursor { pos: 0, depth_array: 0, depth_dict: 0 },
            Token::DictStart,
            false,
        );
        match open {
            Err(e) => Err(as_request_error(e)),
            Ok(_) => match members(
                bytes,
                c1,
                empty_envelope(),
                envelope_member(bytes, max_calls),
                Token::DictEnd,
            ).0 {
                Err(e) => Err(as_request_error(e)),
                Ok(envelope) => if envelope.found {
                    Ok(envelope.request)
                } else {
                    Err(RequestErrorView::NotRequest("Invalid JMAP request"@))
                },
            },
        }
    }
}

/// The mathematical value of what reading calls gives.
pub open spec fn calls_result(r: Result<Vec<Call>, Error>) -> Result<Seq<CallView>, ErrorView> {
    match r {
        Ok(calls) => Ok(calls_view(calls@)),
        Err(e) => Err(e@),
    }
}

/// Reads one capability and adds its bit to `using`.
pub fn read_capability(parser: &mut Parser, using: u32) -> (bits: Result<u32, Error>)
    requires
        old(parser).wf(),
    ensures
        final(parser).wf(),
        final(parser).same_input(old(parser)),
        old(parser).pos <= final(parser).pos,
        bits is Ok ==> old(parser).pos < final(parser).pos,
        (result_view(bits), final(parser).cursor()) == using_member(old(parser).bytes@)(
            old(parser).cursor(),
            using,
        ),
{
    proof {
        lemma_next_token(parser.bytes@, parser.cursor());
    }
    match parser.next_token() {
        Err(e) => Err(e),
        Ok(token) => match token.unwrap_string() {
            Err(e) => Err(e),
            Ok(span) => match Capability::parse(parser.slice(span)) {
                Some(capability) => Ok(using | capability.bit()),
                None => {
                    proof {
                        assert(using | 0u32 == using) by (bit_vector);
                    }
                    Ok(using)
                },
            },
        },
    }
}

/// Reads the capabilities of an array that has been opened, and adds their
/// bits to `using`.
pub fn parse_using(parser: &mut Parser, using: u32) -> (bits: Result<u32, Error>)
    requires
        old(parser).wf(),
    ensures
        final(parser).wf(),
        final(parser).same_input(old(parser)),
        old(parser).pos <= final(parser).pos,
        (result_view(bits), final(parser).cursor()) == members(
            old(parser).bytes@,
            old(parser).cursor(),
            using,
            using_member(old(parser).bytes@),
            Token::ArrayEnd,
        ),
{
    let ghost bytes = parser.bytes@;
    let ghost step = using_member(bytes);
    let ghost whole = members(bytes, parser.cursor(), using, step, Token::ArrayEnd);
    let mut set = using;
    loop
        invariant
            parser.wf(),
            whole == members(bytes, old(parser).cursor(), using, step, Token::ArrayEnd),
            parser.same_input(old(parser)),
            old(parser).pos <= parser.pos,
            bytes == parser.bytes@,
            step == using_member(bytes),
            whole == members(bytes, parser.cursor(), set, step, Token::ArrayEnd),
        decreases parser.bytes.len() - parser.pos,
    {
        match read_capability(parser, set) {
            Err(e) => {
                return Err(e);
            },
            Ok(next) => {
                set = next;
            },
        }
        proof {
            lemma_next_token(bytes, parser.cursor());
        }
        match parser.is_array_end() {
            Err(e) => {
                return Err(e);
            },
            Ok(true) => {
                return Ok(set);
            },
            Ok(false) => {},
        }
    }
}

/// Reads one created identifier and records it in `ids`.
pub fn read_created_id(parser: &mut Parser, ids: CreatedIds) -> (next: Result<CreatedIds, Error>)
    requires
        old(parser).wf(),
    ensures
        final(parser).wf(),
        final(parser).same_input(old(parser)),
        old(parser).pos <= final(parser).pos,
        next is Ok ==> old(parser).pos < final(parser).pos,
        (result_view(next), final(parser).cursor()) == created_member(old(parser).bytes@)(
            old(parser).cursor(),
            ids@,
        ),
{
    let mut ids = ids;
    let span = match parser.next_dict_key() {
        Err(e) => {
            return Err(e);
        },
        Ok(span) => span,
    };
    let client = match decode_text(parser.slice(span)) {
        Err(e) => {
            return Err(e);
        },
        Ok(client) => client,
    };
    match read_text(parser) {
        Err(e) => Err(e),
        Ok(id) => {
            ids.insert(client, Id { text: id });
            Ok(ids)
        },
    }
}

/// Reads the created identifiers of an object that has been opened.
pub fn parse_created_ids(parser: &mut Parser) -> (ids: Result<CreatedIds, Error>)
    requires
        old(parser).wf(),
    ensures
        final(parser).wf(),
        final(parser).same_input(old(parser)),
        old(parser).pos <= final(parser).pos,
        (result_view(ids), final(parser).cursor()) == members(
            old(parser).bytes@,
            old(parser).cursor(),
            Map::<Seq<char>, Seq<char>>::empty(),
            created_member(old(parser).bytes@),
            Token::DictEnd,
        ),
{
    let ghost bytes = parser.bytes@;
    let ghost step = created_member(bytes);
    let mut ids = CreatedIds::new();
    let ghost whole = members(bytes, parser.cursor(), ids@, step, Token::DictEnd);
    loop
        invariant
            parser.wf(),
            whole == members(
                bytes,
                old(parser).cursor(),
                Map::<Seq<char>, Seq<char>>::empty(),
                step,
                Token::DictEnd,
            ),
            parser.same_input(old(parser)),
            old(parser).pos <= parser.pos,
            bytes == parser.bytes@,
            step == created_member(bytes),
            whole == members(bytes, parser.cursor(), ids@, step, Token::DictEnd),
        decreases parser.bytes.len() - parser.pos,
    {
        match read_created_id(parser, ids) {
            Err(e) => {
                return Err(e);
            },
            Ok(next) => {
                ids = next;
            },
        }
        proof {
            lemma_next_token(bytes, parser.cursor());
        }
        match parser.is_dict_end() {
            Err(e) => {
                return Err(e);
            },
            Ok(true) => {
                return Ok(ids);
            },
            Ok(false) => {},
        }
    }
}

/// The error of a call whose method, written `raw`, is not known.
pub fn unknown_method_error(raw: &[u8]) -> (err: Error)
    ensures
        err@ == unknown(raw@),
{
    match decode_text(raw) {
        Ok(name) => Error::Method(MethodError::UnknownMethod(name)),
        Err(e) => e,
    }
}

/// Reads the arguments of a call of the method `name`, written `raw`, with
/// the reader that the function and the object type select. The object
/// type becomes the parser's context.
pub fn decode_method(parser: &mut Parser, name: Option<MethodName>, raw: &[u8]) -> (method: Result<
    RequestMethod,
    Error,
>)
    requires
        old(parser).wf(),
    ensures
        final(parser).wf(),
        final(parser).bytes == old(parser).bytes,
        old(parser).pos <= final(parser).pos,
        (result_view(method), final(parser).cursor()) == decode_method_spec(
            old(parser).bytes@,
            old(parser).cursor(),
            name,
            raw@,
        ),
{
    let name = match name {
        None => {
            return Err(unknown_method_error(raw));
        },
        Some(name) => name,
    };
    parser.ctx = name.obj;
    match (name.fnc, name.obj) {
        (MethodFunction::Get, _) => match GetRequest::parse(parser) {
            Ok(r) => Ok(RequestMethod::Get(r)),
            Err(e) => Err(e),
        },
        (MethodFunction::Query, _) => match AccountRequest::parse(parser, name.fnc) {
            Ok(r) => Ok(RequestMethod::Query(r)),
            Err(e) => Err(e),
        },
        (MethodFunction::Modify, _) => match AccountRequest::parse(parser, name.fnc) {
            Ok(r) => Ok(RequestMethod::Modify(r)),
            Err(e) => Err(e),
        },
        (MethodFunction::Changes, _) => match AccountRequest::parse(parser, name.fnc) {
            Ok(r) => Ok(RequestMethod::Changes(r)),
            Err(e) => Err(e),
        },
        (MethodFunction::QueryChanges, _) => match AccountRequest::parse(parser, name.fnc) {
            Ok(r) => Ok(RequestMethod::QueryChanges(r)),
            Err(e) => Err(e),
        },
        (MethodFunction::Copy, MethodObject::Email) => match AccountRequest::parse(
            parser,
            name.fnc,
        ) {
            Ok(r) => Ok(RequestMethod::Copy(r)),
            Err(e) => Err(e),
        },
        (MethodFunction::Copy, MethodObject::Blob) => match AccountRequest::parse(
            parser,
            name.fnc,
        ) {
            Ok(r) => Ok(RequestMethod::CopyBlob(r)),
            Err(e) => Err(e),
        },
        (MethodFunction::Import, MethodObject::Email) => match AccountRequest::parse(
            parser,
            name.fnc,
        ) {
            Ok(r) => Ok(RequestMethod::ImportEmail(r)),
            Err(e) => Err(e),
        },
        (MethodFunction::Parse, MethodObject::Email) => match AccountRequest::parse(
            parser,
            name.fnc,
        ) {
            Ok(r) => Ok(RequestMethod::ParseEmail(r)),
            Err(e) => Err(e),
        },
        (MethodFunction::Validate, MethodObject::SieveScript) => match AccountRequest::parse(
            parser,
            name.fnc,
        ) {
            Ok(r) => Ok(RequestMethod::ValidateScript(r)),
            Err(e) => Err(e),
        },
        (MethodFunction::Echo, MethodObject::Core) => match Echo::parse(parser) {
            Ok(r) => Ok(RequestMethod::Echo(r)),
            Err(e) => Err(e),
        },
        _ => Err(unknown_method_error(raw)),
    }
}

/// Reads the arguments of a call, and records an error of the method in
/// their place after reading over what is left of them.
pub fn parse_method(parser: &mut Parser, name: Option<MethodName>, raw: &[u8]) -> (method: Result<
    RequestMethod,
    Error,
>)
    requires
        old(parser).wf(),
    ensures
        final(parser).wf(),
        final(parser).bytes == old(parser).bytes,
        old(parser).pos <= final(parser).pos,
        (result_view(method), final(parser).cursor()) == method_spec(
            old(parser).bytes@,
            old(parser).cursor(),
            name,
            raw@,
        ),
{
    let start_depth_array = parser.depth_array;
    let start_depth_dict = parser.depth_dict;
    match decode_method(parser, name, raw) {
        Ok(method) => Ok(method),
        Err(Error::Method(err)) => {
            match parser.skip_token(start_depth_array, start_depth_dict) {
                Err(e) => Err(e),
                Ok(_) => Ok(RequestMethod::Error(err)),
            }
        },
        Err(err) => Err(err),
    }
}

/// Reads one call and appends it to `calls`.
pub fn read_call(parser: &mut Parser, calls: Vec<Call>, max_calls: usize) -> (next: Result<
    Vec<Call>,
    Error,
>)
    requires
        old(parser).wf(),
    ensures
        final(parser).wf(),
        final(parser).bytes == old(parser).bytes,
        old(parser).pos <= final(parser).pos,
        next is Ok ==> old(parser).pos < final(parser).pos,
        next matches Ok(list) ==> list.len() == calls.len() + 1 && list.len() <= max_calls,
        (calls_result(next), final(parser).cursor()) == call_member(
            old(parser).bytes@,
            max_calls,
        )(old(parser).cursor(), calls_view(calls@)),
{
    let mut calls = calls;
    proof {
        reveal(call_spec);
    }
    if calls.len() >= max_calls {
        return Err(Error::Request(RequestError::limit(RequestLimitError::CallsIn)));
    }
    match parser.expect(Token::ArrayStart, true) {
        Err(e) => {
            return Err(e);
        },
        Ok(_) => {},
    }
    proof {
        lemma_next_token(parser.bytes@, parser.cursor());
    }
    let span = match parser.next_token() {
        Err(e) => {
            return Err(e);
        },
        Ok(Token::String(span)) => span,
        Ok(_) => {
            return Err(Error::not_request());
        },
    };
    let raw = parser.slice(span);
    let name = MethodName::parse(raw);
    match parser.expect(Token::Comma, true) {
        Err(e) => {
            return Err(e);
        },
        Ok(_) => {},
    }
    let method = match parse_method(parser, name, raw) {
        Err(e) => {
            return Err(e);
        },
        Ok(method) => method,
    };
    match parser.expect(Token::Comma, true) {
        Err(e) => {
            return Err(e);
        },
        Ok(_) => {},
    }
    let id = match read_text(parser) {
        Err(e) => {
            return Err(e);
        },
        Ok(id) => id,
    };
    match parser.expect(Token::ArrayEnd, true) {
        Err(e) => {
            return Err(e);
        },
        Ok(_) => {},
    }
    let ghost before = calls_view(calls@);
    let call = Call { id, method };
    calls.push(call);
    proof {
        assert(calls_view(calls@) =~= before.push(call@));
    }
    Ok(calls)
}

/// Reads the calls of an array that has been opened, and appends them to
/// `calls`.
pub fn parse_calls(parser: &mut Parser, calls: Vec<Call>, max_calls: usize) -> (list: Result<
    Vec<Call>,
    Error,
>)
    requires
        old(parser).wf(),
        calls.len() <= max_calls,
    ensures
        final(parser).wf(),
        final(parser).bytes == old(parser).bytes,
        old(parser).pos <= final(parser).pos,
        list matches Ok(l) ==> l.len() <= max_calls,
        (calls_result(list), final(parser).cursor()) == members(
            old(parser).bytes@,
            old(parser).cursor(),
            calls_view(calls@),
            call_member(old(parser).bytes@, max_calls),
            Token::ArrayEnd,
        ),
{
    let ghost bytes = parser.bytes@;
    let ghost step = call_member(bytes, max_calls);
    let ghost first = calls_view(calls@);
    let ghost whole = members(bytes, parser.cursor(), first, step, Token::ArrayEnd);
    let mut list = calls;
    loop
        invariant
            parser.wf(),
            first == calls_view(calls@),
            whole == members(bytes, old(parser).cursor(), first, step, Token::ArrayEnd),
            parser.bytes == old(parser).bytes,
            old(parser).pos <= parser.pos,
            bytes == parser.bytes@,
            list.len() <= max_calls,
            step == call_member(bytes, max_calls),
            whole == members(bytes, parser.cursor(), calls_view(list@), step, Token::ArrayEnd),
        decreases parser.bytes.len() - parser.pos,
    {
        match read_call(parser, list, max_calls) {
            Err(e) => {
                return Err(e);
            },
            Ok(next) => {
                list = next;
            },
        }
        proof {
            lemma_next_token(bytes, parser.cursor());
        }
        match parser.is_array_end() {
            Err(e) => {
                return Err(e);
            },
            Ok(true) => {
                return Ok(list);
            },
            Ok(false) => {},
        }
    }
}

impl Envelope {
    /// Reads one member of a request.
    pub fn member(self, parser: &mut Parser, max_calls: usize) -> (next: Result<Envelope, Error>)
        requires
            old(parser).wf(),
            self.request.method_calls.len() <= max_calls,
        ensures
            final(parser).wf(),
            final(parser).bytes == old(parser).bytes,
            old(parser).pos <= final(parser).pos,
            next is Ok ==> old(parser).pos < final(parser).pos,
            next matches Ok(e) ==> e.request.method_calls.len() <= max_calls,
            (result_view(next), final(parser).cursor()) == envelope_member(
                old(parser).bytes@,
                max_calls,
            )(old(parser).cursor(), self@),
    {
        let mut request = self.request;
        let span = match parser.next_dict_key() {
            Err(e) => {
                return Err(e);
            },
            Ok(span) => span,
        };
        let k = pack_key(parser.slice(span));
        if k == KEY_USING {
            match parser.expect(Token::ArrayStart, false) {
                Err(e) => {
                    return Err(e);
                },
                Ok(_) => {},
            }
            match parse_using(parser, request.using) {
                Err(e) => Err(e),
                Ok(using) => {
                    request.using = using;
                    Ok(Envelope { request, found: true })
                },
            }
        } else if k == KEY_METHOD_CALLS {
            match parser.expect(Token::ArrayStart, true) {
                Err(e) => {
                    return Err(e);
                },
                Ok(_) => {},
            }
            let Request { using, method_calls, created_ids } = request;
            match parse_calls(parser, method_calls, max_calls) {
                Err(e) => Err(e),
                Ok(method_calls) => Ok(
                    Envelope { request: Request { using, method_calls, created_ids }, found: true },
                ),
            }
        } else if k == KEY_CREATED_IDS {
            match parser.expect(Token::DictStart, false) {
                Err(e) => {
                    return Err(e);
                },
                Ok(_) => {},
            }
            match parse_created_ids(parser) {
                Err(e) => Err(e),
                Ok(ids) => {
                    request.created_ids = Some(ids);
                    Ok(Envelope { request, found: true })
                },
            }
        } else {
            let floor_array = parser.depth_array;
            let floor_dict = parser.depth_dict;
            match parser.skip_token(floor_array, floor_dict) {
                Err(e) => Err(e),
                Ok(_) => Ok(Envelope { request, found: self.found }),
            }
        }
    }
}

impl Request {
    /// Reads a request from `json`, for a server that takes requests of up
    /// to `max_size` bytes with up to `max_calls` calls.
    pub fn parse(json: &[u8], max_calls: usize, max_size: usize) -> (request: Result<
        Request,
        RequestError,
    >)
        ensures
            match request {
                Ok(r) => request_spec(json@, max_calls, max_size) == Ok::<
                    RequestView,
                    RequestErrorView,
                >(r@) && r.method_calls.len() <= max_calls && json.len() <= max_size,
                Err(e) => request_spec(json@, max_calls, max_size) == Err::<
                    RequestView,
                    RequestErrorView,
                >(e@),
            },
    {
        if json.len() > max_size {
            return Err(RequestError::limit(RequestLimitError::Size));
        }
        let mut parser = Parser::new(json);
        let ghost bytes = json@;
        let ghost step = envelope_member(bytes, max_calls);
        match parser.expect(Token::DictStart, false) {
            Err(e) => {
                return Err(RequestError::from(e));
            },
            Ok(_) => {},
        }
        let mut envelope = Envelope {
            request: Request { using: 0, method_calls: Vec::new(), created_ids: None },
            found: false,
        };
        let ghost whole = members(bytes, parser.cursor(), envelope@, step, Token::DictEnd);
        proof {
            assert(calls_view(envelope.request.method_calls@) =~= Seq::<CallView>::empty());
            assert(envelope@ == empty_envelope());
        }
        loop
            invariant
                parser.wf(),
                parser.bytes == json,
                bytes == parser.bytes@,
                bytes == json@,
                json.len() <= max_size,
                envelope.request.method_calls.len() <= max_calls,
                step == envelope_member(bytes, max_calls),
                request_spec(bytes, max_calls, max_size) == match whole.0 {
                    Err(e) => Err::<RequestView, RequestErrorView>(as_request_error(e)),
                    Ok(envelope) => if envelope.found {
                        Ok(envelope.request)
                    } else {
                        Err(RequestErrorView::NotRequest("Invalid JMAP request"@))
                    },
                },
                whole == members(bytes, parser.cursor(), envelope@, step, Token::DictEnd),
            decreases parser.bytes.len() - parser.pos,
        {
            match envelope.member(&mut parser, max_calls) {
                Err(e) => {
                    return Err(RequestError::from(e));
                },
                Ok(next) => {
                    envelope = next;
                },
            }
            proof {
                lemma_next_token(bytes, parser.cursor());
            }
            match parser.is_dict_end() {
                Err(e) => {
                    return Err(RequestError::from(e));
                },
                Ok(true) => {
                    if envelope.found {
                        return Ok(envelope.request);
                    } else {
                        return Err(RequestError::not_request("Invalid JMAP request"));
                    }
                },
                Ok(false) => {},
            }
        }
    }
}

/// A call whose reader fails with an error of the method does not fail the
/// request: if what is left of its arguments can be read over, the call is
/// recorded with that error, and the parser stands behind the arguments,
/// at the depth at which they began.
pub proof fn lemma_failed_call_is_recorded(
    bytes: Seq<u8>,
    c: Cursor,
    name: Option<MethodName>,
    raw: Seq<u8>,
    err: MethodErrorView,
)
    requires
        decode_method_spec(bytes, c, name, raw).0 == Err::<RequestMethodView, ErrorView>(
            ErrorView::Method(err),
        ),
        skip_token_spec(
            bytes,
            decode_method_spec(bytes, c, name, raw).1,
            c.depth_array,
            c.depth_dict,
        ).0 is Ok,
    ensures
        method_spec(bytes, c, name, raw).0 == Ok::<RequestMethodView, ErrorView>(
            RequestMethodView::Error(err),
        ),
        method_spec(bytes, c, name, raw).1.depth_array == c.depth_array,
        method_spec(bytes, c, name, raw).1.depth_dict == c.depth_dict,
{
    let gave_up = decode_method_spec(bytes, c, name, raw).1;
    if cursor_ok(bytes, gave_up) {
        lemma_skip_token(bytes, gave_up, c.depth_array, c.depth_dict);
    }
}

/// A failed call stands in the request like any other call. Where the
/// reader gave up on the way over the arguments, so that reading on from
/// there ends where reading over the arguments from their start ends, the
/// parser stands exactly behind the arguments afterwards: what follows is
/// read as it would be after arguments that were read in full.
pub proof fn lemma_failed_call_is_read_over(
    bytes: Seq<u8>,
    c: Cursor,
    name: Option<MethodName>,
    raw: Seq<u8>,
    err: MethodErrorView,
)
    requires
        decode_method_spec(bytes, c, name, raw).0 == Err::<RequestMethodView, ErrorView>(
            ErrorView::Method(err),
        ),
        skip_token_spec(
            bytes,
            decode_method_spec(bytes, c, name, raw).1,
            c.depth_array,
            c.depth_dict,
        ) == skip_token_spec(bytes, c, c.depth_array, c.depth_dict),
    ensures
        method_spec(bytes, c, name, raw).1 == skip_token_spec(
            bytes,
            c,
            c.depth_array,
            c.depth_dict,
        ).1,
        skip_token_spec(bytes, c, c.depth_array, c.depth_dict).0 is Ok ==> method_spec(
            bytes,
            c,
            name,
            raw,
        ).0 == Ok::<RequestMethodView, ErrorView>(RequestMethodView::Error(err)),
{
}

/// A call of a method that is not known is read over from the start of its
/// arguments, and recorded with the name as the client wrote it.
pub proof fn lemma_unknown_method_is_read_over(bytes: Seq<u8>, c: Cursor, raw: Seq<u8>)
    requires
        text_of(raw) is Ok,
    ensures
        method_spec(bytes, c, None, raw).1 == skip_token_spec(
            bytes,
            c,
            c.depth_array,
            c.depth_dict,
        ).1,
        skip_token_spec(bytes, c, c.depth_array, c.depth_dict).0 is Ok ==> method_spec(
            bytes,
            c,
            None,
            raw,
        ).0 == Ok::<RequestMethodView, ErrorView>(
            RequestMethodView::Error(MethodErrorView::UnknownMethod(text_of(raw)->Ok_0)),
        ),
{
}

/// What reading the calls of an array gives does not depend on the calls
/// that were read before, only on how many they were: the calls before
/// stay as they are, in front, and the calls that follow, the errors and
/// the place where the reading ends are the same whatever the earlier
/// calls held. A call that failed is such an earlier call.
pub proof fn lemma_calls_are_independent(
    bytes: Seq<u8>,
    max_calls: usize,
    c: Cursor,
    first: Seq<CallView>,
    second: Seq<CallView>,
)
    requires
        first.len() == second.len(),
    ensures
        ({
            let a = members(bytes, c, first, call_member(bytes, max_calls), Token::ArrayEnd);
            let b = members(bytes, c, second, call_member(bytes, max_calls), Token::ArrayEnd);
            &&& a.1 == b.1
            &&& a.0 is Err ==> b.0 is Err && a.0->Err_0 == b.0->Err_0
            &&& a.0 is Ok ==> {
                &&& b.0 is Ok
                &&& a.0->Ok_0.len() == b.0->Ok_0.len()
                &&& a.0->Ok_0.len() > first.len()
                &&& a.0->Ok_0.take(first.len() as int) == first
                &&& b.0->Ok_0.take(first.len() as int) == second
                &&& a.0->Ok_0.skip(first.len() as int) == b.0->Ok_0.skip(first.len() as int)
            }
        }),
    decreases bytes.len() - c.pos,
{
    let step = call_member(bytes, max_calls);
    let n = first.len() as int;
    if n < max_calls {
        let (call, c1) = call_spec(bytes, c);
        if call is Ok {
            let l1 = first.push(call->Ok_0);
            let l2 = second.push(call->Ok_0);
            assert(step(c, first) == (Ok::<Seq<CallView>, ErrorView>(l1), c1));
            assert(step(c, second) == (Ok::<Seq<CallView>, ErrorView>(l2), c1));
            let (end, c2) = container_end_spec(bytes, c1, Token::ArrayEnd);
            if end == Ok::<bool, ErrorView>(false) && c.pos < c2.pos <= bytes.len() {
                lemma_calls_are_independent(bytes, max_calls, c2, l1, l2);
                let a = members(bytes, c2, l1, step, Token::ArrayEnd);
                let b = members(bytes, c2, l2, step, Token::ArrayEnd);
                assert(members(bytes, c, first, step, Token::ArrayEnd) == a);
                assert(members(bytes, c, second, step, Token::ArrayEnd) == b);
                if a.0 is Ok {
                    let x = a.0->Ok_0;
                    let y = b.0->Ok_0;
                    assert(x.take(n) =~= x.take(n + 1).take(n));
                    assert(y.take(n) =~= y.take(n + 1).take(n));
                    assert(l1.take(n) =~= first);
                    assert(l2.take(n) =~= second);
                    assert(x[n] == x.take(n + 1)[n]);
                    assert(y[n] == y.take(n + 1)[n]);
                    assert(x.skip(n) =~= seq![x[n]] + x.skip(n + 1));
                    assert(y.skip(n) =~= seq![y[n]] + y.skip(n + 1));
                }
            } else if end == Ok::<bool, ErrorView>(true) {
                assert(l1.take(n) =~= first);
                assert(l2.take(n) =~= second);
                assert(l1.skip(n) =~= seq![call->Ok_0]);
                assert(l2.skip(n) =~= seq![call->Ok_0]);
            }
        }
    }
}

} // verus!
