//! The arguments of a `get` call.

use crate::error::{result_view, unknown_method, Error, ErrorView, MethodError};
use crate::json::{
    expect_spec, lemma_next_token, lemma_skip_token, members, next_dict_key_spec,
    skip_token_spec, span_bytes, Cursor, Parsed, Parser, Token,
};
use crate::object::email;
use crate::object::email::{get_arguments_spec, handled, no_get_arguments, updated};
use crate::request::method::{object_name, MethodObject};
use crate::request::reference::{
    reference_spec, MaybeReference, ResultReference, ResultReferenceView,
};
use crate::request::{is_reference_key, key_word, RequestProperty};
use crate::types::{
    list_view, parse_text_list, read_text, read_text_spec, text_list_spec, texts, Id, Property,
    Text,
};
use vstd::prelude::*;
use vstd::string::*;

verus! {

/// The arguments of a `get` call.
#[derive(Clone, Debug)]
pub struct GetRequest {
    pub account_id: Id,
    pub ids: Option<MaybeReference<Vec<Id>, ResultReference>>,
    pub properties: Option<MaybeReference<Vec<Property>, ResultReference>>,
    pub arguments: RequestArguments,
}

/// What a `get` call takes besides the arguments that every `get` has, by
/// the type of the object.
#[derive(Clone, Debug)]
pub enum RequestArguments {
    Email(email::GetArguments),
    Mailbox,
    Thread,
    Identity,
    EmailSubmission,
    PushSubscription,
    SieveScript,
    VacationResponse,
    Principal,
}

/// One object of a response: its properties, each with its value as JSON.
#[derive(Clone, Debug)]
pub struct Object {
    pub properties: Vec<(Property, Vec<u8>)>,
}

/// The response to a `get` call.
#[derive(Clone, Debug)]
pub struct GetResponse {
    pub account_id: Option<Id>,
    pub state: String,
    pub list: Vec<Object>,
    pub not_found: Vec<Id>,
}

/// A list of texts, or a reference to one.
pub type ListOrReference = MaybeReference<Seq<Seq<char>>, ResultReferenceView>;

/// The mathematical value of [`RequestArguments`].
pub enum RequestArgumentsView {
    Email(email::GetArgumentsView),
    Mailbox,
    Thread,
    Identity,
    EmailSubmission,
    PushSubscription,
    SieveScript,
    VacationResponse,
    Principal,
}

/// The mathematical value of a [`GetRequest`].
pub struct GetRequestView {
    pub account_id: Seq<char>,
    pub ids: Option<ListOrReference>,
    pub properties: Option<ListOrReference>,
    pub arguments: RequestArgumentsView,
}

/// The mathematical value of a list that may be missing or a reference.
pub open spec fn referable_view<T: Text>(
    list: Option<MaybeReference<Vec<T>, ResultReference>>,
) -> Option<ListOrReference> {
    match list {
        Some(MaybeReference::Value(l)) => Some(MaybeReference::Value(texts(l@))),
        Some(MaybeReference::Reference(r)) => Some(MaybeReference::Reference(r@)),
        None => None,
    }
}

impl View for RequestArguments {
    type V = RequestArgumentsView;

    open spec fn view(&self) -> RequestArgumentsView {
        match self {
            RequestArguments::Email(args) => RequestArgumentsView::Email(args@),
            RequestArguments::Mailbox => RequestArgumentsView::Mailbox,
            RequestArguments::Thread => RequestArgumentsView::Thread,
            RequestArguments::Identity => RequestArgumentsView::Identity,
            RequestArguments::EmailSubmission => RequestArgumentsView::EmailSubmission,
            RequestArguments::PushSubscription => RequestArgumentsView::PushSubscription,
            RequestArguments::SieveScript => RequestArgumentsView::SieveScript,
            RequestArguments::VacationResponse => RequestArgumentsView::VacationResponse,
            RequestArguments::Principal => RequestArgumentsView::Principal,
        }
    }
}

impl View for GetRequest {
    type V = GetRequestView;

    open spec fn view(&self) -> GetRequestView {
        GetRequestView {
            account_id: self.account_id@,
            ids: referable_view(self.ids),
            properties: referable_view(self.properties),
            arguments: self.arguments@,
        }
    }
}

/// `accountId`
pub const KEY_ACCOUNT_ID: u128 = 0x64_6974_6e75_6f63_6361;

/// `ids`
pub const KEY_IDS: u128 = 0x73_6469;

/// `properties`
pub const KEY_PROPERTIES: u128 = 0x7365_6974_7265_706f_7270;

/// The arguments by object type with which reading a `get` call starts, for
/// the object types that have a `get`.
pub open spec fn initial_arguments(ctx: MethodObject) -> Option<RequestArgumentsView> {
    match ctx {
        MethodObject::Email => Some(RequestArgumentsView::Email(no_get_arguments())),
        MethodObject::Mailbox => Some(RequestArgumentsView::Mailbox),
        MethodObject::Thread => Some(RequestArgumentsView::Thread),
        MethodObject::Identity => Some(RequestArgumentsView::Identity),
        MethodObject::EmailSubmission => Some(RequestArgumentsView::EmailSubmission),
        MethodObject::PushSubscription => Some(RequestArgumentsView::PushSubscription),
        MethodObject::SieveScript => Some(RequestArgumentsView::SieveScript),
        MethodObject::VacationResponse => Some(RequestArgumentsView::VacationResponse),
        MethodObject::Principal => Some(RequestArgumentsView::Principal),
        _ => None,
    }
}

/// Reading the value of an argument by object type: only emails have any.
pub open spec fn request_arguments_spec(
    bytes: Seq<u8>,
    c: Cursor,
    w0: nat,
    w1: nat,
    args: RequestArgumentsView,
) -> Parsed<(bool, RequestArgumentsView)> {
    match args {
        RequestArgumentsView::Email(email) => {
            let (read, c1) = get_arguments_spec(bytes, c, w0, w1, email);
            match read {
                Err(e) => (Err(e), c1),
                Ok((known, email)) => (Ok((known, RequestArgumentsView::Email(email))), c1),
            }
        },
        _ => (Ok((false, args)), c),
    }
}

/// Reading a list or, under a key that marks a reference, a reference to
/// one.
pub open spec fn list_or_reference_spec(bytes: Seq<u8>, c: Cursor, is_ref: bool) -> Parsed<
    Option<ListOrReference>,
> {
    if is_ref {
        let (reference, c1) = reference_spec(bytes, c);
        match reference {
            Err(e) => (Err(e), c1),
            Ok(r) => (Ok(Some(MaybeReference::Reference(r))), c1),
        }
    } else {
        let (list, c1) = text_list_spec(bytes, c);
        match list {
            Err(e) => (Err(e), c1),
            Ok(Some(l)) => (Ok(Some(MaybeReference::Value(l))), c1),
            Ok(None) => (Ok(None), c1),
        }
    }
}

/// Reading one member of the arguments of a `get` call. `accountId`, `ids`
/// and `properties` are every `get`'s; another key may be an argument of
/// the object type, and is read over if it is not.
pub open spec fn get_member(bytes: Seq<u8>) -> spec_fn(Cursor, GetRequestView) -> Parsed<
    GetRequestView,
> {
    |c: Cursor, acc: GetRequestView|
        {
            let (key, c1) = next_dict_key_spec(bytes, c);
            match key {
                Err(e) => (Err(e), c1),
                Ok(span) => {
                    let content = span_bytes(bytes, span);
                    let w0 = key_word(content, 0);
                    let is_ref = is_reference_key(content);
                    if w0 == KEY_ACCOUNT_ID && !is_ref {
                        let (text, c2) = read_text_spec(bytes, c1);
                        match text {
                            Err(e) => (Err(e), c2),
                            Ok(t) => (Ok(GetRequestView { account_id: t, ..acc }), c2),
                        }
                    } else if w0 == KEY_IDS {
                        let (list, c2) = list_or_reference_spec(bytes, c1, is_ref);
                        match list {
                            Err(e) => (Err(e), c2),
                            Ok(l) => (Ok(GetRequestView { ids: l, ..acc }), c2),
                        }
                    } else if w0 == KEY_PROPERTIES {
                        let (list, c2) = list_or_reference_spec(bytes, c1, is_ref);
                        match list {
                            Err(e) => (Err(e), c2),
                            Ok(l) => (Ok(GetRequestView { properties: l, ..acc }), c2),
                        }
                    } else {
                        let (read, c2) = request_arguments_spec(
                            bytes,
                            c1,
                            w0,
                            key_word(content, 1),
                            acc.arguments,
                        );
                        match read {
                            Err(e) => (Err(e), c2),
                            Ok((true, args)) => (Ok(GetRequestView { arguments: args, ..acc }), c2),
                            Ok((false, _)) => {
                                let (skipped, c3) = skip_token_spec(
                                    bytes,
                                    c2,
                                    c2.depth_array,
                                    c2.depth_dict,
                                );
                                match skipped {
                                    Err(e) => (Err(e), c3),
                                    Ok(_) => (Ok(acc), c3),
                                }
                            },
                        }
                    }
                },
            }
        }
}

/// Reading the arguments of a `get` call on objects of type `ctx`. An
/// object type without a `get` makes the method unknown, before anything is
/// read. Arguments that are not an object are no request.
pub open spec fn get_spec(bytes: Seq<u8>, c: Cursor, ctx: MethodObject) -> Parsed<GetRequestView> {
    match initial_arguments(ctx) {
        None => (Err(unknown_method(object_name(ctx) + "/get"@)), c),
        Some(arguments) => {
            let (open, c1) = expect_spec(bytes, c, Token::DictStart, true);
            match open {
                Err(e) => (Err(e), c1),
                Ok(_) => members(
                    bytes,
                    c1,
                    GetRequestView {
                        account_id: Seq::empty(),
                        ids: None,
                        properties: None,
                        arguments,
                    },
                    get_member(bytes),
                    Token::DictEnd,
                ),
            }
        },
    }
}

/// Reads a list or, where `is_ref` is set, a reference to one.
pub fn parse_list_or_reference<T: Text>(parser: &mut Parser, is_ref: bool) -> (list: Result<
    Option<MaybeReference<Vec<T>, ResultReference>>,
    Error,
>)
    requires
        old(parser).wf(),
    ensures
        final(parser).wf(),
        final(parser).same_input(old(parser)),
        old(parser).pos <= final(parser).pos,
        final(parser).cursor() == list_or_reference_spec(
            old(parser).bytes@,
            old(parser).cursor(),
            is_ref,
        ).1,
        match list {
            Ok(l) => list_or_reference_spec(old(parser).bytes@, old(parser).cursor(), is_ref).0
                == Ok::<Option<ListOrReference>, ErrorView>(referable_view(l)),
            Err(e) => list_or_reference_spec(old(parser).bytes@, old(parser).cursor(), is_ref).0
                == Err::<Option<ListOrReference>, ErrorView>(e@),
        },
{
    if is_ref {
        match ResultReference::parse(parser) {
            Err(e) => Err(e),
            Ok(r) => Ok(Some(MaybeReference::Reference(r))),
        }
    } else {
        match parse_text_list::<T>(parser) {
            Err(e) => Err(e),
            Ok(Some(l)) => Ok(Some(MaybeReference::Value(l))),
            Ok(None) => Ok(None),
        }
    }
}

impl RequestArguments {
    /// Reads the value of `property` if it is an argument that `get` takes
    /// for this object type, and says whether it is.
    pub fn parse(&mut self, parser: &mut Parser, property: RequestProperty) -> (known: Result<
        bool,
        Error,
    >)
        requires
            old(parser).wf(),
        ensures
            final(parser).wf(),
            final(parser).same_input(old(parser)),
            old(parser).pos <= final(parser).pos,
            ({
                let read = request_arguments_spec(
                    old(parser).bytes@,
                    old(parser).cursor(),
                    property.word(0),
                    property.word(1),
                    old(self)@,
                );
                &&& result_view(known) == handled(read.0)
                &&& final(parser).cursor() == read.1
                &&& final(self)@ == updated(read.0, old(self)@)
            }),
    {
        match self {
            RequestArguments::Email(arguments) => arguments.parse(parser, property),
            _ => Ok(false),
        }
    }
}

impl GetRequest {
    /// Reads one member of the arguments.
    pub fn member(self, parser: &mut Parser) -> (request: Result<GetRequest, Error>)
        requires
            old(parser).wf(),
        ensures
            final(parser).wf(),
            final(parser).same_input(old(parser)),
            old(parser).pos <= final(parser).pos,
            request is Ok ==> old(parser).pos < final(parser).pos,
            (result_view(request), final(parser).cursor()) == get_member(old(parser).bytes@)(
                old(parser).cursor(),
                self@,
            ),
    {
        let mut request = self;
        let span = match parser.next_dict_key() {
            Err(e) => {
                return Err(e);
            },
            Ok(span) => span,
        };
        let property = RequestProperty::parse(parser.slice(span));
        let w0 = property.hash[0];
        if w0 == KEY_ACCOUNT_ID && !property.is_ref {
            match read_text(parser) {
                Err(e) => Err(e),
                Ok(t) => {
                    request.account_id = Id { text: t };
                    Ok(request)
                },
            }
        } else if w0 == KEY_IDS {
            match parse_list_or_reference::<Id>(parser, property.is_ref) {
                Err(e) => Err(e),
                Ok(l) => {
                    request.ids = l;
                    Ok(request)
                },
            }
        } else if w0 == KEY_PROPERTIES {
            match parse_list_or_reference::<Property>(parser, property.is_ref) {
                Err(e) => Err(e),
                Ok(l) => {
                    request.properties = l;
                    Ok(request)
                },
            }
        } else {
            match request.arguments.parse(parser, property) {
                Err(e) => Err(e),
                Ok(true) => Ok(request),
                Ok(false) => {
                    let floor_array = parser.depth_array;
                    let floor_dict = parser.depth_dict;
                    match parser.skip_token(floor_array, floor_dict) {
                        Err(e) => Err(e),
                        Ok(_) => Ok(request),
                    }
                },
            }
        }
    }

    /// Reads the arguments of a `get` call on objects of the type that the
    /// parser holds as its context.
    pub fn parse(parser: &mut Parser) -> (request: Result<GetRequest, Error>)
        requires
            old(parser).wf(),
        ensures
            final(parser).wf(),
            final(parser).same_input(old(parser)),
            old(parser).pos <= final(parser).pos,
            (result_view(request), final(parser).cursor()) == get_spec(
                old(parser).bytes@,
                old(parser).cursor(),
                old(parser).ctx,
            ),
    {
        let ghost bytes = parser.bytes@;
        let ghost whole = get_spec(bytes, parser.cursor(), parser.ctx);
        let ghost step = get_member(bytes);
        let arguments = match parser.ctx {
            MethodObject::Email => RequestArguments::Email(email::GetArguments::new()),
            MethodObject::Mailbox => RequestArguments::Mailbox,
            MethodObject::Thread => RequestArguments::Thread,
            MethodObject::Identity => RequestArguments::Identity,
            MethodObject::EmailSubmission => RequestArguments::EmailSubmission,
            MethodObject::PushSubscription => RequestArguments::PushSubscription,
            MethodObject::SieveScript => RequestArguments::SieveScript,
            MethodObject::VacationResponse => RequestArguments::VacationResponse,
            MethodObject::Principal => RequestArguments::Principal,
            _ => {
                return Err(
                    Error::Method(
                        MethodError::UnknownMethod(
                            String::from_str(parser.ctx.name()).concat("/get"),
                        ),
                    ),
                );
            },
        };
        let mut request = GetRequest {
            arguments,
            account_id: Id::default(),
            ids: None,
            properties: None,
        };
        match parser.expect(Token::DictStart, true) {
            Err(e) => {
                return Err(e);
            },
            Ok(_) => {},
        }
        loop
            invariant
                parser.wf(),
                parser.same_input(old(parser)),
                old(parser).pos <= parser.pos,
                bytes == parser.bytes@,
                step == get_member(bytes),
                whole == get_spec(bytes, old(parser).cursor(), old(parser).ctx),
                whole == members(bytes, parser.cursor(), request@, step, Token::DictEnd),
            decreases parser.bytes.len() - parser.pos,
        {
            match request.member(parser) {
                Err(e) => {
                    return Err(e);
                },
                Ok(next) => {
                    request = next;
                },
            }
            proof {
                lemma_next_token(bytes, parser.cursor());
            }
            match parser.is_dict_end() {
                Err(e) => {
                    return Err(e);
                },
                Ok(true) => {
                    return Ok(request);
                },
                Ok(false) => {},
            }
        }
    }
}

} // verus!
