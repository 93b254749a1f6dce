//! The arguments of the calls of which the parser reads the account and
//! what the object type adds, and reads over the rest.

use crate::error::{result_view, Error};
use crate::json::{
    expect_spec, lemma_next_token, members, next_dict_key_spec, skip_token_spec, span_bytes,
    Cursor, Parsed, Parser, Token,
};
use crate::method::get::KEY_ACCOUNT_ID;
use crate::object::email::{handled, updated};
use crate::object::{email, mailbox};
use crate::request::method::{MethodFunction, MethodObject};
use crate::request::{is_reference_key, key_word, RequestProperty};
use crate::types::{read_text, read_text_spec, Id};
use vstd::prelude::*;

verus! {

/// What a call takes for its object type.
#[derive(Clone, Copy, Debug)]
pub enum ObjectArguments {
    /// The method takes nothing more for this object type.
    Plain,
    EmailQuery(email::QueryArguments),
    MailboxQuery(mailbox::QueryArguments),
    MailboxSet(mailbox::SetArguments),
}

/// The arguments of a call: the account, and what the object type adds.
#[derive(Clone, Debug)]
pub struct AccountRequest {
    pub account_id: Id,
    pub arguments: ObjectArguments,
}

pub type QueryRequest = AccountRequest;

pub type SetRequest = AccountRequest;

pub type ChangesRequest = AccountRequest;

pub type QueryChangesRequest = AccountRequest;

pub type CopyRequest = AccountRequest;

pub type CopyBlobRequest = AccountRequest;

pub type ImportEmailRequest = AccountRequest;

pub type ParseEmailRequest = AccountRequest;

pub type ValidateSieveScriptRequest = AccountRequest;

/// The mathematical value of an [`AccountRequest`].
pub struct AccountRequestView {
    pub account_id: Seq<char>,
    pub arguments: ObjectArguments,
}

impl View for AccountRequest {
    type V = AccountRequestView;

    open spec fn view(&self) -> AccountRequestView {
        AccountRequestView { account_id: self.account_id@, arguments: self.arguments }
    }
}

/// The arguments by object type with which reading a call of `fnc` on
/// `ctx` starts.
pub open spec fn initial_object_arguments(fnc: MethodFunction, ctx: MethodObject) -> ObjectArguments {
    if fnc == MethodFunction::Query && ctx == MethodObject::Email {
        ObjectArguments::EmailQuery(email::QueryArguments { collapse_threads: None })
    } else if fnc == MethodFunction::Query && ctx == MethodObject::Mailbox {
        ObjectArguments::MailboxQuery(
            mailbox::QueryArguments { sort_as_tree: None, filter_as_tree: None },
        )
    } else if fnc == MethodFunction::Modify && ctx == MethodObject::Mailbox {
        ObjectArguments::MailboxSet(mailbox::SetArguments { on_destroy_remove_emails: None })
    } else {
        ObjectArguments::Plain
    }
}

/// Reading the value of an argument by object type.
pub open spec fn object_arguments_spec(
    bytes: Seq<u8>,
    c: Cursor,
    w0: nat,
    w1: nat,
    args: ObjectArguments,
) -> Parsed<(bool, ObjectArguments)> {
    match args {
        ObjectArguments::Plain => (Ok((false, args)), c),
        ObjectArguments::EmailQuery(a) => {
            let (read, c1) = email::query_arguments_spec(bytes, c, w0, a);
            match read {
                Err(e) => (Err(e), c1),
                Ok((known, a)) => (Ok((known, ObjectArguments::EmailQuery(a))), c1),
            }
        },
        ObjectArguments::MailboxQuery(a) => {
            let (read, c1) = mailbox::query_arguments_spec(bytes, c, w0, a);
            match read {
                Err(e) => (Err(e), c1),
                Ok((known, a)) => (Ok((known, ObjectArguments::MailboxQuery(a))), c1),
            }
        },
        ObjectArguments::MailboxSet(a) => {
            let (read, c1) = mailbox::set_arguments_spec(bytes, c, w0, w1, a);
            match read {
                Err(e) => (Err(e), c1),
                Ok((known, a)) => (Ok((known, ObjectArguments::MailboxSet(a))), c1),
            }
        },
    }
}

/// Reading one member of the arguments: `accountId`, an argument of the
/// object type, or a member that is read over.
pub open spec fn account_member(bytes: Seq<u8>) -> spec_fn(
    Cursor,
    AccountRequestView,
) -> Parsed<AccountRequestView> {
    |c: Cursor, acc: AccountRequestView|
        {
            let (key, c1) = next_dict_key_spec(bytes, c);
            match key {
                Err(e) => (Err(e), c1),
                Ok(span) => {
                    let content = span_bytes(bytes, span);
                    let w0 = key_word(content, 0);
                    if w0 == KEY_ACCOUNT_ID && !is_reference_key(content) {
                        let (text, c2) = read_text_spec(bytes, c1);
                        match text {
                            Err(e) => (Err(e), c2),
                            Ok(t) => (Ok(AccountRequestView { account_id: t, ..acc }), c2),
                        }
                    } else {
                        let (read, c2) = object_arguments_spec(
                            bytes,
                            c1,
                            w0,
                            key_word(content, 1),
                            acc.arguments,
                        );
                        match read {
                            Err(e) => (Err(e), c2),
                            Ok((true, args)) => (
                                Ok(AccountRequestView { arguments: args, ..acc }),
                                c2,
                            ),
                            Ok((false, _)) => {
                                let (skipped, c3) = skip_token_spec(
                                    bytes,
                                    c2,
                                    c2.depth_array,
                                    c2.depth_dict,
                                );
                                match skipped {
                                    Err(e) => (Err(e), c3),
                                    Ok(_) => (Ok(acc), c3),
                                }
                            },
                        }
                    }
                },
            }
        }
}

/// Reading the arguments of a call of `fnc` on objects of type `ctx`.
/// Arguments that are not an object are no request.
pub open spec fn account_spec(
    bytes: Seq<u8>,
    c: Cursor,
    fnc: MethodFunction,
    ctx: MethodObject,
) -> Parsed<AccountRequestView> {
    let (open, c1) = expect_spec(bytes, c, Token::DictStart, true);
    match open {
        Err(e) => (Err(e), c1),
        Ok(_) => members(
            bytes,
            c1,
            AccountRequestView {
                account_id: Seq::empty(),
                arguments: initial_object_arguments(fnc, ctx),
            },
            account_member(bytes),
            Token::DictEnd,
        ),
    }
}

impl ObjectArguments {
    /// The arguments with which reading a call of `fnc` on `ctx` starts.
    pub fn new(fnc: MethodFunction, ctx: MethodObject) -> (args: ObjectArguments)
        ensures
            args == initial_object_arguments(fnc, ctx),
    {
        match (fnc, ctx) {
            (MethodFunction::Query, MethodObject::Email) => ObjectArguments::EmailQuery(
                email::QueryArguments::new(),
            ),
            (MethodFunction::Query, MethodObject::Mailbox) => ObjectArguments::MailboxQuery(
                mailbox::QueryArguments::new(),
            ),
            (MethodFunction::Modify, MethodObject::Mailbox) => ObjectArguments::MailboxSet(
                mailbox::SetArguments::new(),
            ),
            _ => ObjectArguments::Plain,
        }
    }

    /// Reads the value of `property` if it is an argument of the object
    /// type, and says whether it is.
    pub fn parse(&mut self, parser: &mut Parser, property: RequestProperty) -> (known: Result<
        bool,
        Error,
    >)
        requires
            old(parser).wf(),
        ensures
            final(parser).wf(),
            final(parser).same_input(old(parser)),
            old(parser).pos <= final(parser).pos,
            ({
                let read = object_arguments_spec(
                    old(parser).bytes@,
                    old(parser).cursor(),
                    property.word(0),
                    property.word(1),
                    *old(self),
                );
                &&& result_view(known) == handled(read.0)
                &&& final(parser).cursor() == read.1
                &&& *final(self) == updated(read.0, *old(self))
            }),
    {
        match *self {
            ObjectArguments::Plain => Ok(false),
            ObjectArguments::EmailQuery(a) => {
                let mut a = a;
                let known = a.parse(parser, property);
                *self = ObjectArguments::EmailQuery(a);
                known
            },
            ObjectArguments::MailboxQuery(a) => {
                let mut a = a;
                let known = a.parse(parser, property);
                *self = ObjectArguments::MailboxQuery(a);
                known
            },
            ObjectArguments::MailboxSet(a) => {
                let mut a = a;
                let known = a.parse(parser, property);
                *self = ObjectArguments::MailboxSet(a);
                known
            },
        }
    }
}

impl AccountRequest {
    /// Reads one member of the arguments.
    pub fn member(self, parser: &mut Parser) -> (request: Result<AccountRequest, Error>)
        requires
            old(parser).wf(),
        ensures
            final(parser).wf(),
            final(parser).same_input(old(parser)),
            old(parser).pos <= final(parser).pos,
            request is Ok ==> old(parser).pos < final(parser).pos,
            (result_view(request), final(parser).cursor()) == account_member(old(parser).bytes@)(
                old(parser).cursor(),
                self@,
            ),
    {
        let mut request = self;
        let span = match parser.next_dict_key() {
            Err(e) => {
                return Err(e);
            },
            Ok(span) => span,
        };
        let property = RequestProperty::parse(parser.slice(span));
        if property.hash[0] == KEY_ACCOUNT_ID && !property.is_ref {
            match read_text(parser) {
                Err(e) => Err(e),
                Ok(t) => {
                    request.account_id = Id { text: t };
                    Ok(request)
                },
            }
        } else {
            match request.arguments.parse(parser, property) {
                Err(e) => Err(e),
                Ok(true) => Ok(request),
                Ok(false) => {
                    let floor_array = parser.depth_array;
                    let floor_dict = parser.depth_dict;
                    match parser.skip_token(floor_array, floor_dict) {
                        Err(e) => Err(e),
                        Ok(_) => Ok(request),
                    }
                },
            }
        }
    }

    /// Reads the arguments of a call of `fnc` on objects of the type that
    /// the parser holds as its context.
    pub fn parse(parser: &mut Parser, fnc: MethodFunction) -> (request: Result<
        AccountRequest,
        Error,
    >)
        requires
            old(parser).wf(),
        ensures
            final(parser).wf(),
            final(parser).same_input(old(parser)),
            old(parser).pos <= final(parser).pos,
            (result_view(request), final(parser).cursor()) == account_spec(
                old(parser).bytes@,
                old(parser).cursor(),
                fnc,
                old(parser).ctx,
            ),
    {
        let ghost bytes = parser.bytes@;
        let ghost whole = account_spec(bytes, parser.cursor(), fnc, parser.ctx);
        let ghost step = account_member(bytes);
        let mut request = AccountRequest {
            account_id: Id::default(),
            arguments: ObjectArguments::new(fnc, parser.ctx),
        };
        match parser.expect(Token::DictStart, true) {
            Err(e) => {
                return Err(e);
            },
            Ok(_) => {},
        }
        loop
            invariant
                parser.wf(),
                parser.same_input(old(parser)),
                old(parser).pos <= parser.pos,
                bytes == parser.bytes@,
                step == account_member(bytes),
                whole == account_spec(bytes, old(parser).cursor(), fnc, old(parser).ctx),
                whole == members(bytes, parser.cursor(), request@, step, Token::DictEnd),
            decreases parser.bytes.len() - parser.pos,
        {
            match request.member(parser) {
                Err(e) => {
                    return Err(e);
                },
                Ok(next) => {
                    request = next;
                },
            }
            proof {
                lemma_next_token(bytes, parser.cursor());
            }
            match parser.is_dict_end() {
                Err(e) => {
                    return Err(e);
                },
                Ok(true) => {
                    return Ok(request);
                },
                Ok(false) => {},
            }
        }
    }
}

} // verus!
