//! Arguments of the methods on mailboxes.

use crate::error::Error;
use crate::json::{bool_or_null_spec, Cursor, Parsed, Parser};
use crate::object::email::{handled, updated};
use crate::request::RequestProperty;
use vstd::prelude::*;

verus! {

/// What only `Mailbox/set` takes.
#[derive(Clone, Copy, Debug)]
pub struct SetArguments {
    pub on_destroy_remove_emails: Option<bool>,
}

/// What only `Mailbox/query` takes.
#[derive(Clone, Copy, Debug)]
pub struct QueryArguments {
    pub sort_as_tree: Option<bool>,
    pub filter_as_tree: Option<bool>,
}

impl View for SetArguments {
    type V = SetArguments;

    open spec fn view(&self) -> SetArguments {
        *self
    }
}

impl View for QueryArguments {
    type V = QueryArguments;

    open spec fn view(&self) -> QueryArguments {
        *self
    }
}

/// `onDestroyRemoveE`, with `mails` in the next word.
pub const KEY_ON_DESTROY_REMOVE_EMAILS: u128 = 0x6565_766f_6d65_7279_6f72_7473_6564_6e6f;

/// `mails`
pub const KEY_TAIL_MAILS: u128 = 0x73_6c69_616d;

/// `sortAsTree`
pub const KEY_SORT_AS_TREE: u128 = 0x6565_7274_7361_7472_6f73;

/// `filterAsTree`
pub const KEY_FILTER_AS_TREE: u128 = 0x6565_7274_7361_7265_746c_6966;

/// Reading the value of the argument of `Mailbox/set` whose key packs to
/// the words `w0` and `w1`.
pub open spec fn set_arguments_spec(
    bytes: Seq<u8>,
    c: Cursor,
    w0: nat,
    w1: nat,
    args: SetArguments,
) -> Parsed<(bool, SetArguments)> {
    if w0 == KEY_ON_DESTROY_REMOVE_EMAILS && w1 == KEY_TAIL_MAILS {
        let (value, c1) = bool_or_null_spec(bytes, c);
        match value {
            Err(e) => (Err(e), c1),
            Ok(v) => (Ok((true, SetArguments { on_destroy_remove_emails: v })), c1),
        }
    } else {
        (Ok((false, args)), c)
    }
}

/// Reading the value of the argument of `Mailbox/query` whose key packs to
/// `w0`.
pub open spec fn query_arguments_spec(bytes: Seq<u8>, c: Cursor, w0: nat, args: QueryArguments) -> Parsed<
    (bool, QueryArguments),
> {
    if w0 == KEY_SORT_AS_TREE {
        let (value, c1) = bool_or_null_spec(bytes, c);
        match value {
            Err(e) => (Err(e), c1),
            Ok(v) => (Ok((true, QueryArguments { sort_as_tree: v, ..args })), c1),
        }
    } else if w0 == KEY_FILTER_AS_TREE {
        let (value, c1) = bool_or_null_spec(bytes, c);
        match value {
            Err(e) => (Err(e), c1),
            Ok(v) => (Ok((true, QueryArguments { filter_as_tree: v, ..args })), c1),
        }
    } else {
        (Ok((false, args)), c)
    }
}

impl SetArguments {
    /// The arguments with none set.
    pub fn new() -> (args: SetArguments)
        ensures
            args == (SetArguments { on_destroy_remove_emails: None }),
    {
        SetArguments { on_destroy_remove_emails: None }
    }

    /// Reads the value of `property` if it is an argument of `Mailbox/set`,
    /// and says whether it is.
    pub fn parse(&mut self, parser: &mut Parser, property: RequestProperty) -> (known: Result<
        bool,
        Error,
    >)
        requires
            old(parser).wf(),
        ensures
            final(parser).wf(),
            final(parser).same_input(old(parser)),
            old(parser).pos <= final(parser).pos,
            ({
                let read = set_arguments_spec(
                    old(parser).bytes@,
                    old(parser).cursor(),
                    property.word(0),
                    property.word(1),
                    *old(self),
                );
                &&& crate::error::result_view(known) == handled(read.0)
                &&& final(parser).cursor() == read.1
                &&& *final(self) == updated(read.0, *old(self))
            }),
    {
        if property.hash[0] == KEY_ON_DESTROY_REMOVE_EMAILS && property.hash[1] == KEY_TAIL_MAILS {
            match parser.next_bool_or_null() {
                Err(e) => Err(e),
                Ok(v) => {
                    self.on_destroy_remove_emails = v;
                    Ok(true)
                },
            }
        } else {
            Ok(false)
        }
    }
}

impl QueryArguments {
    /// The arguments with none set.
    pub fn new() -> (args: QueryArguments)
        ensures
            args == (QueryArguments { sort_as_tree: None, filter_as_tree: None }),
    {
        QueryArguments { sort_as_tree: None, filter_as_tree: None }
    }

    /// Reads the value of `property` if it is an argument of
    /// `Mailbox/query`, and says whether it is.
    pub fn parse(&mut self, parser: &mut Parser, property: RequestProperty) -> (known: Result<
        bool,
        Error,
    >)
        requires
            old(parser).wf(),
        ensures
            final(parser).wf(),
            final(parser).same_input(old(parser)),
            old(parser).pos <= final(parser).pos,
            ({
                let read = query_arguments_spec(
                    old(parser).bytes@,
                    old(parser).cursor(),
                    property.word(0),
                    *old(self),
                );
                &&& crate::error::result_view(known) == handled(read.0)
                &&& final(parser).cursor() == read.1
                &&& *final(self) == updated(read.0, *old(self))
            }),
    {
        let w0 = property.hash[0];
        if w0 == KEY_SORT_AS_TREE {
            match parser.next_bool_or_null() {
                Err(e) => Err(e),
                Ok(v) => {
                    self.sort_as_tree = v;
                    Ok(true)
                },
            }
        } else if w0 == KEY_FILTER_AS_TREE {
            match parser.next_bool_or_null() {
                Err(e) => Err(e),
                Ok(v) => {
                    self.filter_as_tree = v;
                    Ok(true)
                },
            }
        } else {
            Ok(false)
        }
    }
}

} // verus!
