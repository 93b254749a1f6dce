//! Arguments of the methods on emails.

use crate::error::{Error, ErrorView};
use crate::json::{bool_or_null_spec, usize_or_null_spec, Cursor, Parsed, Parser};
use crate::request::RequestProperty;
use crate::types::{list_view, parse_text_list, text_list_spec, texts, Property};
use vstd::prelude::*;

verus! {

/// What only `Email/get` takes.
#[derive(Clone, Debug)]
pub struct GetArguments {
    pub body_properties: Option<Vec<Property>>,
    pub fetch_text_body_values: Option<bool>,
    pub fetch_html_body_values: Option<bool>,
    pub fetch_all_body_values: Option<bool>,
    pub max_body_value_bytes: Option<usize>,
}

/// What only `Email/query` takes.
#[derive(Clone, Copy, Debug)]
pub struct QueryArguments {
    pub collapse_threads: Option<bool>,
}

/// The mathematical value of [`GetArguments`].
pub struct GetArgumentsView {
    pub body_properties: Option<Seq<Seq<char>>>,
    pub fetch_text_body_values: Option<bool>,
    pub fetch_html_body_values: Option<bool>,
    pub fetch_all_body_values: Option<bool>,
    pub max_body_value_bytes: Option<usize>,
}

impl View for GetArguments {
    type V = GetArgumentsView;

    open spec fn view(&self) -> GetArgumentsView {
        GetArgumentsView {
            body_properties: match self.body_properties {
                Some(list) => Some(texts(list@)),
                None => None,
            },
            fetch_text_body_values: self.fetch_text_body_values,
            fetch_html_body_values: self.fetch_html_body_values,
            fetch_all_body_values: self.fetch_all_body_values,
            max_body_value_bytes: self.max_body_value_bytes,
        }
    }
}

impl View for QueryArguments {
    type V = QueryArguments;

    open spec fn view(&self) -> QueryArguments {
        *self
    }
}

/// `bodyProperties`
pub const KEY_BODY_PROPERTIES: u128 = 0x7365_6974_7265_706f_7270_7964_6f62;

/// `fetchTextBodyVal`, with `ues` in the next word.
pub const KEY_FETCH_TEXT_BODY_VALUES: u128 = 0x6c61_7679_646f_6274_7865_7468_6374_6566;

/// `fetchHTMLBodyVal`, with `ues` in the next word.
pub const KEY_FETCH_HTML_BODY_VALUES: u128 = 0x6c61_7679_646f_626c_6d74_6868_6374_6566;

/// `ues`
pub const KEY_TAIL_UES: u128 = 0x73_6575;

/// `fetchAllBodyValu`, with `es` in the next word.
pub const KEY_FETCH_ALL_BODY_VALUES: u128 = 0x756c_6176_7964_6f62_6c6c_6168_6374_6566;

/// `es`
pub const KEY_TAIL_ES: u128 = 0x7365;

/// `maxBodyValueByte`, with `s` in the next word.
pub const KEY_MAX_BODY_VALUE_BYTES: u128 = 0x6574_7962_6575_6c61_7679_646f_6278_616d;

/// `s`
pub const KEY_TAIL_S: u128 = 0x73;

/// `collapseThreads`
pub const KEY_COLLAPSE_THREADS: u128 = 0x73_6461_6572_6874_6573_7061_6c6c_6f63;

/// The arguments that no `Email/get` call has set.
pub open spec fn no_get_arguments() -> GetArgumentsView {
    GetArgumentsView {
        body_properties: None,
        fetch_text_body_values: None,
        fetch_html_body_values: None,
        fetch_all_body_values: None,
        max_body_value_bytes: None,
    }
}

/// Reading the value of the argument of `Email/get` whose key packs to the
/// words `w0` and `w1`. The result says whether the key is such an
/// argument, and gives the arguments with it set; for another key nothing
/// is read.
pub open spec fn get_arguments_spec(
    bytes: Seq<u8>,
    c: Cursor,
    w0: nat,
    w1: nat,
    args: GetArgumentsView,
) -> Parsed<(bool, GetArgumentsView)> {
    if w0 == KEY_BODY_PROPERTIES {
        let (list, c1) = text_list_spec(bytes, c);
        match list {
            Err(e) => (Err(e), c1),
            Ok(l) => (Ok((true, GetArgumentsView { body_properties: l, ..args })), c1),
        }
    } else if w0 == KEY_FETCH_TEXT_BODY_VALUES && w1 == KEY_TAIL_UES {
        let (value, c1) = bool_or_null_spec(bytes, c);
        match value {
            Err(e) => (Err(e), c1),
            Ok(v) => (Ok((true, GetArgumentsView { fetch_text_body_values: v, ..args })), c1),
        }
    } else if w0 == KEY_FETCH_HTML_BODY_VALUES && w1 == KEY_TAIL_UES {
        let (value, c1) = bool_or_null_spec(bytes, c);
        match value {
            Err(e) => (Err(e), c1),
            Ok(v) => (Ok((true, GetArgumentsView { fetch_html_body_values: v, ..args })), c1),
        }
    } else if w0 == KEY_FETCH_ALL_BODY_VALUES && w1 == KEY_TAIL_ES {
        let (value, c1) = bool_or_null_spec(bytes, c);
        match value {
            Err(e) => (Err(e), c1),
            Ok(v) => (Ok((true, GetArgumentsView { fetch_all_body_values: v, ..args })), c1),
        }
    } else if w0 == KEY_MAX_BODY_VALUE_BYTES && w1 == KEY_TAIL_S {
        let (value, c1) = usize_or_null_spec(bytes, c);
        match value {
            Err(e) => (Err(e), c1),
            Ok(v) => (Ok((true, GetArgumentsView { max_body_value_bytes: v, ..args })), c1),
        }
    } else {
        (Ok((false, args)), c)
    }
}

/// Reading the value of the argument of `Email/query` whose key packs to
/// `w0`.
pub open spec fn query_arguments_spec(bytes: Seq<u8>, c: Cursor, w0: nat, args: QueryArguments) -> Parsed<
    (bool, QueryArguments),
> {
    if w0 == KEY_COLLAPSE_THREADS {
        let (value, c1) = bool_or_null_spec(bytes, c);
        match value {
            Err(e) => (Err(e), c1),
            Ok(v) => (Ok((true, QueryArguments { collapse_threads: v })), c1),
        }
    } else {
        (Ok((false, args)), c)
    }
}

/// What the caller of an argument reader sees: whether the key was an
/// argument, or the error.
pub open spec fn handled<V>(read: Result<(bool, V), ErrorView>) -> Result<bool, ErrorView> {
    match read {
        Ok((known, _)) => Ok(known),
        Err(e) => Err(e),
    }
}

/// The arguments after an argument reader ran: with the argument set, or,
/// after an error, as they were.
pub open spec fn updated<V>(read: Result<(bool, V), ErrorView>, before: V) -> V {
    match read {
        Ok((_, args)) => args,
        Err(_) => before,
    }
}

impl GetArguments {
    /// The arguments with none set.
    pub fn new() -> (args: GetArguments)
        ensures
            args@ == no_get_arguments(),
    {
        GetArguments {
            body_properties: None,
            fetch_text_body_values: None,
            fetch_html_body_values: None,
            fetch_all_body_values: None,
            max_body_value_bytes: None,
        }
    }

    /// Reads the value of `property` if it is an argument of `Email/get`,
    /// and says whether it is.
    pub fn parse(&mut self, parser: &mut Parser, property: RequestProperty) -> (known: Result<
        bool,
        Error,
    >)
        requires
            old(parser).wf(),
        ensures
            final(parser).wf(),
            final(parser).same_input(old(parser)),
            old(parser).pos <= final(parser).pos,
            ({
                let read = get_arguments_spec(
                    old(parser).bytes@,
                    old(parser).cursor(),
                    property.word(0),
                    property.word(1),
                    old(self)@,
                );
                &&& crate::error::result_view(known) == handled(read.0)
                &&& final(parser).cursor() == read.1
                &&& final(self)@ == updated(read.0, old(self)@)
            }),
    {
        let w0 = property.hash[0];
        let w1 = property.hash[1];
        if w0 == KEY_BODY_PROPERTIES {
            match parse_text_list::<Property>(parser) {
                Err(e) => {
                    return Err(e);
                },
                Ok(list) => {
                    self.body_properties = list;
                },
            }
        } else if w0 == KEY_FETCH_TEXT_BODY_VALUES && w1 == KEY_TAIL_UES {
            match parser.next_bool_or_null() {
                Err(e) => {
                    return Err(e);
                },
                Ok(v) => {
                    self.fetch_text_body_values = v;
                },
            }
        } else if w0 == KEY_FETCH_HTML_BODY_VALUES && w1 == KEY_TAIL_UES {
            match parser.next_bool_or_null() {
                Err(e) => {
                    return Err(e);
                },
                Ok(v) => {
                    self.fetch_html_body_values = v;
                },
            }
        } else if w0 == KEY_FETCH_ALL_BODY_VALUES && w1 == KEY_TAIL_ES {
            match parser.next_bool_or_null() {
                Err(e) => {
                    return Err(e);
                },
                Ok(v) => {
                    self.fetch_all_body_values = v;
                },
            }
        } else if w0 == KEY_MAX_BODY_VALUE_BYTES && w1 == KEY_TAIL_S {
            match parser.next_usize_or_null() {
                Err(e) => {
                    return Err(e);
                },
                Ok(v) => {
                    self.max_body_value_bytes = v;
                },
            }
        } else {
            return Ok(false);
        }
        Ok(true)
    }
}

impl QueryArguments {
    /// The arguments with none set.
    pub fn new() -> (args: QueryArguments)
        ensures
            args == (QueryArguments { collapse_threads: None }),
    {
        QueryArguments { collapse_threads: None }
    }

    /// Reads the value of `property` if it is an argument of `Email/query`,
    /// and says whether it is.
    pub fn parse(&mut self, parser: &mut Parser, property: RequestProperty) -> (known: Result<
        bool,
        Error,
    >)
        requires
            old(parser).wf(),
        ensures
            final(parser).wf(),
            final(parser).same_input(old(parser)),
            old(parser).pos <= final(parser).pos,
            ({
                let read = query_arguments_spec(
                    old(parser).bytes@,
                    old(parser).cursor(),
                    property.word(0),
                    *old(self),
                );
                &&& crate::error::result_view(known) == handled(read.0)
                &&& final(parser).cursor() == read.1
                &&& *final(self) == updated(read.0, *old(self))
            }),
    {
        if property.hash[0] == KEY_COLLAPSE_THREADS {
            match parser.next_bool_or_null() {
                Err(e) => Err(e),
                Ok(v) => {
                    self.collapse_threads = v;
                    Ok(true)
                },
            }
        } else {
            Ok(false)
        }
    }
}

} // verus!
