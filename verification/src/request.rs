//! The request envelope and the parts it is made of.

use crate::error::{MethodError, MethodErrorView};
use crate::keys::{
    lemma_first_word, lemma_key_hash_unique, lower_all, no_zero, pack, pack_word, word_bytes,
};
use crate::method::account::{
    AccountRequestView, ChangesRequest, CopyBlobRequest, CopyRequest, ImportEmailRequest,
    ParseEmailRequest, QueryChangesRequest, QueryRequest, SetRequest,
    ValidateSieveScriptRequest,
};
use crate::method::get::{GetRequest, GetRequestView};
use crate::request::echo::Echo;
use crate::types::Id;
use vstd::prelude::*;
use vstd::slice::slice_subrange;

pub mod capability;
pub mod echo;
pub mod method;
pub mod parser;
pub mod reference;

verus! {

/// The key of an argument, packed: four words of sixteen bytes each, in
/// lower case, and whether the key marks its value as a reference to the
/// result of an earlier call.
#[derive(Clone, Copy, Debug)]
pub struct RequestProperty {
    pub hash: [u128; 4],
    pub is_ref: bool,
}

/// Whether a key marks its value as a reference: it ends in `#`.
pub open spec fn is_reference_key(content: Seq<u8>) -> bool {
    content.len() > 0 && content.last() == 35
}

/// The name in a key: the key without the mark of a reference.
pub open spec fn key_name(content: Seq<u8>) -> Seq<u8> {
    if is_reference_key(content) {
        content.drop_last()
    } else {
        content
    }
}

/// Word `w` of the packed name of a key. A name of more than sixty-four
/// bytes packs to zero in every word, which is no known name.
pub open spec fn key_word(content: Seq<u8>, w: int) -> nat {
    if key_name(content).len() <= 64 {
        pack(word_bytes(lower_all(key_name(content)), w))
    } else {
        0
    }
}

/// The packed form of a key of at most sixteen bytes, in lower case. A
/// longer key packs to zero, which is no known key.
pub open spec fn short_key(content: Seq<u8>) -> nat {
    if content.len() <= 16 {
        pack(lower_all(content))
    } else {
        0
    }
}

/// Two keys of at most sixteen bytes, neither with a zero byte in it, that
/// pack to the same value are the same key up to case: no known key is
/// taken for another.
pub proof fn lemma_short_key_unique(a: Seq<u8>, b: Seq<u8>)
    requires
        a.len() <= 16,
        b.len() <= 16,
        no_zero(a),
        no_zero(b),
        short_key(a) == short_key(b),
    ensures
        lower_all(a) == lower_all(b),
{
    lemma_key_hash_unique(a, b);
}

/// Packs a key of at most sixteen bytes.
pub fn pack_key(content: &[u8]) -> (h: u128)
    ensures
        h == short_key(content@),
{
    if content.len() <= 16 {
        proof {
            lemma_first_word(lower_all(content@));
        }
        pack_word(content, 0, true)
    } else {
        0
    }
}

impl RequestProperty {
    /// Word `w` of the packed name.
    pub open spec fn word(&self, w: int) -> nat {
        self.hash[w] as nat
    }

    /// The property is the one that the key `content` names.
    pub open spec fn names(&self, content: Seq<u8>) -> bool {
        &&& self.is_ref == is_reference_key(content)
        &&& forall|w: int| 0 <= w < 4 ==> self.word(w) == key_word(content, w)
    }

    /// Packs the key `content`.
    pub fn parse(content: &[u8]) -> (property: RequestProperty)
        ensures
            property.names(content@),
    {
        let len = content.len();
        let is_ref = len > 0 && content[len - 1] == 35;
        let name = if is_ref {
            slice_subrange(content, 0, len - 1)
        } else {
            content
        };
        proof {
            assert(name@ =~= key_name(content@));
        }
        if name.len() <= 64 {
            let hash = [
                pack_word(name, 0, true),
                pack_word(name, 1, true),
                pack_word(name, 2, true),
                pack_word(name, 3, true),
            ];
            RequestProperty { hash, is_ref }
        } else {
            RequestProperty { hash: [0, 0, 0, 0], is_ref }
        }
    }
}

/// A method call with its arguments read, or the error that reading them
/// met.
#[derive(Clone, Debug)]
pub enum RequestMethod {
    Get(GetRequest),
    Query(QueryRequest),
    /// A call of a `set` method.
    Modify(SetRequest),
    Changes(ChangesRequest),
    QueryChanges(QueryChangesRequest),
    Copy(CopyRequest),
    CopyBlob(CopyBlobRequest),
    ImportEmail(ImportEmailRequest),
    ParseEmail(ParseEmailRequest),
    ValidateScript(ValidateSieveScriptRequest),
    Echo(Echo),
    Error(MethodError),
}

/// One call of a request: the identifier that the client gave it, and the
/// method.
#[derive(Clone, Debug)]
pub struct Call {
    pub id: String,
    pub method: RequestMethod,
}

/// The identifiers that the server gave to objects which the client made
/// under identifiers of its own, by the client's identifier. A later entry
/// for an identifier replaces an earlier one.
#[derive(Clone, Debug)]
pub struct CreatedIds {
    pub entries: Vec<(String, Id)>,
}

/// A request: the capabilities that the client uses, as a set of bits, the
/// calls in the order in which they are to run, and the created identifiers
/// if the request carries any.
#[derive(Clone, Debug)]
pub struct Request {
    pub using: u32,
    pub method_calls: Vec<Call>,
    pub created_ids: Option<CreatedIds>,
}

/// The mathematical value of a [`RequestMethod`].
pub enum RequestMethodView {
    Get(GetRequestView),
    Query(AccountRequestView),
    Modify(AccountRequestView),
    Changes(AccountRequestView),
    QueryChanges(AccountRequestView),
    Copy(AccountRequestView),
    CopyBlob(AccountRequestView),
    ImportEmail(AccountRequestView),
    ParseEmail(AccountRequestView),
    ValidateScript(AccountRequestView),
    Echo(Seq<u8>),
    Error(MethodErrorView),
}

/// The mathematical value of a [`Call`].
pub struct CallView {
    pub id: Seq<char>,
    pub method: RequestMethodView,
}

/// The mathematical value of a [`Request`].
pub struct RequestView {
    pub using: u32,
    pub method_calls: Seq<CallView>,
    pub created_ids: Option<Map<Seq<char>, Seq<char>>>,
}

impl View for RequestMethod {
    type V = RequestMethodView;

    open spec fn view(&self) -> RequestMethodView {
        match self {
            RequestMethod::Get(r) => RequestMethodView::Get(r@),
            RequestMethod::Query(r) => RequestMethodView::Query(r@),
            RequestMethod::Modify(r) => RequestMethodView::Modify(r@),
            RequestMethod::Changes(r) => RequestMethodView::Changes(r@),
            RequestMethod::QueryChanges(r) => RequestMethodView::QueryChanges(r@),
            RequestMethod::Copy(r) => RequestMethodView::Copy(r@),
            RequestMethod::CopyBlob(r) => RequestMethodView::CopyBlob(r@),
            RequestMethod::ImportEmail(r) => RequestMethodView::ImportEmail(r@),
            RequestMethod::ParseEmail(r) => RequestMethodView::ParseEmail(r@),
            RequestMethod::ValidateScript(r) => RequestMethodView::ValidateScript(r@),
            RequestMethod::Echo(e) => RequestMethodView::Echo(e@),
            RequestMethod::Error(e) => RequestMethodView::Error(e@),
        }
    }
}

impl View for Call {
    type V = CallView;

    open spec fn view(&self) -> CallView {
        CallView { id: self.id@, method: self.method@ }
    }
}

/// The calls of a list, in order.
pub open spec fn calls_view(calls: Seq<Call>) -> Seq<CallView> {
    Seq::new(calls.len(), |i: int| calls[i]@)
}

/// The map that a list of entries stands for: each entry in turn is put
/// into the map, so that of two entries for one key the later one stays.
pub open spec fn entries_map(entries: Seq<(String, Id)>) -> Map<Seq<char>, Seq<char>>
    decreases entries.len(),
{
    if entries.len() == 0 {
        Map::empty()
    } else {
        entries_map(entries.drop_last()).insert(entries.last().0@, entries.last().1@)
    }
}

impl View for CreatedIds {
    type V = Map<Seq<char>, Seq<char>>;

    open spec fn view(&self) -> Map<Seq<char>, Seq<char>> {
        entries_map(self.entries@)
    }
}

impl View for Request {
    type V = RequestView;

    open spec fn view(&self) -> RequestView {
        RequestView {
            using: self.using,
            method_calls: calls_view(self.method_calls@),
            created_ids: match self.created_ids {
                Some(ids) => Some(ids@),
                None => None,
            },
        }
    }
}

impl CreatedIds {
    /// No identifiers.
    pub fn new() -> (ids: CreatedIds)
        ensures
            ids@ == Map::<Seq<char>, Seq<char>>::empty(),
    {
        CreatedIds { entries: Vec::new() }
    }

    /// Records that the object which the client calls `client` has the
    /// identifier `id`.
    pub fn insert(&mut self, client: String, id: Id)
        ensures
            final(self)@ == old(self)@.insert(client@, id@),
    {
        self.entries.push((client, id));
        proof {
            assert(self.entries@.drop_last() =~= old(self).entries@);
        }
    }

    /// The identifier of the object which the client calls `client`.
    pub fn get(&self, client: &String) -> (id: Option<&Id>)
        ensures
            match id {
                Some(id) => self@.contains_key(client@) && self@[client@] == id@,
                None => !self@.contains_key(client@),
            },
    {
        let mut i: usize = self.entries.len();
        proof {
            assert(self.entries@.take(i as int) =~= self.entries@);
        }
        while i > 0
            invariant
                i <= self.entries.len(),
                self@.contains_key(client@) == entries_map(
                    self.entries@.take(i as int),
                ).contains_key(client@),
                self@.contains_key(client@) ==> self@[client@] == entries_map(
                    self.entries@.take(i as int),
                )[client@],
            decreases i,
        {
            let ghost prefix = self.entries@.take(i as int);
            proof {
                assert(prefix.drop_last() =~= self.entries@.take(i - 1));
            }
            i = i - 1;
            if self.entries[i].0 == *client {
                return Some(&self.entries[i].1);
            }
        }
        None
    }
}

} // verus!
