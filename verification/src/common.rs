//! The configuration that the parts of the server share, and what is
//! looked up in it by name.

use crate::auth::{AuthAction, AuthConfig, AuthEvent, AuthState, Credentials, next_spec};
use crate::gossip::IpAddress;
use crate::text::string_from_utf8;
use vstd::prelude::*;
use vstd::string::*;
use vstd::utf8::{decode_utf8, valid_utf8};

verus! {

/// A directory of principals. The directory itself is held by the
/// application, at this place of its table of directories.
#[derive(Clone, Copy, Debug, PartialEq, Eq, Structural)]
pub struct Directory {
    pub slot: usize,
}

/// A lookup store, held by the application at this place of its table.
#[derive(Clone, Copy, Debug, PartialEq, Eq, Structural)]
pub struct LookupStore {
    pub slot: usize,
}

/// A compiled Sieve script, held by the application at this place of its
/// table.
#[derive(Clone, Copy, Debug, PartialEq, Eq, Structural)]
pub struct Sieve {
    pub slot: usize,
}

/// A key that seals ARC sets, held by the application at this place of its
/// table.
#[derive(Clone, Copy, Debug, PartialEq, Eq, Structural)]
pub struct ArcSealer {
    pub slot: usize,
}

/// A key that signs with DKIM, held by the application at this place of
/// its table.
#[derive(Clone, Copy, Debug, PartialEq, Eq, Structural)]
pub struct DkimSigner {
    pub slot: usize,
}

/// A host that relays outgoing mail.
#[derive(Clone, Debug)]
pub struct RelayHost {
    pub address: String,
    pub port: u16,
}

/// Values by name. Of two values with one name the first is found.
#[derive(Clone, Debug)]
pub struct Named<T> {
    pub entries: Vec<(String, T)>,
}

#[derive(Clone, Debug)]
pub struct Storage {
    /// The directory that stands in where a name is not known.
    pub directory: Directory,
    pub directories: Named<Directory>,
    /// The lookup store that stands in where a name is not known.
    pub lookup: LookupStore,
    pub lookups: Named<LookupStore>,
}

#[derive(Clone, Debug)]
pub struct Scripting {
    pub scripts: Named<Sieve>,
}

#[derive(Clone, Debug)]
pub struct MailAuthConfig {
    pub sealers: Named<ArcSealer>,
    pub signers: Named<DkimSigner>,
}

#[derive(Clone, Debug)]
pub struct QueueConfig {
    pub relay_hosts: Named<RelayHost>,
}

#[derive(Clone, Debug)]
pub struct SmtpConfig {
    pub mail_auth: MailAuthConfig,
    pub queue: QueueConfig,
}

/// What the server knows of the network: the addresses it does not talk
/// to, and the expression that gives its own URL.
#[derive(Clone, Debug)]
pub struct Network {
    pub blocked_ips: Vec<IpAddress>,
    pub url: String,
}

/// The configuration that all parts of the server read. It is not changed
/// in place: a new one takes the place of the old.
#[derive(Clone, Debug)]
pub struct Core {
    pub storage: Storage,
    pub sieve: Scripting,
    pub network: Network,
    pub smtp: SmtpConfig,
    pub jmap: AuthConfig,
}

/// How the delivery of a message to one recipient ended.
#[derive(Clone, Debug)]
pub enum DeliveryResult {
    Success,
    TemporaryFailure { reason: String },
    PermanentFailure { code: [u8; 3], reason: String },
}

/// The index of the first entry of `entries` at or after `from` with the
/// name `name`, or the length of `entries` if there is none.
pub open spec fn first_named<T>(entries: Seq<(String, T)>, name: Seq<char>, from: int) -> int
    decreases entries.len() - from,
{
    if from < 0 || from >= entries.len() {
        entries.len() as int
    } else if entries[from].0@ == name {
        from
    } else {
        first_named(entries, name, from + 1)
    }
}

/// The first entry with a name has that name, and stands in the list.
pub proof fn lemma_first_named<T>(entries: Seq<(String, T)>, name: Seq<char>, from: int)
    requires
        0 <= from <= entries.len(),
    ensures
        from <= first_named(entries, name, from) <= entries.len(),
        first_named(entries, name, from) < entries.len() ==> entries[first_named(
            entries,
            name,
            from,
        )].0@ == name,
        forall|i: int| from <= i < first_named(entries, name, from) ==> entries[i].0@ != name,
    decreases entries.len() - from,
{
    if from < entries.len() && entries[from].0@ != name {
        lemma_first_named(entries, name, from + 1);
    }
}

impl<T> Named<T> {
    /// Whether a value has the name `name`.
    pub open spec fn has(&self, name: Seq<char>) -> bool {
        first_named(self.entries@, name, 0) < self.entries@.len()
    }

    /// The value with the name `name`.
    pub open spec fn value(&self, name: Seq<char>) -> T
        recommends
            self.has(name),
    {
        self.entries@[first_named(self.entries@, name, 0)].1
    }

    /// No values.
    pub fn new() -> (named: Named<T>)
        ensures
            named.entries@.len() == 0,
    {
        Named { entries: Vec::new() }
    }

    /// The value with the name `name`.
    pub fn get(&self, name: &str) -> (value: Option<&T>)
        ensures
            match value {
                Some(v) => self.has(name@) && *v == self.value(name@),
                None => !self.has(name@),
            },
    {
        let wanted = String::from_str(name);
        let mut i: usize = 0;
        proof {
            lemma_first_named(self.entries@, name@, 0);
        }
        while i < self.entries.len()
            invariant
                i <= self.entries.len(),
                wanted@ == name@,
                first_named(self.entries@, name@, 0) == first_named(
                    self.entries@,
                    name@,
                    i as int,
                ),
            decreases self.entries.len() - i,
        {
            if self.entries[i].0 == wanted {
                return Some(&self.entries[i].1);
            }
            i = i + 1;
        }
        None
    }
}

/// A value that can be turned into text.
pub trait IntoString: Sized {
    /// The text that the value turns into.
    spec fn text(&self) -> Seq<char>;

    fn into_string(self) -> (text: String)
        ensures
            text@ == self.text(),
    ;
}

/// The text that `String::from_utf8_lossy` of std makes of `bytes`: their
/// text as UTF-8, with the replacement character in place of what is not
/// UTF-8.
pub uninterp spec fn lossy_text(bytes: Seq<u8>) -> Seq<char>;

/// `String::from_utf8_lossy` of std, made into a `String`.
#[verifier::external_body]
pub(crate) fn string_from_utf8_lossy(bytes: &[u8]) -> (text: String)
    ensures
        text@ == lossy_text(bytes@),
{
    String::from_utf8_lossy(bytes).into_owned()
}

impl IntoString for Vec<u8> {
    /// Bytes that are UTF-8 turn into the text that they encode, and other
    /// bytes into what is left of them after the replacement of what is
    /// not UTF-8.
    open spec fn text(&self) -> Seq<char> {
        if valid_utf8(self@) {
            decode_utf8(self@)
        } else {
            lossy_text(self@)
        }
    }

    fn into_string(self) -> (text: String) {
        match string_from_utf8(self) {
            Ok(text) => text,
            Err(bytes) => string_from_utf8_lossy(bytes.as_slice()),
        }
    }
}

/// The filter that turns a tracer on at `level` for every part of the
/// server.
pub open spec fn directives(level: Seq<char>) -> Seq<char> {
    "smtp="@ + level + ",imap="@ + level + ",jmap="@ + level + ",store="@ + level + ",common="@
        + level + ",utils="@ + level + ",directory="@ + level
}

/// The filter that turns a tracer on at `level` for every part of the
/// server.
pub fn tracer_directives(level: &str) -> (filter: String)
    ensures
        filter@ == directives(level@),
{
    String::from_str("smtp=").concat(level).concat(",imap=").concat(level).concat(",jmap=").concat(
        level,
    ).concat(",store=").concat(level).concat(",common=").concat(level).concat(",utils=").concat(
        level,
    ).concat(",directory=").concat(level)
}

impl Core {
    /// The directory with the name `name`.
    pub fn get_directory(&self, name: &str) -> (directory: Option<&Directory>)
        ensures
            match directory {
                Some(d) => self.storage.directories.has(name@) && *d
                    == self.storage.directories.value(name@),
                None => !self.storage.directories.has(name@),
            },
    {
        self.storage.directories.get(name)
    }

    /// The directory with the name `name`, or the default directory if
    /// there is none with that name.
    pub fn get_directory_or_default(&self, name: &str) -> (directory: &Directory)
        ensures
            *directory == if self.storage.directories.has(name@) {
                self.storage.directories.value(name@)
            } else {
                self.storage.directory
            },
    {
        match self.storage.directories.get(name) {
            Some(directory) => directory,
            None => &self.storage.directory,
        }
    }

    /// The lookup store with the name `name`, or the default store if
    /// there is none with that name.
    pub fn get_lookup_store(&self, name: &str) -> (store: &LookupStore)
        ensures
            *store == if self.storage.lookups.has(name@) {
                self.storage.lookups.value(name@)
            } else {
                self.storage.lookup
            },
    {
        match self.storage.lookups.get(name) {
            Some(store) => store,
            None => &self.storage.lookup,
        }
    }

    /// The ARC sealer with the name `name`.
    pub fn get_arc_sealer(&self, name: &str) -> (sealer: Option<&ArcSealer>)
        ensures
            match sealer {
                Some(s) => self.smtp.mail_auth.sealers.has(name@) && *s
                    == self.smtp.mail_auth.sealers.value(name@),
                None => !self.smtp.mail_auth.sealers.has(name@),
            },
    {
        self.smtp.mail_auth.sealers.get(name)
    }

    /// The DKIM signer with the name `name`.
    pub fn get_dkim_signer(&self, name: &str) -> (signer: Option<&DkimSigner>)
        ensures
            match signer {
                Some(s) => self.smtp.mail_auth.signers.has(name@) && *s
                    == self.smtp.mail_auth.signers.value(name@),
                None => !self.smtp.mail_auth.signers.has(name@),
            },
    {
        self.smtp.mail_auth.signers.get(name)
    }

    /// The Sieve script with the name `name`.
    pub fn get_sieve_script(&self, name: &str) -> (script: Option<&Sieve>)
        ensures
            match script {
                Some(s) => self.sieve.scripts.has(name@) && *s == self.sieve.scripts.value(name@),
                None => !self.sieve.scripts.has(name@),
            },
    {
        self.sieve.scripts.get(name)
    }

    /// The relay host with the name `name`.
    pub fn get_relay_host(&self, name: &str) -> (host: Option<&RelayHost>)
        ensures
            match host {
                Some(h) => self.smtp.queue.relay_hosts.has(name@) && *h
                    == self.smtp.queue.relay_hosts.value(name@),
                None => !self.smtp.queue.relay_hosts.has(name@),
            },
    {
        self.smtp.queue.relay_hosts.get(name)
    }

    /// Decides what follows `event` in an authentication with
    /// `credentials` that stands at `state`.
    pub fn authenticate<T, E>(
        &self,
        credentials: &Credentials,
        state: AuthState<E>,
        event: AuthEvent<T, E>,
    ) -> (next: (Option<AuthState<E>>, AuthAction<T, E>))
        ensures
            (next.0, next.1@) == next_spec(self.jmap@, credentials@, state, event),
    {
        self.jmap.next(credentials, state, event)
    }
}

} // verus!
