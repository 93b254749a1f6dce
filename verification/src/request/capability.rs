//! The capabilities that a client says it will use.

use crate::keys::{pack, pack_word, word_bytes};
use vstd::prelude::*;

verus! {

/// A capability of the server. Each has a bit of its own in the set that a
/// request carries.
#[derive(Clone, Copy, Debug, PartialEq, Eq, Structural)]
pub enum Capability {
    Core,
    Mail,
    Submission,
    VacationResponse,
    Contacts,
    Sieve,
    Blob,
    Quota,
    WebSocket,
}

/// `urn:ietf:params:`, the first sixteen bytes of every capability.
pub const URN_PARAMS: u128 = 0x3a73_6d61_7261_703a_6674_6569_3a6e_7275;

/// `jmap:core`
pub const CAP_CORE: u128 = 0x65_726f_633a_7061_6d6a;

/// `jmap:mail`
pub const CAP_MAIL: u128 = 0x6c_6961_6d3a_7061_6d6a;

/// `jmap:submission`
pub const CAP_SUBMISSION: u128 = 0x6e_6f69_7373_696d_6275_733a_7061_6d6a;

/// `jmap:vacationr`, the second word of the vacation response capability.
pub const CAP_VACATION_RESPONSE: u128 = 0x7365_726e_6f69_7461_6361_763a_7061_6d6a;

/// `esponse`, the third word of the vacation response capability.
pub const CAP_VACATION_RESPONSE_TAIL: u128 = 0x65_736e_6f70;

/// `jmap:contacts`
pub const CAP_CONTACTS: u128 = 0x73_7463_6174_6e6f_633a_7061_6d6a;

/// `jmap:sieve`
pub const CAP_SIEVE: u128 = 0x6576_6569_733a_7061_6d6a;

/// `jmap:blob`
pub const CAP_BLOB: u128 = 0x62_6f6c_623a_7061_6d6a;

/// `jmap:quota`
pub const CAP_QUOTA: u128 = 0x6174_6f75_713a_7061_6d6a;

/// `jmap:websocket`
pub const CAP_WEBSOCKET: u128 = 0x7465_6b63_6f73_6265_773a_7061_6d6a;

/// The bit of a capability.
pub open spec fn capability_bit(capability: Capability) -> u32 {
    match capability {
        Capability::Core => 1,
        Capability::Mail => 2,
        Capability::Submission => 4,
        Capability::VacationResponse => 8,
        Capability::Contacts => 16,
        Capability::Sieve => 32,
        Capability::Blob => 64,
        Capability::Quota => 128,
        Capability::WebSocket => 256,
    }
}

/// The capability that the packed words of a name stand for.
pub open spec fn capability_of_words(w0: nat, w1: nat, w2: nat) -> Option<Capability> {
    if w0 != URN_PARAMS {
        None
    } else if w1 == CAP_VACATION_RESPONSE && w2 == CAP_VACATION_RESPONSE_TAIL {
        Some(Capability::VacationResponse)
    } else if w2 != 0 {
        None
    } else if w1 == CAP_CORE {
        Some(Capability::Core)
    } else if w1 == CAP_MAIL {
        Some(Capability::Mail)
    } else if w1 == CAP_SUBMISSION {
        Some(Capability::Submission)
    } else if w1 == CAP_CONTACTS {
        Some(Capability::Contacts)
    } else if w1 == CAP_SIEVE {
        Some(Capability::Sieve)
    } else if w1 == CAP_BLOB {
        Some(Capability::Blob)
    } else if w1 == CAP_QUOTA {
        Some(Capability::Quota)
    } else if w1 == CAP_WEBSOCKET {
        Some(Capability::WebSocket)
    } else {
        None
    }
}

/// The capability that the bytes `content` name, in their exact case. A
/// name of more than forty-eight bytes names none.
pub open spec fn capability_of(content: Seq<u8>) -> Option<Capability> {
    if content.len() <= 48 {
        capability_of_words(
            pack(word_bytes(content, 0)),
            pack(word_bytes(content, 1)),
            pack(word_bytes(content, 2)),
        )
    } else {
        None
    }
}

/// The bit that the name `content` adds to the set of a request: that of
/// the capability it names, and none for a name that the server does not
/// know.
pub open spec fn capability_bits(content: Seq<u8>) -> u32 {
    match capability_of(content) {
        Some(capability) => capability_bit(capability),
        None => 0,
    }
}

impl Capability {
    /// The bit of the capability.
    pub fn bit(&self) -> (bit: u32)
        ensures
            bit == capability_bit(*self),
    {
        match self {
            Capability::Core => 1,
            Capability::Mail => 2,
            Capability::Submission => 4,
            Capability::VacationResponse => 8,
            Capability::Contacts => 16,
            Capability::Sieve => 32,
            Capability::Blob => 64,
            Capability::Quota => 128,
            Capability::WebSocket => 256,
        }
    }

    /// Reads a capability from the bytes between the quotes of a JSON
    /// string.
    pub fn parse(content: &[u8]) -> (capability: Option<Capability>)
        ensures
            capability == capability_of(content@),
    {
        if content.len() > 48 {
            return None;
        }
        let w0 = pack_word(content, 0, false);
        let w1 = pack_word(content, 1, false);
        let w2 = pack_word(content, 2, false);
        if w0 != URN_PARAMS {
            None
        } else if w1 == CAP_VACATION_RESPONSE && w2 == CAP_VACATION_RESPONSE_TAIL {
            Some(Capability::VacationResponse)
        } else if w2 != 0 {
            None
        } else if w1 == CAP_CORE {
            Some(Capability::Core)
        } else if w1 == CAP_MAIL {
            Some(Capability::Mail)
        } else if w1 == CAP_SUBMISSION {
            Some(Capability::Submission)
        } else if w1 == CAP_CONTACTS {
            Some(Capability::Contacts)
        } else if w1 == CAP_SIEVE {
            Some(Capability::Sieve)
        } else if w1 == CAP_BLOB {
            Some(Capability::Blob)
        } else if w1 == CAP_QUOTA {
            Some(Capability::Quota)
        } else if w1 == CAP_WEBSOCKET {
            Some(Capability::WebSocket)
        } else {
            None
        }
    }
}

} // verus!
