//! Method names: the object a call is about and the function it asks for.

use crate::keys::{find_byte, find_first, pack, pack_short};
use vstd::prelude::*;
use vstd::slice::slice_subrange;

verus! {

/// The object type that a method works on.
#[derive(Clone, Copy, Debug, PartialEq, Eq, Structural)]
pub enum MethodObject {
    Email,
    Mailbox,
    Core,
    Blob,
    PushSubscription,
    Thread,
    SearchSnippet,
    Identity,
    EmailSubmission,
    VacationResponse,
    SieveScript,
    Principal,
    Quota,
}

/// What a method does with its object.
#[derive(Clone, Copy, Debug, PartialEq, Eq, Structural)]
pub enum MethodFunction {
    Get,
    /// The function written `set`.
    Modify,
    Changes,
    Query,
    QueryChanges,
    Copy,
    Import,
    Parse,
    Validate,
    Echo,
}

/// A method name, written `Object/function` on the wire.
#[derive(Clone, Copy, Debug, PartialEq, Eq, Structural)]
pub struct MethodName {
    pub obj: MethodObject,
    pub fnc: MethodFunction,
}

/// `Email`
pub const OBJ_EMAIL: u128 = 0x6c69_616d_45;

/// `Mailbox`
pub const OBJ_MAILBOX: u128 = 0x78_6f62_6c69_614d;

/// `Core`
pub const OBJ_CORE: u128 = 0x6572_6f43;

/// `Blob`
pub const OBJ_BLOB: u128 = 0x626f_6c42;

/// `PushSubscription`
pub const OBJ_PUSH_SUBSCRIPTION: u128 = 0x6e6f_6974_7069_7263_7362_7553_6873_7550;

/// `Thread`
pub const OBJ_THREAD: u128 = 0x6461_6572_6854;

/// `SearchSnippet`
pub const OBJ_SEARCH_SNIPPET: u128 = 0x74_6570_7069_6e53_6863_7261_6553;

/// `Identity`
pub const OBJ_IDENTITY: u128 = 0x7974_6974_6e65_6449;

/// `EmailSubmission`
pub const OBJ_EMAIL_SUBMISSION: u128 = 0x6e_6f69_7373_696d_6275_536c_6961_6d45;

/// `VacationResponse`
pub const OBJ_VACATION_RESPONSE: u128 = 0x6573_6e6f_7073_6552_6e6f_6974_6163_6156;

/// `SieveScript`
pub const OBJ_SIEVE_SCRIPT: u128 = 0x74_7069_7263_5365_7665_6953;

/// `Principal`
pub const OBJ_PRINCIPAL: u128 = 0x6c_6170_6963_6e69_7250;

/// `Quota`
pub const OBJ_QUOTA: u128 = 0x61_746f_7551;

/// `get`
pub const FNC_GET: u128 = 0x74_6567;

/// `set`
pub const FNC_SET: u128 = 0x74_6573;

/// `changes`
pub const FNC_CHANGES: u128 = 0x73_6567_6e61_6863;

/// `query`
pub const FNC_QUERY: u128 = 0x79_7265_7571;

/// `queryChanges`
pub const FNC_QUERY_CHANGES: u128 = 0x7365_676e_6168_4379_7265_7571;

/// `copy`
pub const FNC_COPY: u128 = 0x7970_6f63;

/// `import`
pub const FNC_IMPORT: u128 = 0x7472_6f70_6d69;

/// `parse`
pub const FNC_PARSE: u128 = 0x65_7372_6170;

/// `validate`
pub const FNC_VALIDATE: u128 = 0x6574_6164_696c_6176;

/// `echo`
pub const FNC_ECHO: u128 = 0x6f68_6365;

/// The object that the packed name `h` stands for.
pub open spec fn object_of(h: nat) -> Option<MethodObject> {
    if h == OBJ_EMAIL {
        Some(MethodObject::Email)
    } else if h == OBJ_MAILBOX {
        Some(MethodObject::Mailbox)
    } else if h == OBJ_CORE {
        Some(MethodObject::Core)
    } else if h == OBJ_BLOB {
        Some(MethodObject::Blob)
    } else if h == OBJ_PUSH_SUBSCRIPTION {
        Some(MethodObject::PushSubscription)
    } else if h == OBJ_THREAD {
        Some(MethodObject::Thread)
    } else if h == OBJ_SEARCH_SNIPPET {
        Some(MethodObject::SearchSnippet)
    } else if h == OBJ_IDENTITY {
        Some(MethodObject::Identity)
    } else if h == OBJ_EMAIL_SUBMISSION {
        Some(MethodObject::EmailSubmission)
    } else if h == OBJ_VACATION_RESPONSE {
        Some(MethodObject::VacationResponse)
    } else if h == OBJ_SIEVE_SCRIPT {
        Some(MethodObject::SieveScript)
    } else if h == OBJ_PRINCIPAL {
        Some(MethodObject::Principal)
    } else if h == OBJ_QUOTA {
        Some(MethodObject::Quota)
    } else {
        None
    }
}

/// The function that the packed name `h` stands for.
pub open spec fn function_of(h: nat) -> Option<MethodFunction> {
    if h == FNC_GET {
        Some(MethodFunction::Get)
    } else if h == FNC_SET {
        Some(MethodFunction::Modify)
    } else if h == FNC_CHANGES {
        Some(MethodFunction::Changes)
    } else if h == FNC_QUERY {
        Some(MethodFunction::Query)
    } else if h == FNC_QUERY_CHANGES {
        Some(MethodFunction::QueryChanges)
    } else if h == FNC_COPY {
        Some(MethodFunction::Copy)
    } else if h == FNC_IMPORT {
        Some(MethodFunction::Import)
    } else if h == FNC_PARSE {
        Some(MethodFunction::Parse)
    } else if h == FNC_VALIDATE {
        Some(MethodFunction::Validate)
    } else if h == FNC_ECHO {
        Some(MethodFunction::Echo)
    } else {
        None
    }
}

/// The name of an object as it is written in a method name.
pub open spec fn object_name(obj: MethodObject) -> Seq<char> {
    match obj {
        MethodObject::Email => "Email"@,
        MethodObject::Mailbox => "Mailbox"@,
        MethodObject::Core => "Core"@,
        MethodObject::Blob => "Blob"@,
        MethodObject::PushSubscription => "PushSubscription"@,
        MethodObject::Thread => "Thread"@,
        MethodObject::SearchSnippet => "SearchSnippet"@,
        MethodObject::Identity => "Identity"@,
        MethodObject::EmailSubmission => "EmailSubmission"@,
        MethodObject::VacationResponse => "VacationResponse"@,
        MethodObject::SieveScript => "SieveScript"@,
        MethodObject::Principal => "Principal"@,
        MethodObject::Quota => "Quota"@,
    }
}

/// The method that the bytes `content` name: an object of at most sixteen
/// bytes, a slash, and a function of at most sixteen bytes, both known and
/// written in their exact case. `None` is an unknown method.
pub open spec fn method_name_of(content: Seq<u8>) -> Option<MethodName> {
    let slash = find_byte(content, 47, 0);
    if slash < content.len() && slash <= 16 && content.len() - slash - 1 <= 16 {
        let obj = object_of(pack(content.subrange(0, slash)));
        let fnc = function_of(pack(content.subrange(slash + 1, content.len() as int)));
        if obj is Some && fnc is Some {
            Some(MethodName { obj: obj->0, fnc: fnc->0 })
        } else {
            None
        }
    } else {
        None
    }
}

impl MethodObject {
    /// The object whose name packs to `h`.
    pub fn from_hash(h: u128) -> (obj: Option<MethodObject>)
        ensures
            obj == object_of(h as nat),
    {
        if h == OBJ_EMAIL {
            Some(MethodObject::Email)
        } else if h == OBJ_MAILBOX {
            Some(MethodObject::Mailbox)
        } else if h == OBJ_CORE {
            Some(MethodObject::Core)
        } else if h == OBJ_BLOB {
            Some(MethodObject::Blob)
        } else if h == OBJ_PUSH_SUBSCRIPTION {
            Some(MethodObject::PushSubscription)
        } else if h == OBJ_THREAD {
            Some(MethodObject::Thread)
        } else if h == OBJ_SEARCH_SNIPPET {
            Some(MethodObject::SearchSnippet)
        } else if h == OBJ_IDENTITY {
            Some(MethodObject::Identity)
        } else if h == OBJ_EMAIL_SUBMISSION {
            Some(MethodObject::EmailSubmission)
        } else if h == OBJ_VACATION_RESPONSE {
            Some(MethodObject::VacationResponse)
        } else if h == OBJ_SIEVE_SCRIPT {
            Some(MethodObject::SieveScript)
        } else if h == OBJ_PRINCIPAL {
            Some(MethodObject::Principal)
        } else if h == OBJ_QUOTA {
            Some(MethodObject::Quota)
        } else {
            None
        }
    }

    /// The object's name as it is written in a method name.
    pub fn name(&self) -> (name: &'static str)
        ensures
            name@ == object_name(*self),
    {
        match self {
            MethodObject::Email => "Email",
            MethodObject::Mailbox => "Mailbox",
            MethodObject::Core => "Core",
            MethodObject::Blob => "Blob",
            MethodObject::PushSubscription => "PushSubscription",
            MethodObject::Thread => "Thread",
            MethodObject::SearchSnippet => "SearchSnippet",
            MethodObject::Identity => "Identity",
            MethodObject::EmailSubmission => "EmailSubmission",
            MethodObject::VacationResponse => "VacationResponse",
            MethodObject::SieveScript => "SieveScript",
            MethodObject::Principal => "Principal",
            MethodObject::Quota => "Quota",
        }
    }
}

impl MethodFunction {
    /// The function whose name packs to `h`.
    pub fn from_hash(h: u128) -> (fnc: Option<MethodFunction>)
        ensures
            fnc == function_of(h as nat),
    {
        if h == FNC_GET {
            Some(MethodFunction::Get)
        } else if h == FNC_SET {
            Some(MethodFunction::Modify)
        } else if h == FNC_CHANGES {
            Some(MethodFunction::Changes)
        } else if h == FNC_QUERY {
            Some(MethodFunction::Query)
        } else if h == FNC_QUERY_CHANGES {
            Some(MethodFunction::QueryChanges)
        } else if h == FNC_COPY {
            Some(MethodFunction::Copy)
        } else if h == FNC_IMPORT {
            Some(MethodFunction::Import)
        } else if h == FNC_PARSE {
            Some(MethodFunction::Parse)
        } else if h == FNC_VALIDATE {
            Some(MethodFunction::Validate)
        } else if h == FNC_ECHO {
            Some(MethodFunction::Echo)
        } else {
            None
        }
    }
}

impl MethodName {
    /// Reads a method name from the bytes between the quotes of a JSON
    /// string.
    pub fn parse(content: &[u8]) -> (name: Option<MethodName>)
        ensures
            name == method_name_of(content@),
    {
        let slash = find_first(content, 47);
        if slash < content.len() && slash <= 16 && content.len() - slash - 1 <= 16 {
            let obj = MethodObject::from_hash(
                pack_short(slice_subrange(content, 0, slash)),
            );
            let fnc = MethodFunction::from_hash(
                pack_short(slice_subrange(content, slash + 1, content.len())),
            );
            match (obj, fnc) {
                (Some(obj), Some(fnc)) => Some(MethodName { obj, fnc }),
                _ => None,
            }
        } else {
            None
        }
    }
}

} // verus!
