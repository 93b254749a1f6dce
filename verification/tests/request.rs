use mail_core::error::{Error, MethodError, RequestError, RequestLimitError};
use mail_core::method::account::ObjectArguments;
use mail_core::method::get::RequestArguments;
use mail_core::request::capability::Capability;
use mail_core::request::method::{MethodFunction, MethodName, MethodObject};
use mail_core::request::reference::MaybeReference;
use mail_core::request::{Request, RequestMethod};

const TEST: &str = r#"
    {
        "using": [ "urn:ietf:params:jmap:core", "urn:ietf:params:jmap:mail" ],
        "methodCalls": [
          [ "method1", {
            "arg1": "arg1data",
            "arg2": "arg2data"
          }, "c1" ],
          [ "Core/echo", {
            "hello": true,
            "high": 5
          }, "c2" ],
          [ "method3", {"hello": [{"a": {"b": true}}]}, "c3" ]
        ],
        "createdIds": {
            "c1": "m1",
            "c2": "m2"
        }
      }
    "#;

fn unknown_name(method: &RequestMethod) -> Option<String> {
    match method {
        RequestMethod::Error(MethodError::UnknownMethod(name)) => Some(name.clone()),
        _ => None,
    }
}

fn is_limit(result: &Result<Request, RequestError>, limit: RequestLimitError) -> bool {
    matches!(result, Err(RequestError::Limit(l)) if *l == limit)
}

fn not_request_detail(result: &Result<Request, RequestError>) -> Option<String> {
    match result {
        Err(RequestError::NotRequest(detail)) => Some(detail.clone()),
        _ => None,
    }
}

#[test]
fn parse_request() {
    println!("{:?}", Request::parse(TEST.as_bytes(), 10, 1024));
}

#[test]
fn batched_parse_gives_three_calls() {
    let request = Request::parse(TEST.as_bytes(), 10, 1024).unwrap();
    assert_eq!(request.using, Capability::Core.bit() | Capability::Mail.bit());
    assert_eq!(request.using, 3);
    assert_eq!(request.method_calls.len(), 3);

    assert_eq!(request.method_calls[0].id, "c1");
    assert_eq!(unknown_name(&request.method_calls[0].method), Some("method1".to_string()));

    assert_eq!(request.method_calls[1].id, "c2");
    let start = TEST.find("{\n            \"hello\"").unwrap();
    let end = TEST[start..].find('}').unwrap() + start + 1;
    match &request.method_calls[1].method {
        RequestMethod::Echo(echo) => assert_eq!(echo.arguments, TEST.as_bytes()[start..end].to_vec()),
        other => panic!("{:?}", other),
    }

    assert_eq!(request.method_calls[2].id, "c3");
    assert_eq!(unknown_name(&request.method_calls[2].method), Some("method3".to_string()));

    let created = request.created_ids.unwrap();
    assert_eq!(created.get(&"c1".to_string()).unwrap().text, "m1");
    assert_eq!(created.get(&"c2".to_string()).unwrap().text, "m2");
    assert!(created.get(&"c3".to_string()).is_none());
}

#[test]
fn echo_keeps_the_arguments_as_written() {
    let json = br#"{"methodCalls":[["Core/echo",{"hello":true,"high":5},"c2"]]}"#;
    let request = Request::parse(json, 10, 1024).unwrap();
    match &request.method_calls[0].method {
        RequestMethod::Echo(echo) => assert_eq!(echo.arguments, br#"{"hello":true,"high":5}"#.to_vec()),
        other => panic!("{:?}", other),
    }
}

#[test]
fn over_size_limit() {
    let result = Request::parse(TEST.as_bytes(), 10, TEST.len() - 1);
    assert!(is_limit(&result, RequestLimitError::Size));
    // Bytes that are not even JSON are refused for their size first.
    let result = Request::parse(b"not json at all", 10, 3);
    assert!(is_limit(&result, RequestLimitError::Size));
    // A request of exactly the largest size is read.
    assert!(Request::parse(TEST.as_bytes(), 10, TEST.len()).is_ok());
}

fn echo_calls(n: usize) -> String {
    let calls: Vec<String> =
        (0..n).map(|i| format!(r#"["Core/echo",{{"n":{}}},"c{}"]"#, i, i)).collect();
    format!(r#"{{"using":["urn:ietf:params:jmap:core"],"methodCalls":[{}]}}"#, calls.join(","))
}

#[test]
fn over_call_limit() {
    let json = echo_calls(11);
    let result = Request::parse(json.as_bytes(), 10, 4096);
    assert!(is_limit(&result, RequestLimitError::CallsIn));
}

#[test]
fn calls_up_to_the_limit_are_read() {
    let json = echo_calls(10);
    let request = Request::parse(json.as_bytes(), 10, 4096).unwrap();
    assert_eq!(request.method_calls.len(), 10);
    assert_eq!(request.method_calls[9].id, "c9");
    assert!(is_limit(&Request::parse(json.as_bytes(), 9, 4096), RequestLimitError::CallsIn));
    assert!(is_limit(&Request::parse(json.as_bytes(), 0, 4096), RequestLimitError::CallsIn));
}

#[test]
fn object_without_request_keys_is_no_request() {
    let result = Request::parse(br#"{"hello": [1, 2, {"a": null}], "x": 1.5e3}"#, 10, 1024);
    assert_eq!(not_request_detail(&result), Some("Invalid JMAP request".to_string()));
}

#[test]
fn array_in_place_of_request_is_no_request() {
    let result = Request::parse(br#"["using"]"#, 10, 1024);
    assert_eq!(not_request_detail(&result), Some("Invalid arguments".to_string()));
}

#[test]
fn call_that_is_no_triple_is_no_request() {
    let result = Request::parse(br#"{"methodCalls":[["Core/echo",{}]]}"#, 10, 1024);
    assert_eq!(not_request_detail(&result), Some("Invalid JMAP request".to_string()));
    let result = Request::parse(br#"{"methodCalls":[[5,{},"c1"]]}"#, 10, 1024);
    assert_eq!(not_request_detail(&result), Some("Invalid JMAP request".to_string()));
    let result = Request::parse(br#"{"methodCalls":{"a":1}}"#, 10, 1024);
    assert_eq!(not_request_detail(&result), Some("Invalid JMAP request".to_string()));
}

#[test]
fn bad_json_is_malformed() {
    for json in [
        &b""[..],
        b"   ",
        b"{",
        br#"{"using":["urn:ietf:params:jmap:core"]"#,
        br#"{"using":["urn:ietf:params:jmap:core" "x"]}"#,
        br#"{"unterminated"#,
        br#"{"x": tru}"#,
        br#"{"x": ]}"#,
        b"{\"x\": \"a\x01b\"}",
    ] {
        let result = Request::parse(json, 10, 1024);
        assert!(matches!(result, Err(RequestError::Malformed)), "{:?}", result);
    }
}

#[test]
fn nesting_beyond_the_limit_is_malformed() {
    let deep = |n: usize| format!(r#"{{"x":{}{}}}"#, "[".repeat(n), "]".repeat(n));
    // The object itself is one level; fifteen arrays fill the rest.
    assert_eq!(
        not_request_detail(&Request::parse(deep(15).as_bytes(), 10, 1024)),
        Some("Invalid JMAP request".to_string())
    );
    let result = Request::parse(deep(16).as_bytes(), 10, 1024);
    assert!(matches!(result, Err(RequestError::Malformed)), "{:?}", result);
}

#[test]
fn keys_match_whatever_their_case() {
    let json = br#"{"USING":["urn:ietf:params:jmap:mail"],"MethodCalls":[["Core/echo",{},"a"]]}"#;
    let request = Request::parse(json, 10, 1024).unwrap();
    assert_eq!(request.using, 2);
    assert_eq!(request.method_calls.len(), 1);
}

#[test]
fn names_of_methods_and_capabilities_match_in_their_case_only() {
    let json = br#"{"using":["URN:ietf:params:jmap:mail","urn:ietf:params:jmap:quota"],"methodCalls":[["core/echo",{},"a"]]}"#;
    let request = Request::parse(json, 10, 1024).unwrap();
    assert_eq!(request.using, 128);
    assert_eq!(unknown_name(&request.method_calls[0].method), Some("core/echo".to_string()));
}

#[test]
fn every_capability_has_its_bit() {
    let all = [
        ("core", 1u32),
        ("mail", 2),
        ("submission", 4),
        ("vacationresponse", 8),
        ("contacts", 16),
        ("sieve", 32),
        ("blob", 64),
        ("quota", 128),
        ("websocket", 256),
    ];
    for (name, bit) in all {
        let uri = format!("urn:ietf:params:jmap:{}", name);
        assert_eq!(Capability::parse(uri.as_bytes()).map(|c| c.bit()), Some(bit), "{}", uri);
    }
    assert_eq!(Capability::parse(b"urn:ietf:params:jmap:vacationresponsex"), None);
    assert_eq!(Capability::parse(b"urn:ietf:params:jmap:cor"), None);
    assert_eq!(Capability::parse(b"urn:ietf:params:jmap:core "), None);
    assert_eq!(Capability::parse(b""), None);
}

#[test]
fn every_method_name_is_read() {
    let objects = [
        ("Email", MethodObject::Email),
        ("Mailbox", MethodObject::Mailbox),
        ("Core", MethodObject::Core),
        ("Blob", MethodObject::Blob),
        ("PushSubscription", MethodObject::PushSubscription),
        ("Thread", MethodObject::Thread),
        ("SearchSnippet", MethodObject::SearchSnippet),
        ("Identity", MethodObject::Identity),
        ("EmailSubmission", MethodObject::EmailSubmission),
        ("VacationResponse", MethodObject::VacationResponse),
        ("SieveScript", MethodObject::SieveScript),
        ("Principal", MethodObject::Principal),
        ("Quota", MethodObject::Quota),
    ];
    let functions = [
        ("get", MethodFunction::Get),
        ("set", MethodFunction::Modify),
        ("changes", MethodFunction::Changes),
        ("query", MethodFunction::Query),
        ("queryChanges", MethodFunction::QueryChanges),
        ("copy", MethodFunction::Copy),
        ("import", MethodFunction::Import),
        ("parse", MethodFunction::Parse),
        ("validate", MethodFunction::Validate),
        ("echo", MethodFunction::Echo),
    ];
    for (object, obj) in objects {
        assert_eq!(obj.name(), object);
        for (function, fnc) in functions {
            let name = format!("{}/{}", object, function);
            assert_eq!(MethodName::parse(name.as_bytes()), Some(MethodName { obj, fnc }), "{}", name);
        }
    }
    assert_eq!(MethodName::parse(b"Email"), None);
    assert_eq!(MethodName::parse(b"Email/"), None);
    assert_eq!(MethodName::parse(b"/get"), None);
    assert_eq!(MethodName::parse(b"Email/get/"), None);
    assert_eq!(MethodName::parse(b"Emails/get"), None);
    assert_eq!(MethodName::parse(b"PushSubscriptions/get"), None);
}

#[test]
fn function_that_the_object_lacks_is_an_unknown_method() {
    let json = br#"{"methodCalls":[["Mailbox/copy",{"accountId":"a"},"c1"],["Core/get",{"x":[1]},"c2"],["Thread/echo",{},"c3"],["Blob/copy",{"accountId":"b"},"c4"]]}"#;
    let request = Request::parse(json, 10, 1024).unwrap();
    assert_eq!(unknown_name(&request.method_calls[0].method), Some("Mailbox/copy".to_string()));
    assert_eq!(unknown_name(&request.method_calls[1].method), Some("Core/get".to_string()));
    assert_eq!(unknown_name(&request.method_calls[2].method), Some("Thread/echo".to_string()));
    match &request.method_calls[3].method {
        RequestMethod::CopyBlob(r) => assert_eq!(r.account_id.text, "b"),
        other => panic!("{:?}", other),
    }
}

#[test]
fn get_call_is_read() {
    let json = br##"{"methodCalls":[["Email/get",{"accountId":"acc1","ids":["i1","i2"],"properties":["subject"],"bodyProperties":["partId"],"fetchTextBodyValues":true,"fetchHTMLBodyValues":false,"fetchAllBodyValues":null,"maxBodyValueBytes":256,"other":{"a":[1,2]}},"c1"]]}"##;
    let request = Request::parse(json, 10, 4096).unwrap();
    match &request.method_calls[0].method {
        RequestMethod::Get(get) => {
            assert_eq!(get.account_id.text, "acc1");
            match &get.ids {
                Some(MaybeReference::Value(ids)) => {
                    let ids: Vec<&str> = ids.iter().map(|id| id.text.as_str()).collect();
                    assert_eq!(ids, vec!["i1", "i2"]);
                }
                other => panic!("{:?}", other),
            }
            match &get.properties {
                Some(MaybeReference::Value(p)) => {
                    assert_eq!(p.len(), 1);
                    assert_eq!(p[0].name, "subject");
                }
                other => panic!("{:?}", other),
            }
            match &get.arguments {
                RequestArguments::Email(args) => {
                    assert_eq!(args.body_properties.as_ref().unwrap()[0].name, "partId");
                    assert_eq!(args.fetch_text_body_values, Some(true));
                    assert_eq!(args.fetch_html_body_values, Some(false));
                    assert_eq!(args.fetch_all_body_values, None);
                    assert_eq!(args.max_body_value_bytes, Some(256));
                }
                other => panic!("{:?}", other),
            }
        }
        other => panic!("{:?}", other),
    }
}

#[test]
fn get_call_with_references_is_read() {
    let json = br##"{"methodCalls":[["Mailbox/get",{"accountId":"acc1","ids#":{"resultOf":"c0","name":"Mailbox/query","path":"/ids"},"properties":null,"ids":[]},"c1"]]}"##;
    let request = Request::parse(json, 10, 4096).unwrap();
    match &request.method_calls[0].method {
        RequestMethod::Get(get) => {
            // The later `ids` replaces the reference that came first.
            match &get.ids {
                Some(MaybeReference::Value(ids)) => assert!(ids.is_empty()),
                other => panic!("{:?}", other),
            }
            assert!(get.properties.is_none());
            assert!(matches!(get.arguments, RequestArguments::Mailbox));
        }
        other => panic!("{:?}", other),
    }
    let json = br##"{"methodCalls":[["Mailbox/get",{"ids#":{"resultOf":"c0","name":"Mailbox/query","path":"/ids","more":[1]}},"c1"]]}"##;
    let request = Request::parse(json, 10, 4096).unwrap();
    match &request.method_calls[0].method {
        RequestMethod::Get(get) => match &get.ids {
            Some(MaybeReference::Reference(r)) => {
                assert_eq!(r.result_of, "c0");
                assert_eq!(r.name, MethodName { obj: MethodObject::Mailbox, fnc: MethodFunction::Query });
                assert_eq!(r.path, "/ids");
            }
            other => panic!("{:?}", other),
        },
        other => panic!("{:?}", other),
    }
}

#[test]
fn arguments_of_the_object_type_are_read() {
    let json = br##"{"methodCalls":[
        ["Email/query",{"accountId":"a","collapseThreads":true,"filter":{"x":1}},"c1"],
        ["Mailbox/query",{"accountId":"b","sortAsTree":true,"filterAsTree":false},"c2"],
        ["Mailbox/set",{"accountId":"c","onDestroyRemoveEmails":true,"create":{"k":{}}},"c3"],
        ["Email/set",{"accountId":"d","onDestroyRemoveEmails":true},"c4"],
        ["Email/changes",{"accountId":"e","sinceState":"s"},"c5"]
    ]}"##;
    let request = Request::parse(json, 10, 4096).unwrap();
    match &request.method_calls[0].method {
        RequestMethod::Query(r) => {
            assert_eq!(r.account_id.text, "a");
            match r.arguments {
                ObjectArguments::EmailQuery(q) => assert_eq!(q.collapse_threads, Some(true)),
                other => panic!("{:?}", other),
            }
        }
        other => panic!("{:?}", other),
    }
    match &request.method_calls[1].method {
        RequestMethod::Query(r) => match r.arguments {
            ObjectArguments::MailboxQuery(q) => {
                assert_eq!(q.sort_as_tree, Some(true));
                assert_eq!(q.filter_as_tree, Some(false));
            }
            other => panic!("{:?}", other),
        },
        other => panic!("{:?}", other),
    }
    match &request.method_calls[2].method {
        RequestMethod::Modify(r) => match r.arguments {
            ObjectArguments::MailboxSet(s) => assert_eq!(s.on_destroy_remove_emails, Some(true)),
            other => panic!("{:?}", other),
        },
        other => panic!("{:?}", other),
    }
    match &request.method_calls[3].method {
        RequestMethod::Modify(r) => assert!(matches!(r.arguments, ObjectArguments::Plain)),
        other => panic!("{:?}", other),
    }
    match &request.method_calls[4].method {
        RequestMethod::Changes(r) => assert_eq!(r.account_id.text, "e"),
        other => panic!("{:?}", other),
    }
}

#[test]
fn failed_call_leaves_its_neighbours_alone() {
    let good = |id: &str| format!(r#"["Mailbox/get",{{"accountId":"{}"}},"{}"]"#, id, id);
    let bad = r#"["Email/get",{"accountId":5,"ids":[{"deep":[1,2,{"x":"]}"}]}]},"bad"]"#;
    let with_bad = format!(r#"{{"methodCalls":[{},{},{}]}}"#, good("a"), bad, good("b"));
    let placeholder = r#"["Core/echo",{},"bad"]"#;
    let with_placeholder =
        format!(r#"{{"methodCalls":[{},{},{}]}}"#, good("a"), placeholder, good("b"));
    let failed = Request::parse(with_bad.as_bytes(), 10, 4096).unwrap();
    let fine = Request::parse(with_placeholder.as_bytes(), 10, 4096).unwrap();
    assert_eq!(failed.method_calls.len(), 3);
    assert!(matches!(
        failed.method_calls[1].method,
        RequestMethod::Error(MethodError::InvalidArguments)
    ));
    assert_eq!(failed.method_calls[1].id, "bad");
    for i in [0, 2] {
        assert_eq!(failed.method_calls[i].id, fine.method_calls[i].id);
        match (&failed.method_calls[i].method, &fine.method_calls[i].method) {
            (RequestMethod::Get(x), RequestMethod::Get(y)) => {
                assert_eq!(x.account_id.text, y.account_id.text)
            }
            other => panic!("{:?}", other),
        }
    }
}

#[test]
fn later_created_id_replaces_the_earlier() {
    let json = br#"{"createdIds":{"c1":"m1","c2":"m2","c1":"m3"}}"#;
    let request = Request::parse(json, 10, 1024).unwrap();
    let created = request.created_ids.unwrap();
    assert_eq!(created.get(&"c1".to_string()).unwrap().text, "m3");
    assert_eq!(created.get(&"c2".to_string()).unwrap().text, "m2");
    assert_eq!(request.using, 0);
    assert!(request.method_calls.is_empty());
}

#[test]
fn request_error_from_error() {
    assert!(matches!(RequestError::from(Error::malformed()), RequestError::Malformed));
    match RequestError::from(Error::Method(MethodError::UnknownMethod("x/y".to_string()))) {
        RequestError::NotRequest(detail) => assert_eq!(detail, "Unknown method: x/y"),
        other => panic!("{:?}", other),
    }
    match RequestError::from(Error::invalid_arguments()) {
        RequestError::NotRequest(detail) => assert_eq!(detail, "Invalid arguments"),
        other => panic!("{:?}", other),
    }
    assert!(matches!(
        RequestError::from(Error::Request(RequestError::limit(RequestLimitError::Size))),
        RequestError::Limit(RequestLimitError::Size)
    ));
}

#[test]
fn every_input_gives_a_request_or_an_error() {
    let bytes = TEST.as_bytes();
    let mut requests = 0;
    // Every prefix, and every input with one byte changed.
    for end in 0..=bytes.len() {
        if Request::parse(&bytes[..end], 10, 1024).is_ok() {
            requests += 1;
        }
    }
    for at in 0..bytes.len() {
        for with in [b'"', b'{', b'}', b'[', b']', b',', b':', b'\\', b'x', 0xff, 0] {
            let mut changed = bytes.to_vec();
            changed[at] = with;
            match Request::parse(&changed, 2, 1024) {
                Ok(request) => assert!(request.method_calls.len() <= 2),
                Err(RequestError::Limit(RequestLimitError::Size)) => panic!("{}", at),
                Err(_) => {}
            }
        }
    }
    // Only the whole request, with or without the white space behind it, is one.
    assert_eq!(requests, bytes.len() - TEST.trim_end().len() + 1);
}
