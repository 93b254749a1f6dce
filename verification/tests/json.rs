use mail_core::error::{Error, MethodError, RequestError};
use mail_core::json::{integer_value, Parser, Span, Token, MAX_DEPTH};
use mail_core::keys::{find_first, pack_short, pack_word, to_lower};
use mail_core::method::get::{KEY_ACCOUNT_ID, KEY_IDS, KEY_PROPERTIES};
use mail_core::object::email;
use mail_core::object::mailbox;
use mail_core::request::parser::{KEY_CREATED_IDS, KEY_METHOD_CALLS, KEY_USING};
use mail_core::request::reference::{KEY_NAME, KEY_PATH, KEY_RESULT_OF};
use mail_core::request::{pack_key, RequestProperty};
use mail_core::text::decode_text;
use mail_core::types::{parse_text_list, Id};

fn tokens(json: &[u8]) -> Vec<Token> {
    let mut parser = Parser::new(json);
    let mut all = Vec::new();
    while let Ok(token) = parser.next_token() {
        all.push(token);
    }
    all
}

fn is_malformed<T>(result: &Result<T, Error>) -> bool {
    matches!(result, Err(Error::Request(RequestError::Malformed)))
}

fn is_invalid<T>(result: &Result<T, Error>) -> bool {
    matches!(result, Err(Error::Method(MethodError::InvalidArguments)))
}

#[test]
fn every_kind_of_token_is_read() {
    let json = br#" { "k" : [ 1 , -20 , true , false , null , 1.5 ] } "#;
    let all = tokens(json);
    let expected = vec![
        Token::DictStart,
        Token::String(Span { start: 4, end: 5 }),
        Token::Colon,
        Token::ArrayStart,
        Token::Number(Some(1)),
        Token::Comma,
        Token::Number(Some(-20)),
        Token::Comma,
        Token::Bool(true),
        Token::Comma,
        Token::Bool(false),
        Token::Comma,
        Token::Null,
        Token::Comma,
        Token::Number(None),
        Token::ArrayEnd,
        Token::DictEnd,
    ];
    assert_eq!(all.len(), expected.len());
    for (got, want) in all.iter().zip(expected.iter()) {
        assert!(got.is(want), "{:?} {:?}", got, want);
    }
}

#[test]
fn integers_are_read_to_the_ends_of_their_range() {
    assert_eq!(integer_value(b"0"), Some(0));
    assert_eq!(integer_value(b"-0"), Some(0));
    assert_eq!(integer_value(b"007"), Some(7));
    assert_eq!(integer_value(b"9223372036854775807"), Some(i64::MAX));
    assert_eq!(integer_value(b"9223372036854775808"), None);
    assert_eq!(integer_value(b"-9223372036854775808"), Some(i64::MIN));
    assert_eq!(integer_value(b"-9223372036854775809"), None);
    assert_eq!(integer_value(b"18446744073709551616"), None);
    assert_eq!(integer_value(b"99999999999999999999999999"), None);
    assert_eq!(integer_value(b""), None);
    assert_eq!(integer_value(b"-"), None);
    assert_eq!(integer_value(b"1.0"), None);
    assert_eq!(integer_value(b"1e3"), None);
    assert_eq!(integer_value(b"+1"), None);
    assert_eq!(integer_value(b"1-2"), None);
}

#[test]
fn depth_is_counted_and_bounded() {
    let mut parser = Parser::new(b"[{[]}]]");
    assert!(parser.next_token().unwrap().is(&Token::ArrayStart));
    assert_eq!((parser.depth_array, parser.depth_dict), (1, 0));
    assert!(parser.next_token().unwrap().is(&Token::DictStart));
    assert_eq!((parser.depth_array, parser.depth_dict), (1, 1));
    assert!(parser.next_token().unwrap().is(&Token::ArrayStart));
    assert!(parser.next_token().unwrap().is(&Token::ArrayEnd));
    assert!(parser.next_token().unwrap().is(&Token::DictEnd));
    assert!(parser.next_token().unwrap().is(&Token::ArrayEnd));
    assert_eq!((parser.depth_array, parser.depth_dict), (0, 0));
    let at = parser.pos;
    assert!(is_malformed(&parser.next_token()));
    assert_eq!(parser.pos, at);

    let deep = "[".repeat(MAX_DEPTH as usize + 1);
    let mut parser = Parser::new(deep.as_bytes());
    for _ in 0..MAX_DEPTH {
        assert!(parser.next_token().is_ok());
    }
    assert!(is_malformed(&parser.next_token()));
    assert_eq!(parser.depth_array, MAX_DEPTH);
}

#[test]
fn skip_token_reads_over_one_value() {
    let json = br#"{"a": [1, {"b": "]}"}, [[]]], "c": 2}"#;
    let mut parser = Parser::new(json);
    parser.next_token().unwrap();
    parser.next_dict_key().unwrap();
    parser.skip_token(parser.depth_array, parser.depth_dict).unwrap();
    assert_eq!(&json[parser.pos..], br#", "c": 2}"#);
    assert_eq!(parser.is_dict_end().unwrap(), false);
    let key = parser.next_dict_key().unwrap();
    assert_eq!(parser.slice(key), b"c");
    parser.skip_token(parser.depth_array, parser.depth_dict).unwrap();
    assert_eq!(parser.is_dict_end().unwrap(), true);
    assert_eq!(parser.pos, json.len());
    assert!(is_malformed(&parser.skip_token(0, 0)));
}

#[test]
fn skip_token_finds_the_floor_from_inside_a_value() {
    let json = br#"[{"a": [1, 2, {"x": 1}], "b": 2}, 7]"#;
    let mut parser = Parser::new(json);
    parser.next_token().unwrap();
    let (floor_array, floor_dict) = (parser.depth_array, parser.depth_dict);
    for _ in 0..6 {
        parser.next_token().unwrap();
    }
    parser.skip_token(floor_array, floor_dict).unwrap();
    assert_eq!(&json[parser.pos..], b", 7]");
}

#[test]
fn dict_key_needs_a_string_and_a_colon() {
    let mut parser = Parser::new(br#""a" : 1"#);
    let key = parser.next_dict_key().unwrap();
    assert_eq!((key.start, key.end), (1, 2));
    assert!(is_invalid(&Parser::new(b"1: 2").next_dict_key()));
    assert!(is_invalid(&Parser::new(br#""a", 2"#).next_dict_key()));
    assert!(is_malformed(&Parser::new(br#""a"#).next_dict_key()));
}

#[test]
fn end_of_a_container() {
    assert_eq!(Parser::new(b", 1").is_array_end().unwrap(), false);
    let mut parser = Parser::new(b"[]");
    parser.next_token().unwrap();
    assert_eq!(parser.is_array_end().unwrap(), true);
    assert!(is_malformed(&Parser::new(b": 1").is_array_end()));
    assert!(is_malformed(&Parser::new(b": 1").is_dict_end()));
    let mut parser = Parser::new(b"{}");
    parser.next_token().unwrap();
    assert_eq!(parser.is_dict_end().unwrap(), true);
}

#[test]
fn expect_tells_the_envelope_from_the_arguments() {
    assert!(Parser::new(b"{").expect(Token::DictStart, true).is_ok());
    assert!(is_invalid(&Parser::new(b"[").expect(Token::DictStart, false)));
    match Parser::new(b"[").expect(Token::DictStart, true) {
        Err(Error::Request(RequestError::NotRequest(detail))) => {
            assert_eq!(detail, "Invalid JMAP request")
        }
        other => panic!("{:?}", other),
    }
}

#[test]
fn typed_values() {
    assert_eq!(Token::Bool(true).unwrap_bool_or_null().unwrap(), Some(true));
    assert_eq!(Token::Null.unwrap_bool_or_null().unwrap(), None);
    assert!(is_invalid(&Token::Number(Some(1)).unwrap_bool_or_null()));
    assert_eq!(Token::Number(Some(17)).unwrap_usize_or_null().unwrap(), Some(17));
    assert_eq!(Token::Number(Some(0)).unwrap_usize_or_null().unwrap(), Some(0));
    assert_eq!(Token::Null.unwrap_usize_or_null().unwrap(), None);
    assert!(is_invalid(&Token::Number(Some(-1)).unwrap_usize_or_null()));
    assert!(is_invalid(&Token::Number(None).unwrap_usize_or_null()));
    assert!(is_invalid(&Token::Bool(false).unwrap_usize_or_null()));
    assert!(is_invalid(&Token::Comma.unwrap_string()));
    assert_eq!(Parser::new(b" null").next_bool_or_null().unwrap(), None);
    assert_eq!(Parser::new(b" 12 ").next_usize_or_null().unwrap(), Some(12));
}

#[test]
fn text_is_decoded() {
    assert_eq!(decode_text(b"plain").unwrap(), "plain");
    assert_eq!(decode_text(b"").unwrap(), "");
    assert_eq!(decode_text(br#"a\"b\\c\/d\be\ff\ng\rh\ti"#).unwrap(), "a\"b\\c/d\u{8}e\u{c}f\ng\rh\ti");
    assert_eq!(decode_text(br#"\u0041\u00e9\u20AC"#).unwrap(), "A\u{e9}\u{20ac}");
    assert_eq!(decode_text(br#"\ud83d\ude00"#).unwrap(), "\u{1f600}");
    assert_eq!(decode_text("h\u{e9}llo \u{1f600}".as_bytes()).unwrap(), "h\u{e9}llo \u{1f600}");
    assert_eq!(decode_text(br#"\u0000"#).unwrap(), "\0");
    for bad in [
        &br#"\x"#[..],
        br#"\"#,
        br#"\u12"#,
        br#"\u12g4"#,
        br#"\ud83d"#,
        br#"\ud83dx"#,
        br#"\ud83dA"#,
        br#"\ude00"#,
        b"\xff",
        b"\xc3",
        b"a\xe2\x82",
        b"\xed\xa0\x80",
    ] {
        assert!(is_malformed(&decode_text(bad)), "{:?}", bad);
    }
}

#[test]
fn list_of_texts() {
    let read = |json: &[u8]| parse_text_list::<Id>(&mut Parser::new(json));
    let texts = |json: &[u8]| -> Option<Vec<String>> {
        read(json).unwrap().map(|l| l.into_iter().map(|id| id.text).collect())
    };
    assert_eq!(texts(b"null"), None);
    assert_eq!(texts(b"[]"), Some(vec![]));
    assert_eq!(texts(br#"["a"]"#), Some(vec!["a".to_string()]));
    assert_eq!(texts(br#"[ "a" , "b\n" ]"#), Some(vec!["a".to_string(), "b\n".to_string()]));
    assert!(is_invalid(&read(b"{}")));
    assert!(is_invalid(&read(b"[1]")));
    assert!(is_invalid(&read(br#"["a",]"#)));
    assert!(is_malformed(&read(br#"["a" "b"]"#)));
    assert!(is_malformed(&read(br#"["a""#)));
    assert!(is_malformed(&read(b"[\"\xff\"]")));
}

#[test]
fn bytes_are_packed_with_the_first_byte_lowest() {
    assert_eq!(pack_short(b""), 0);
    assert_eq!(pack_short(b"a"), 0x61);
    assert_eq!(pack_short(b"ab"), 0x6261);
    assert_eq!(pack_short(b"using"), 0x676e_6973_75);
    assert_eq!(pack_short(&[0xff; 16]), u128::MAX);
    assert_eq!(pack_word(b"0123456789abcdefXY", 0, false), pack_short(b"0123456789abcdef"));
    assert_eq!(pack_word(b"0123456789abcdefXY", 1, false), 0x5958);
    assert_eq!(pack_word(b"0123456789abcdefXY", 1, true), 0x7978);
    assert_eq!(pack_word(b"0123456789abcdefXY", 2, true), 0);
    assert_eq!(pack_word(b"0123456789abcdef", 1, true), 0);
    assert_eq!(to_lower(b'A'), b'a');
    assert_eq!(to_lower(b'Z'), b'z');
    assert_eq!(to_lower(b'@'), b'@');
    assert_eq!(to_lower(b'['), b'[');
    assert_eq!(to_lower(b'a'), b'a');
    assert_eq!(find_first(b"a/b/c", b'/'), 1);
    assert_eq!(find_first(b"abc", b'/'), 3);
}

#[test]
fn key_constants_are_the_packed_keys() {
    assert_eq!(pack_key(b"using"), KEY_USING);
    assert_eq!(pack_key(b"methodCalls"), KEY_METHOD_CALLS);
    assert_eq!(pack_key(b"createdIds"), KEY_CREATED_IDS);
    assert_eq!(pack_key(b"accountId"), KEY_ACCOUNT_ID);
    assert_eq!(pack_key(b"ids"), KEY_IDS);
    assert_eq!(pack_key(b"properties"), KEY_PROPERTIES);
    assert_eq!(pack_key(b"resultOf"), KEY_RESULT_OF);
    assert_eq!(pack_key(b"name"), KEY_NAME);
    assert_eq!(pack_key(b"path"), KEY_PATH);
    assert_eq!(pack_key(b"ACCOUNTID"), KEY_ACCOUNT_ID);
    assert_eq!(pack_key(b"0123456789abcdefg"), 0);
    let two = |key: &[u8]| {
        let p = RequestProperty::parse(key);
        assert!(!p.is_ref);
        assert_eq!((p.hash[2], p.hash[3]), (0, 0));
        (p.hash[0], p.hash[1])
    };
    assert_eq!(two(b"bodyProperties"), (email::KEY_BODY_PROPERTIES, 0));
    assert_eq!(
        two(b"fetchTextBodyValues"),
        (email::KEY_FETCH_TEXT_BODY_VALUES, email::KEY_TAIL_UES)
    );
    assert_eq!(
        two(b"fetchHTMLBodyValues"),
        (email::KEY_FETCH_HTML_BODY_VALUES, email::KEY_TAIL_UES)
    );
    assert_eq!(
        two(b"fetchAllBodyValues"),
        (email::KEY_FETCH_ALL_BODY_VALUES, email::KEY_TAIL_ES)
    );
    assert_eq!(two(b"maxBodyValueBytes"), (email::KEY_MAX_BODY_VALUE_BYTES, email::KEY_TAIL_S));
    assert_eq!(two(b"collapseThreads"), (email::KEY_COLLAPSE_THREADS, 0));
    assert_eq!(
        two(b"onDestroyRemoveEmails"),
        (mailbox::KEY_ON_DESTROY_REMOVE_EMAILS, mailbox::KEY_TAIL_MAILS)
    );
    assert_eq!(two(b"sortAsTree"), (mailbox::KEY_SORT_AS_TREE, 0));
    assert_eq!(two(b"filterAsTree"), (mailbox::KEY_FILTER_AS_TREE, 0));
}

#[test]
fn property_marks_a_reference() {
    let p = RequestProperty::parse(b"ids#");
    assert!(p.is_ref);
    assert_eq!(p.hash, [KEY_IDS, 0, 0, 0]);
    let p = RequestProperty::parse(b"#");
    assert!(p.is_ref);
    assert_eq!(p.hash, [0, 0, 0, 0]);
    let p = RequestProperty::parse(b"");
    assert!(!p.is_ref);
    let long = [b'a'; 65];
    assert_eq!(RequestProperty::parse(&long).hash, [0, 0, 0, 0]);
    let p = RequestProperty::parse(&long[..64]);
    assert_eq!(p.hash, [pack_short(&long[..16]); 4]);
    let mut marked = long.to_vec();
    marked[64] = b'#';
    let p = RequestProperty::parse(&marked);
    assert!(p.is_ref);
    assert_eq!(p.hash, [pack_short(&long[..16]); 4]);
}

#[test]
fn different_keys_pack_to_different_values() {
    let keys: [&[u8]; 12] = [
        b"using", b"methodCalls", b"createdIds", b"accountId", b"ids", b"properties",
        b"resultOf", b"name", b"path", b"sortAsTree", b"filterAsTree", b"collapseThreads",
    ];
    for (i, a) in keys.iter().enumerate() {
        for (j, b) in keys.iter().enumerate() {
            assert_eq!(pack_key(a) == pack_key(b), i == j);
        }
    }
    assert_ne!(pack_short(b"a"), pack_short(b"a "));
    assert_ne!(pack_short(b"ab"), pack_short(b"ba"));
}
