use mail_core::auth::{AuthAction, AuthConfig, AuthEvent, AuthOutcome, AuthState, AuthStep, Credentials};
use mail_core::common::{
    tracer_directives, ArcSealer, Core, DeliveryResult, Directory, DkimSigner, IntoString, LookupStore,
    MailAuthConfig, Named, Network, QueueConfig, RelayHost, Scripting, Sieve, SmtpConfig, Storage,
};
use mail_core::gossip::IpAddress;

fn named<T>(entries: Vec<(&str, T)>) -> Named<T> {
    Named { entries: entries.into_iter().map(|(k, v)| (k.to_string(), v)).collect() }
}

fn snapshot() -> Core {
    Core {
        storage: Storage {
            directory: Directory { slot: 0 },
            directories: named(vec![("sql", Directory { slot: 1 }), ("ldap", Directory { slot: 2 })]),
            lookup: LookupStore { slot: 0 },
            lookups: named(vec![("redis", LookupStore { slot: 3 })]),
        },
        sieve: Scripting { scripts: named(vec![("spam", Sieve { slot: 4 })]) },
        network: Network { blocked_ips: vec![IpAddress::V4(1)], url: "'https://mail'".to_string() },
        smtp: SmtpConfig {
            mail_auth: MailAuthConfig {
                sealers: named(vec![("arc", ArcSealer { slot: 5 })]),
                signers: named(vec![
                    ("rsa", DkimSigner { slot: 6 }),
                    ("ed", DkimSigner { slot: 7 }),
                    ("rsa", DkimSigner { slot: 8 }),
                ]),
            },
            queue: QueueConfig {
                relay_hosts: named(vec![("relay", RelayHost { address: "mx.example".to_string(), port: 25 })]),
            },
        },
        jmap: AuthConfig {
            fallback_admin: Some(("root".to_string(), "hash".to_string())),
            fallback_admin_master: false,
            fail2ban: true,
        },
    }
}

#[test]
fn directories_fall_back_to_the_default() {
    let shared = snapshot();
    assert_eq!(shared.get_directory("sql"), Some(&Directory { slot: 1 }));
    assert_eq!(shared.get_directory("ldap"), Some(&Directory { slot: 2 }));
    assert_eq!(shared.get_directory("none"), None);
    assert_eq!(shared.get_directory(""), None);
    assert_eq!(shared.get_directory_or_default("ldap"), &Directory { slot: 2 });
    assert_eq!(shared.get_directory_or_default("none"), &Directory { slot: 0 });
    assert_eq!(shared.get_lookup_store("redis"), &LookupStore { slot: 3 });
    assert_eq!(shared.get_lookup_store("Redis"), &LookupStore { slot: 0 });
}

#[test]
fn keys_scripts_and_hosts_are_missing_where_not_named() {
    let shared = snapshot();
    assert_eq!(shared.get_arc_sealer("arc"), Some(&ArcSealer { slot: 5 }));
    assert_eq!(shared.get_arc_sealer("rsa"), None);
    assert_eq!(shared.get_dkim_signer("ed"), Some(&DkimSigner { slot: 7 }));
    // Of two signers with one name the first is found.
    assert_eq!(shared.get_dkim_signer("rsa"), Some(&DkimSigner { slot: 6 }));
    assert_eq!(shared.get_dkim_signer("arc"), None);
    assert_eq!(shared.get_sieve_script("spam"), Some(&Sieve { slot: 4 }));
    assert_eq!(shared.get_sieve_script("ham"), None);
    assert_eq!(shared.get_relay_host("relay").map(|h| (h.address.as_str(), h.port)), Some(("mx.example", 25)));
    assert!(shared.get_relay_host("other").is_none());
    assert!(Named::<u8>::new().get("x").is_none());
}

#[test]
fn bytes_turn_into_text() {
    assert_eq!(b"hello".to_vec().into_string(), "hello");
    assert_eq!(Vec::<u8>::new().into_string(), "");
    assert_eq!("h\u{e9}llo \u{1f600}".as_bytes().to_vec().into_string(), "h\u{e9}llo \u{1f600}");
    // What is not UTF-8 is replaced, and the rest is kept.
    assert_eq!(b"a\xffb".to_vec().into_string(), "a\u{fffd}b");
    assert_eq!(b"\xc3".to_vec().into_string(), "\u{fffd}");
    assert_eq!(b"ok \xe2\x82 end".to_vec().into_string(), "ok \u{fffd} end");
}

#[test]
fn core_decides_an_authentication() {
    let shared = snapshot();
    let credentials = Credentials::Plain { username: "root".to_string(), secret: "s".to_string() };
    let state: AuthState<u8> = AuthState { step: AuthStep::Primary, failed: None };
    let (next, action): (_, AuthAction<u8, u8>) =
        shared.authenticate(&credentials, state, AuthEvent::Directory(Ok(None)));
    assert!(matches!(action, AuthAction::VerifySecret));
    let (next, action): (_, AuthAction<u8, u8>) =
        shared.authenticate(&credentials, next.unwrap(), AuthEvent::Secret(true));
    assert!(next.is_none());
    assert!(matches!(action, AuthAction::Done(AuthOutcome::FallbackAdmin)));
}

#[test]
fn delivery_results() {
    let all = [
        DeliveryResult::Success,
        DeliveryResult::TemporaryFailure { reason: "later".to_string() },
        DeliveryResult::PermanentFailure { code: [5, 5, 0], reason: "no".to_string() },
    ];
    assert!(matches!(all[0], DeliveryResult::Success));
    assert!(matches!(&all[1], DeliveryResult::TemporaryFailure { reason } if reason == "later"));
    assert!(matches!(&all[2], DeliveryResult::PermanentFailure { code: [5, 5, 0], .. }));
}

#[test]
fn tracer_filter_names_every_part() {
    assert_eq!(
        tracer_directives("info"),
        "smtp=info,imap=info,jmap=info,store=info,common=info,utils=info,directory=info"
    );
    assert_eq!(
        tracer_directives(""),
        "smtp=,imap=,jmap=,store=,common=,utils=,directory="
    );
}
