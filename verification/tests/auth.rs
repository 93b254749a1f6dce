use mail_core::auth::{
    AuthAction, AuthConfig, AuthEvent, AuthOutcome, AuthResult, AuthState, AuthStep, Credentials,
};

type Action = AuthAction<&'static str, &'static str>;
type Event = AuthEvent<&'static str, &'static str>;
type Outcome = AuthOutcome<&'static str, &'static str>;

#[derive(Clone)]
struct World {
    primary: Result<Option<&'static str>, &'static str>,
    secret_of_admin: &'static str,
    users: Vec<&'static str>,
    directory_down_for_names: bool,
    failures: Vec<String>,
    threshold: usize,
}

fn world() -> World {
    World {
        primary: Ok(None),
        secret_of_admin: "sekret",
        users: vec!["alice"],
        directory_down_for_names: false,
        failures: vec![],
        threshold: usize::MAX,
    }
}

fn config(master: bool, fail2ban: bool) -> AuthConfig {
    AuthConfig {
        fallback_admin: Some(("root".to_string(), "hash_of_sekret".to_string())),
        fallback_admin_master: master,
        fail2ban,
    }
}

fn plain(username: &str, secret: &str) -> Credentials {
    Credentials::Plain { username: username.to_string(), secret: secret.to_string() }
}

fn kind(action: &Action) -> String {
    match action {
        AuthAction::QueryCredentials => "credentials".to_string(),
        AuthAction::VerifySecret => "secret".to_string(),
        AuthAction::QueryName(name) => format!("name:{}", name),
        AuthAction::CheckBan(login) => format!("ban:{}", login),
        AuthAction::Done(_) => "done".to_string(),
    }
}

/// Runs an authentication to its end, answering each action from `world`.
fn authenticate(config: &AuthConfig, credentials: &Credentials, world: &mut World) -> (Vec<String>, Outcome) {
    let (first, mut action): (AuthState<&'static str>, Action) = config.begin();
    let mut state = Some(first);
    let mut asked = vec![];
    loop {
        asked.push(kind(&action));
        let event: Event = match action {
            AuthAction::Done(outcome) => {
                assert!(state.is_none());
                return (asked, outcome);
            }
            AuthAction::QueryCredentials => AuthEvent::Directory(world.primary.clone()),
            AuthAction::VerifySecret => match credentials {
                Credentials::Plain { secret, .. } => AuthEvent::Secret(secret == world.secret_of_admin),
                _ => panic!("no secret to verify"),
            },
            AuthAction::QueryName(name) => AuthEvent::Directory(if world.directory_down_for_names {
                Err("down")
            } else {
                Ok(world.users.iter().find(|u| **u == name).copied())
            }),
            AuthAction::CheckBan(login) => {
                world.failures.push(login);
                AuthEvent::Ban(Ok(world.failures.len() > world.threshold))
            }
        };
        let (next, then) = config.next(credentials, state.take().unwrap(), event);
        state = next;
        action = then;
    }
}

fn is(outcome: &Outcome, expected: &str) -> bool {
    let got = match outcome {
        AuthOutcome::Success(p) => format!("success:{}", p),
        AuthOutcome::FallbackAdmin => "admin".to_string(),
        AuthOutcome::Failure => "failure".to_string(),
        AuthOutcome::Banned => "banned".to_string(),
        AuthOutcome::Error(e) => format!("error:{}", e),
    };
    got == expected
}

#[test]
fn directory_principal_succeeds_at_once() {
    let mut w = World { primary: Ok(Some("bob")), ..world() };
    let (asked, outcome) = authenticate(&config(true, true), &plain("bob", "pw"), &mut w);
    assert!(is(&outcome, "success:bob"));
    assert_eq!(asked, vec!["credentials", "done"]);
    assert!(w.failures.is_empty());
    // Even where the name would be the fallback administrator's.
    let mut w = World { primary: Ok(Some("root-in-directory")), ..world() };
    let (asked, outcome) = authenticate(&config(true, true), &plain("root", "sekret"), &mut w);
    assert!(is(&outcome, "success:root-in-directory"));
    assert_eq!(asked, vec!["credentials", "done"]);
}

#[test]
fn fallback_admin_master_user() {
    let credentials = plain("alice%root", "sekret");
    let mut w = world();
    let (asked, outcome) = authenticate(&config(true, true), &credentials, &mut w);
    assert!(is(&outcome, "success:alice"));
    assert_eq!(asked, vec!["credentials", "secret", "name:alice", "done"]);
    assert!(w.failures.is_empty());

    // The user is not in the directory: a failure, and nothing is counted.
    let mut w = World { users: vec![], threshold: 0, ..world() };
    let (asked, outcome) = authenticate(&config(true, true), &credentials, &mut w);
    assert!(is(&outcome, "failure"));
    assert_eq!(asked, vec!["credentials", "secret", "name:alice", "done"]);
    assert!(w.failures.is_empty());

    // The directory fails on the name: its error is the outcome.
    let mut w = World { directory_down_for_names: true, ..world() };
    let (_, outcome) = authenticate(&config(true, true), &credentials, &mut w);
    assert!(is(&outcome, "error:down"));
}

#[test]
fn name_is_split_at_the_last_percent_sign() {
    let c = config(true, false);
    assert_eq!(c.accounts(&"alice%root".to_string()), (Some("alice".to_string()), "root".to_string()));
    assert_eq!(c.accounts(&"a%b%root".to_string()), (Some("a%b".to_string()), "root".to_string()));
    assert_eq!(c.accounts(&"%root".to_string()), (Some("".to_string()), "root".to_string()));
    assert_eq!(c.accounts(&"alice%".to_string()), (Some("alice".to_string()), "".to_string()));
    assert_eq!(c.accounts(&"root".to_string()), (None, "root".to_string()));
    assert_eq!(c.accounts(&"".to_string()), (None, "".to_string()));
    assert_eq!(c.accounts(&"\u{e9}t\u{e9}%r\u{f6}\u{f6}t".to_string()), (Some("\u{e9}t\u{e9}".to_string()), "r\u{f6}\u{f6}t".to_string()));
    let c = config(false, false);
    assert_eq!(c.accounts(&"alice%root".to_string()), (None, "alice%root".to_string()));

    let mut w = World { users: vec!["a%b"], ..world() };
    let (asked, outcome) = authenticate(&config(true, true), &plain("a%b%root", "sekret"), &mut w);
    assert!(is(&outcome, "success:a%b"));
    assert_eq!(asked[2], "name:a%b");
}

#[test]
fn fallback_admin_as_itself() {
    let mut w = world();
    let (asked, outcome) = authenticate(&config(true, true), &plain("root", "sekret"), &mut w);
    assert!(is(&outcome, "admin"));
    assert_eq!(asked, vec!["credentials", "secret", "done"]);
    assert!(w.failures.is_empty());
    // The directory being down does not keep the administrator out.
    let mut w = World { primary: Err("down"), ..world() };
    let (_, outcome) = authenticate(&config(false, false), &plain("root", "sekret"), &mut w);
    assert!(is(&outcome, "admin"));
}

#[test]
fn master_user_needs_master_mode() {
    let mut w = world();
    let (asked, outcome) = authenticate(&config(false, true), &plain("alice%root", "sekret"), &mut w);
    assert!(is(&outcome, "failure"));
    assert_eq!(asked, vec!["credentials", "ban:alice%root", "done"]);
    assert_eq!(w.failures, vec!["alice%root"]);
}

#[test]
fn wrong_secret_is_counted() {
    let mut w = world();
    let (asked, outcome) = authenticate(&config(true, true), &plain("alice%root", "wrong"), &mut w);
    assert!(is(&outcome, "failure"));
    assert_eq!(asked, vec!["credentials", "secret", "ban:alice%root", "done"]);
    let (asked, outcome) = authenticate(&config(true, false), &plain("root", "wrong"), &mut w);
    assert!(is(&outcome, "failure"));
    assert_eq!(asked, vec!["credentials", "secret", "done"]);
}

#[test]
fn directory_error_is_reported_and_not_counted() {
    let mut w = World { primary: Err("down"), ..world() };
    let (asked, outcome) = authenticate(&config(true, true), &plain("bob", "pw"), &mut w);
    assert!(is(&outcome, "error:down"));
    assert_eq!(asked, vec!["credentials", "done"]);
    let (asked, outcome) = authenticate(&config(true, true), &plain("root", "wrong"), &mut w);
    assert!(is(&outcome, "error:down"));
    assert_eq!(asked, vec!["credentials", "secret", "done"]);
    assert!(w.failures.is_empty());
}

#[test]
fn failure_without_fail2ban() {
    let mut w = world();
    let none = AuthConfig { fallback_admin: None, fallback_admin_master: true, fail2ban: false };
    let (asked, outcome) = authenticate(&none, &plain("root", "sekret"), &mut w);
    assert!(is(&outcome, "failure"));
    assert_eq!(asked, vec!["credentials", "done"]);
}

#[test]
fn login_is_taken_from_the_credentials() {
    assert_eq!(plain("u", "s").login(), "u");
    let x = Credentials::XOauth2 { username: "x".to_string(), secret: "s".to_string() };
    assert_eq!(x.login(), "x");
    let b = Credentials::OAuthBearer { token: "tok".to_string() };
    assert_eq!(b.login(), "tok");
    let mut w = world();
    let (asked, _) = authenticate(&config(true, true), &b, &mut w);
    assert_eq!(asked, vec!["credentials", "ban:tok", "done"]);
    // Only plain credentials can be the fallback administrator's.
    let root = Credentials::XOauth2 { username: "root".to_string(), secret: "sekret".to_string() };
    let (asked, outcome) = authenticate(&config(true, true), &root, &mut w);
    assert!(is(&outcome, "failure"));
    assert_eq!(asked, vec!["credentials", "ban:root", "done"]);
}

#[test]
fn fail2ban_latch() {
    let c = config(true, true);
    let mut w = World { threshold: 3, ..world() };
    for _ in 0..3 {
        let (_, outcome) = authenticate(&c, &plain("bob", "guess"), &mut w);
        assert!(is(&outcome, "failure"));
    }
    // Over the threshold the attempt is banned, and stays so.
    for _ in 0..2 {
        let (_, outcome) = authenticate(&c, &plain("bob", "guess"), &mut w);
        assert!(is(&outcome, "banned"));
    }
    assert_eq!(w.failures.len(), 5);
    // Credentials that the directory accepts are not held against the count.
    w.primary = Ok(Some("bob"));
    let (asked, outcome) = authenticate(&c, &plain("bob", "right"), &mut w);
    assert!(is(&outcome, "success:bob"));
    assert_eq!(asked, vec!["credentials", "done"]);
    assert_eq!(w.failures.len(), 5);
}

#[test]
fn ban_store_error_is_reported() {
    let c = config(true, true);
    let state = AuthState { step: AuthStep::Ban, failed: None };
    let (next, action): (_, Action) = c.next(&plain("bob", "pw"), state, AuthEvent::Ban(Err("store")));
    assert!(next.is_none());
    assert!(matches!(action, AuthAction::Done(AuthOutcome::Error("store"))));
}

#[test]
fn answer_to_nothing_asked_lets_nobody_in() {
    let c = config(true, true);
    let state = AuthState { step: AuthStep::Primary, failed: None };
    let (next, action): (_, Action) = c.next(&plain("root", "sekret"), state, AuthEvent::Secret(true));
    assert!(next.is_none());
    assert!(matches!(action, AuthAction::Done(AuthOutcome::Failure)));
    let state = AuthState { step: AuthStep::Ban, failed: None };
    let (_, action): (_, Action) =
        c.next(&plain("root", "sekret"), state, AuthEvent::Directory(Ok(Some("p"))));
    assert!(matches!(action, AuthAction::Done(AuthOutcome::Failure)));
}

#[test]
fn auth_result_has_three_cases() {
    let all: [AuthResult<u32>; 3] = [AuthResult::Success(1), AuthResult::Failure, AuthResult::Banned];
    assert!(matches!(all[0], AuthResult::Success(1)));
    assert!(matches!(all[1], AuthResult::Failure));
    assert!(matches!(all[2], AuthResult::Banned));
}
