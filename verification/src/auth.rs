//! The decisions of the authentication coordinator.
//!
//! Authenticating asks the directory, may check a secret against the hash
//! of the fallback administrator, may ask the directory a second time, and
//! may ask the ban store. None of that is done here: the coordinator says
//! what to ask next, is told the answer, and decides from it.

use vstd::prelude::*;

verus! {

/// The result of an authentication.
pub enum AuthResult<T> {
    Success(T),
    Failure,
    /// The address is blocked after too many failed attempts.
    Banned,
}

/// What a client shows to prove who it is.
#[derive(Clone, Debug)]
pub enum Credentials {
    Plain { username: String, secret: String },
    XOauth2 { username: String, secret: String },
    OAuthBearer { token: String },
}

/// The mathematical value of [`Credentials`].
pub enum CredentialsView {
    Plain { username: Seq<char>, secret: Seq<char> },
    XOauth2 { username: Seq<char>, secret: Seq<char> },
    OAuthBearer { token: Seq<char> },
}

impl View for Credentials {
    type V = CredentialsView;

    open spec fn view(&self) -> CredentialsView {
        match self {
            Credentials::Plain { username, secret } => CredentialsView::Plain {
                username: username@,
                secret: secret@,
            },
            Credentials::XOauth2 { username, secret } => CredentialsView::XOauth2 {
                username: username@,
                secret: secret@,
            },
            Credentials::OAuthBearer { token } => CredentialsView::OAuthBearer { token: token@ },
        }
    }
}

/// What the coordinator needs of the configuration.
#[derive(Clone, Debug)]
pub struct AuthConfig {
    /// The name of the fallback administrator and the hash of its secret.
    pub fallback_admin: Option<(String, String)>,
    /// Whether the fallback administrator may log in as any user, with a
    /// name written `user%admin`.
    pub fallback_admin_master: bool,
    /// Whether failed attempts are counted against the address.
    pub fail2ban: bool,
}

/// The mathematical value of an [`AuthConfig`].
pub struct AuthConfigView {
    pub fallback_admin: Option<(Seq<char>, Seq<char>)>,
    pub fallback_admin_master: bool,
    pub fail2ban: bool,
}

impl View for AuthConfig {
    type V = AuthConfigView;

    open spec fn view(&self) -> AuthConfigView {
        AuthConfigView {
            fallback_admin: match self.fallback_admin {
                Some((name, hash)) => Some((name@, hash@)),
                None => None,
            },
            fallback_admin_master: self.fallback_admin_master,
            fail2ban: self.fail2ban,
        }
    }
}

/// How an authentication ended. `T` is a principal of the directory, `E`
/// an error of the directory or of the ban store.
pub enum AuthOutcome<T, E> {
    /// The directory knows the principal.
    Success(T),
    /// The client is the fallback administrator, logged in as itself.
    FallbackAdmin,
    Failure,
    Banned,
    Error(E),
}

/// What the coordinator waits for.
#[derive(Clone, Copy, Debug, PartialEq, Eq, Structural)]
pub enum AuthStep {
    /// The directory's answer to the credentials.
    Primary,
    /// Whether the secret matches the fallback administrator's hash.
    Secret,
    /// The directory's answer to the name of the user that the fallback
    /// administrator logs in as.
    Name,
    /// Whether the address is blocked now that the attempt was counted.
    Ban,
}

/// Where an authentication stands: what it waits for, and the error of the
/// directory's first answer, which is reported once the fallback
/// administrator has been ruled out.
pub struct AuthState<E> {
    pub step: AuthStep,
    pub failed: Option<E>,
}

/// What the coordinator wants done next.
pub enum AuthAction<T, E> {
    /// Ask the directory for the principal with the credentials.
    QueryCredentials,
    /// Check the secret of the credentials against the hash of the
    /// fallback administrator.
    VerifySecret,
    /// Ask the directory for the principal with this name.
    QueryName(String),
    /// Count a failed attempt of this login from the address, and ask
    /// whether the address is blocked now.
    CheckBan(String),
    /// Nothing more: this is how the authentication ended.
    Done(AuthOutcome<T, E>),
}

/// The mathematical value of an [`AuthAction`].
pub enum AuthActionView<T, E> {
    QueryCredentials,
    VerifySecret,
    QueryName(Seq<char>),
    CheckBan(Seq<char>),
    Done(AuthOutcome<T, E>),
}

impl<T, E> View for AuthAction<T, E> {
    type V = AuthActionView<T, E>;

    open spec fn view(&self) -> AuthActionView<T, E> {
        match self {
            AuthAction::QueryCredentials => AuthActionView::QueryCredentials,
            AuthAction::VerifySecret => AuthActionView::VerifySecret,
            AuthAction::QueryName(name) => AuthActionView::QueryName(name@),
            AuthAction::CheckBan(login) => AuthActionView::CheckBan(login@),
            AuthAction::Done(outcome) => AuthActionView::Done(*outcome),
        }
    }
}

/// What the coordinator is told.
pub enum AuthEvent<T, E> {
    /// The answer of the directory: a principal, none, or an error.
    Directory(Result<Option<T>, E>),
    /// Whether the secret matches the hash.
    Secret(bool),
    /// Whether the address is blocked, or the error of the ban store.
    Ban(Result<bool, E>),
}

/// The index of the last `c` in `s`, or `-1` if there is none.
pub open spec fn last_index(s: Seq<char>, c: char) -> int
    decreases s.len(),
{
    if s.len() == 0 {
        -1
    } else if s.last() == c {
        s.len() - 1
    } else {
        last_index(s.drop_last(), c)
    }
}

/// `s` split at its last `c`: what stands before it and what stands after
/// it, or nothing if there is no `c` in `s`.
pub open spec fn split_at_last(s: Seq<char>, c: char) -> Option<(Seq<char>, Seq<char>)> {
    let at = last_index(s, c);
    if at < 0 {
        None
    } else {
        Some((s.take(at), s.skip(at + 1)))
    }
}

/// The user that a login as `username` asks to be, and the administrator
/// that it logs in as: `user%admin` names both where the fallback
/// administrator may log in as any user, and otherwise the whole name is
/// the administrator's.
pub open spec fn accounts(master: bool, username: Seq<char>) -> (Option<Seq<char>>, Seq<char>) {
    match split_at_last(username, '%') {
        Some((user, admin)) => if master {
            (Some(user), admin)
        } else {
            (None, username)
        },
        None => (None, username),
    }
}

/// The name of the fallback administrator.
pub open spec fn fallback_name(config: AuthConfigView) -> Seq<char>
    recommends
        config.fallback_admin is Some,
{
    match config.fallback_admin {
        Some((name, _)) => name,
        None => Seq::empty(),
    }
}

/// Whether the credentials name the fallback administrator: one is
/// configured, the credentials are plain, and the administrator's part of
/// the name is the fallback administrator's name.
pub open spec fn names_fallback_admin(config: AuthConfigView, credentials: CredentialsView) -> bool {
    match (config.fallback_admin, credentials) {
        (Some((name, _)), CredentialsView::Plain { username, .. }) => accounts(
            config.fallback_admin_master,
            username,
        ).1 == name,
        _ => false,
    }
}

/// The user that the fallback administrator asks to log in as, if any.
pub open spec fn master_user(config: AuthConfigView, credentials: CredentialsView) -> Option<
    Seq<char>,
> {
    match credentials {
        CredentialsView::Plain { username, .. } => accounts(
            config.fallback_admin_master,
            username,
        ).0,
        _ => None,
    }
}

/// The login that a failed attempt is counted under.
pub open spec fn login_of(credentials: CredentialsView) -> Seq<char> {
    match credentials {
        CredentialsView::Plain { username, .. } => username,
        CredentialsView::XOauth2 { username, .. } => username,
        CredentialsView::OAuthBearer { token } => token,
    }
}

/// What follows once the fallback administrator is ruled out: the error of
/// the directory's first answer if there was one, else a check of the ban
/// store if failed attempts are counted, else a plain failure.
pub open spec fn after_fallback<T, E>(
    config: AuthConfigView,
    credentials: CredentialsView,
    failed: Option<E>,
) -> (Option<AuthState<E>>, AuthActionView<T, E>) {
    match failed {
        Some(err) => (None, AuthActionView::Done(AuthOutcome::Error(err))),
        None => if config.fail2ban {
            (
                Some(AuthState { step: AuthStep::Ban, failed: None }),
                AuthActionView::CheckBan(login_of(credentials)),
            )
        } else {
            (None, AuthActionView::Done(AuthOutcome::Failure))
        },
    }
}

/// The decision: from where the authentication stands and what it is told,
/// where it stands next, or nowhere if it has ended, and what is to be done.
///
/// A principal for the credentials ends it with success, and nothing is
/// counted. Without one, credentials that name the fallback administrator
/// have their secret checked. If it matches, the administrator is in, as
/// itself or, where it named a user, as that user if the directory knows
/// the user, and with a plain failure if not. If the credentials do not
/// name the administrator or the secret does not match, the error of the
/// directory's first answer is reported, or the attempt is counted.
pub open spec fn next_spec<T, E>(
    config: AuthConfigView,
    credentials: CredentialsView,
    state: AuthState<E>,
    event: AuthEvent<T, E>,
) -> (Option<AuthState<E>>, AuthActionView<T, E>) {
    match (state.step, event) {
        (AuthStep::Primary, AuthEvent::Directory(Ok(Some(principal)))) => (
            None,
            AuthActionView::Done(AuthOutcome::Success(principal)),
        ),
        (AuthStep::Primary, AuthEvent::Directory(answer)) => {
            let failed = match answer {
                Err(err) => Some(err),
                _ => None,
            };
            if names_fallback_admin(config, credentials) {
                (Some(AuthState { step: AuthStep::Secret, failed }), AuthActionView::VerifySecret)
            } else {
                after_fallback(config, credentials, failed)
            }
        },
        (AuthStep::Secret, AuthEvent::Secret(true)) => match master_user(config, credentials) {
            Some(user) => (
                Some(AuthState { step: AuthStep::Name, failed: None }),
                AuthActionView::QueryName(user),
            ),
            None => (None, AuthActionView::Done(AuthOutcome::FallbackAdmin)),
        },
        (AuthStep::Secret, AuthEvent::Secret(false)) => after_fallback(
            config,
            credentials,
            state.failed,
        ),
        (AuthStep::Name, AuthEvent::Directory(Ok(Some(principal)))) => (
            None,
            AuthActionView::Done(AuthOutcome::Success(principal)),
        ),
        (AuthStep::Name, AuthEvent::Directory(Ok(None))) => (
            None,
            AuthActionView::Done(AuthOutcome::Failure),
        ),
        (AuthStep::Name, AuthEvent::Directory(Err(err))) => (
            None,
            AuthActionView::Done(AuthOutcome::Error(err)),
        ),
        (AuthStep::Ban, AuthEvent::Ban(Ok(true))) => (
            None,
            AuthActionView::Done(AuthOutcome::Banned),
        ),
        (AuthStep::Ban, AuthEvent::Ban(Ok(false))) => (
            None,
            AuthActionView::Done(AuthOutcome::Failure),
        ),
        (AuthStep::Ban, AuthEvent::Ban(Err(err))) => (
            None,
            AuthActionView::Done(AuthOutcome::Error(err)),
        ),
        // An event that answers nothing that was asked lets nobody in.
        _ => (None, AuthActionView::Done(AuthOutcome::Failure)),
    }
}

/// `str::rsplit_once` of std with a `char` as the pattern: the parts of
/// `s` before and after the last `c`, or nothing if `s` holds no `c`.
#[verifier::external_body]
pub(crate) fn rsplit_once(s: &str, c: char) -> (parts: Option<(String, String)>)
    ensures
        match parts {
            Some((before, after)) => split_at_last(s@, c) == Some((before@, after@)),
            None => split_at_last(s@, c) is None,
        },
{
    match s.rsplit_once(c) {
        Some((before, after)) => Some((before.to_string(), after.to_string())),
        None => None,
    }
}

impl Credentials {
    /// The login that a failed attempt with these credentials is counted
    /// under.
    pub fn login(&self) -> (login: String)
        ensures
            login@ == login_of(self@),
    {
        match self {
            Credentials::Plain { username, .. } => username.clone(),
            Credentials::XOauth2 { username, .. } => username.clone(),
            Credentials::OAuthBearer { token } => token.clone(),
        }
    }
}

impl AuthConfig {
    /// The user that a login as `username` asks to be, and the
    /// administrator that it logs in as.
    pub fn accounts(&self, username: &String) -> (parts: (Option<String>, String))
        ensures
            (
                match parts.0 {
                    Some(user) => Some(user@),
                    None => None,
                },
                parts.1@,
            ) == accounts(self.fallback_admin_master, username@),
    {
        match rsplit_once(username.as_str(), '%') {
            Some((user, admin)) => if self.fallback_admin_master {
                (Some(user), admin)
            } else {
                (None, username.clone())
            },
            None => (None, username.clone()),
        }
    }

    /// Whether the credentials name the fallback administrator.
    pub fn names_fallback_admin(&self, credentials: &Credentials) -> (named: bool)
        ensures
            named == names_fallback_admin(self@, credentials@),
    {
        match (&self.fallback_admin, credentials) {
            (Some((name, _)), Credentials::Plain { username, .. }) => {
                let (_, admin) = self.accounts(username);
                admin == *name
            },
            _ => false,
        }
    }

    /// The user that the fallback administrator asks to log in as.
    pub fn master_user(&self, credentials: &Credentials) -> (user: Option<String>)
        ensures
            match user {
                Some(u) => master_user(self@, credentials@) == Some(u@),
                None => master_user(self@, credentials@) is None,
            },
    {
        match credentials {
            Credentials::Plain { username, .. } => self.accounts(username).0,
            _ => None,
        }
    }

    /// What follows once the fallback administrator is ruled out.
    pub fn after_fallback<T, E>(&self, credentials: &Credentials, failed: Option<E>) -> (next: (
        Option<AuthState<E>>,
        AuthAction<T, E>,
    ))
        ensures
            (next.0, next.1@) == after_fallback::<T, E>(self@, credentials@, failed),
    {
        match failed {
            Some(err) => (None, AuthAction::Done(AuthOutcome::Error(err))),
            None => if self.fail2ban {
                (
                    Some(AuthState { step: AuthStep::Ban, failed: None }),
                    AuthAction::CheckBan(credentials.login()),
                )
            } else {
                (None, AuthAction::Done(AuthOutcome::Failure))
            },
        }
    }

    /// How an authentication begins: it waits for the directory's answer to
    /// the credentials.
    pub fn begin<T, E>(&self) -> (first: (AuthState<E>, AuthAction<T, E>))
        ensures
            first.0 == (AuthState::<E> { step: AuthStep::Primary, failed: None }),
            first.1@ == AuthActionView::<T, E>::QueryCredentials,
    {
        (AuthState { step: AuthStep::Primary, failed: None }, AuthAction::QueryCredentials)
    }

    /// Decides what follows `event`, the answer to what `state` waits for.
    pub fn next<T, E>(
        &self,
        credentials: &Credentials,
        state: AuthState<E>,
        event: AuthEvent<T, E>,
    ) -> (next: (Option<AuthState<E>>, AuthAction<T, E>))
        ensures
            (next.0, next.1@) == next_spec(self@, credentials@, state, event),
    {
        match (state.step, event) {
            (AuthStep::Primary, AuthEvent::Directory(Ok(Some(principal)))) => (
                None,
                AuthAction::Done(AuthOutcome::Success(principal)),
            ),
            (AuthStep::Primary, AuthEvent::Directory(answer)) => {
                let failed = match answer {
                    Err(err) => Some(err),
                    _ => None,
                };
                if self.names_fallback_admin(credentials) {
                    (Some(AuthState { step: AuthStep::Secret, failed }), AuthAction::VerifySecret)
                } else {
                    self.after_fallback(credentials, failed)
                }
            },
            (AuthStep::Secret, AuthEvent::Secret(true)) => match self.master_user(credentials) {
                Some(user) => (
                    Some(AuthState { step: AuthStep::Name, failed: None }),
                    AuthAction::QueryName(user),
                ),
                None => (None, AuthAction::Done(AuthOutcome::FallbackAdmin)),
            },
            (AuthStep::Secret, AuthEvent::Secret(false)) => self.after_fallback(
                credentials,
                state.failed,
            ),
            (AuthStep::Name, AuthEvent::Directory(Ok(Some(principal)))) => (
                None,
                AuthAction::Done(AuthOutcome::Success(principal)),
            ),
            (AuthStep::Name, AuthEvent::Directory(Ok(None))) => (
                None,
                AuthAction::Done(AuthOutcome::Failure),
            ),
            (AuthStep::Name, AuthEvent::Directory(Err(err))) => (
                None,
                AuthAction::Done(AuthOutcome::Error(err)),
            ),
            (AuthStep::Ban, AuthEvent::Ban(Ok(true))) => (
                None,
                AuthAction::Done(AuthOutcome::Banned),
            ),
            (AuthStep::Ban, AuthEvent::Ban(Ok(false))) => (
                None,
                AuthAction::Done(AuthOutcome::Failure),
            ),
            (AuthStep::Ban, AuthEvent::Ban(Err(err))) => (
                None,
                AuthAction::Done(AuthOutcome::Error(err)),
            ),
            _ => (None, AuthAction::Done(AuthOutcome::Failure)),
        }
    }
}

/// What the directory, the check of the secret and the ban store would
/// answer if they were asked.
pub struct Oracle<T, E> {
    pub primary: Result<Option<T>, E>,
    pub secret: bool,
    pub named: Result<Option<T>, E>,
    pub ban: Result<bool, E>,
}

/// Whether the directory answered with a principal.
pub open spec fn known<T, E>(answer: Result<Option<T>, E>) -> bool {
    match answer {
        Ok(Some(_)) => true,
        _ => false,
    }
}

/// The answer to `action`.
pub open spec fn answer<T, E>(oracle: Oracle<T, E>, action: AuthActionView<T, E>) -> AuthEvent<
    T,
    E,
> {
    match action {
        AuthActionView::VerifySecret => AuthEvent::Secret(oracle.secret),
        AuthActionView::QueryName(_) => AuthEvent::Directory(oracle.named),
        AuthActionView::CheckBan(_) => AuthEvent::Ban(oracle.ban),
        _ => AuthEvent::Directory(oracle.primary),
    }
}

/// The actions of an authentication that stands at `state` and has just
/// asked for `action`, each answered by the oracle, up to the one that
/// ends it; `fuel` bounds their number.
pub open spec fn run<T, E>(
    config: AuthConfigView,
    credentials: CredentialsView,
    oracle: Oracle<T, E>,
    state: AuthState<E>,
    action: AuthActionView<T, E>,
    fuel: nat,
) -> Seq<AuthActionView<T, E>>
    decreases fuel,
{
    if fuel == 0 || action is Done {
        seq![action]
    } else {
        let (next, then) = next_spec(config, credentials, state, answer(oracle, action));
        match next {
            Some(s) => seq![action] + run(config, credentials, oracle, s, then, (fuel - 1) as nat),
            None => seq![action, then],
        }
    }
}

/// The actions of a whole authentication, from the question to the
/// directory to the action that ends it.
pub open spec fn actions<T, E>(
    config: AuthConfigView,
    credentials: CredentialsView,
    oracle: Oracle<T, E>,
) -> Seq<AuthActionView<T, E>> {
    run(
        config,
        credentials,
        oracle,
        AuthState { step: AuthStep::Primary, failed: None },
        AuthActionView::QueryCredentials,
        4,
    )
}

/// How a whole authentication ends.
pub open spec fn outcome<T, E>(
    config: AuthConfigView,
    credentials: CredentialsView,
    oracle: Oracle<T, E>,
) -> AuthOutcome<T, E> {
    match actions(config, credentials, oracle).last() {
        AuthActionView::Done(outcome) => outcome,
        _ => AuthOutcome::Failure,
    }
}

/// Whether `actions` count a failed attempt.
pub open spec fn counts_failure<T, E>(actions: Seq<AuthActionView<T, E>>) -> bool {
    exists|i: int| 0 <= i < actions.len() && actions[i] is CheckBan
}

/// Every authentication ends, after at most five actions, and only its
/// last action ends it.
pub proof fn lemma_authentication_ends<T, E>(
    config: AuthConfigView,
    credentials: CredentialsView,
    oracle: Oracle<T, E>,
)
    ensures
        2 <= actions(config, credentials, oracle).len() <= 5,
        actions(config, credentials, oracle).last() is Done,
        forall|i: int|
            0 <= i < actions(config, credentials, oracle).len() - 1 ==> !(actions(
                config,
                credentials,
                oracle,
            )[i] is Done),
{
    reveal_with_fuel(run, 5);
}

/// An authentication that succeeds counts no failed attempt: neither a
/// principal of the directory nor the fallback administrator is let in
/// after the ban store was asked.
pub proof fn lemma_success_counts_no_failure<T, E>(
    config: AuthConfigView,
    credentials: CredentialsView,
    oracle: Oracle<T, E>,
)
    requires
        outcome(config, credentials, oracle) is Success || outcome(config, credentials, oracle)
            is FallbackAdmin,
    ensures
        !counts_failure(actions(config, credentials, oracle)),
{
    reveal_with_fuel(run, 5);
}

/// The authority of a master user. Where the fallback administrator may
/// log in as any user and the directory has no principal for the
/// credentials as they stand, a login as `user%admin` succeeds exactly if
/// `admin` is the fallback administrator, the secret matches its hash, and
/// the directory knows `user`; the principal is then that user's. If only
/// the user is missing, the login fails, and no failed attempt is counted.
pub proof fn lemma_master_user_authority<T, E>(
    config: AuthConfigView,
    username: Seq<char>,
    secret: Seq<char>,
    oracle: Oracle<T, E>,
)
    requires
        config.fallback_admin is Some,
        config.fallback_admin_master,
        split_at_last(username, '%') is Some,
        !known(oracle.primary),
    ensures
        ({
            let credentials = CredentialsView::Plain { username, secret };
            let admin = accounts(true, username).1;
            let is_admin = admin == fallback_name(config) && oracle.secret;
            let result = outcome(config, credentials, oracle);
            &&& !(result is FallbackAdmin)
            &&& result is Success <==> is_admin && known(oracle.named)
            &&& result is Success ==> oracle.named == Ok::<Option<T>, E>(Some(result->Success_0))
            &&& is_admin && oracle.named == Ok::<Option<T>, E>(None) ==> result
                == AuthOutcome::<T, E>::Failure && !counts_failure(
                actions(config, credentials, oracle),
            )
        }),
{
    reveal_with_fuel(run, 5);
}

} // verus!
