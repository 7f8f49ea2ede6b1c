use vstd::prelude::*;
use vstd::utf8::encode_utf8;

use crate::text::{concat2, contains_char, spec_trim, str_eq, trim};
use crate::web::config::OAuthConfig;
use crate::web::error::{bad_request, is_bad_request, RequestError};

verus! {

/// Name of the cookie holding the session id.
pub const SESSION_COOKIE_NAME: &'static str = "deckgym_session";

/// How long a session lasts, in days.
pub const SESSION_TTL_DAYS: i64 = 30;

/// Name of the short-lived cookie holding an OAuth flow's CSRF token and PKCE verifier.
pub const OAUTH_STATE_COOKIE: &'static str = "deckgym_oauth_state";

/// Name of the short-lived cookie holding a first-time OAuth identity awaiting opt-in.
pub const PENDING_OAUTH_COOKIE: &'static str = "deckgym_pending_oauth";

/// Shortest accepted password, in bytes.
pub const MIN_PASSWORD_LEN: usize = 8;

/// The lower-case form of a string, as `str::to_lowercase` gives it (Unicode's full case
/// mapping, which is not stated here).
pub uninterp spec fn spec_to_lowercase(s: Seq<char>) -> Seq<char>;

/// Calls `str::to_lowercase`. Claims only that the result is the named lower-case form of
/// the argument's characters: the same characters always give the same result.
#[verifier::external_body]
fn to_lowercase(s: &str) -> (r: String)
    ensures
        r@ == spec_to_lowercase(s@),
{
    s.to_lowercase()
}

/// An email address as accounts are keyed by: trimmed, then lower-cased.
pub open spec fn spec_normalize_email(email: Seq<char>) -> Seq<char> {
    spec_to_lowercase(spec_trim(email))
}

/// See `spec_normalize_email`.
pub fn normalize_email(email: &str) -> (r: String)
    ensures
        r@ == spec_normalize_email(email@),
{
    to_lowercase(trim(email))
}

/// A sign-in provider.
#[derive(Clone, Copy, Debug, PartialEq, Eq, Structural)]
pub enum Provider {
    Google,
    Facebook,
}

/// The name of a provider in URLs and in the database.
pub open spec fn spec_provider_name(p: Provider) -> Seq<char> {
    match p {
        Provider::Google => "google"@,
        Provider::Facebook => "facebook"@,
    }
}

/// The provider named `s`, if any.
pub open spec fn spec_parse_provider(s: Seq<char>) -> Option<Provider> {
    if s == "google"@ {
        Some(Provider::Google)
    } else if s == "facebook"@ {
        Some(Provider::Facebook)
    } else {
        None
    }
}

impl Provider {
    pub fn parse(s: &str) -> (r: Option<Provider>)
        ensures
            r == spec_parse_provider(s@),
    {
        if str_eq(s, "google") {
            Some(Provider::Google)
        } else if str_eq(s, "facebook") {
            Some(Provider::Facebook)
        } else {
            None
        }
    }

    pub fn as_str(&self) -> (r: &'static str)
        ensures
            r@ == spec_provider_name(*self),
    {
        match self {
            Provider::Google => "google",
            Provider::Facebook => "facebook",
        }
    }
}

/// A provider's name parses back to that provider, and only a provider's name parses to it.
pub proof fn lemma_provider_name_round_trip(p: Provider, s: Seq<char>)
    ensures
        spec_parse_provider(spec_provider_name(p)) == Some(p),
        spec_parse_provider(s) == Some(p) ==> s == spec_provider_name(p),
{
    reveal_strlit("google");
    reveal_strlit("facebook");
    assert("google"@.len() == 6);
    assert("facebook"@.len() == 8);
}

/// The message refusing an unknown provider name.
pub open spec fn unknown_provider_message(s: Seq<char>) -> Seq<char> {
    "unknown oauth provider: "@ + s
}

/// The provider named in a request path; an unknown name is a bad request.
pub fn parse_provider(s: &str) -> (r: Result<Provider, RequestError>)
    ensures
        match spec_parse_provider(s@) {
            Some(p) => r matches Ok(q) && q == p,
            None => r matches Err(RequestError::BadRequest(m)) && m@ == unknown_provider_message(
                s@,
            ),
        },
{
    match Provider::parse(s) {
        Some(p) => Ok(p),
        None => Err(RequestError::BadRequest(concat2("unknown oauth provider: ", s))),
    }
}

/// The length in bytes of `s`'s UTF-8 encoding, as `str::len` reports it.
pub open spec fn byte_len(s: Seq<char>) -> usize {
    encode_utf8(s).len() as usize
}

/// A sign-up with email and password.
pub struct RegisterRequest {
    pub email: String,
    pub password: String,
    /// Must be true: no opt-in to training-data collection, no account.
    pub training_data_opt_in: bool,
}

/// The outcome of checking a sign-up: the normalized email, or the reason for refusing it.
/// Checked in order: the opt-in, then the email (non-empty and holding an '@' once
/// normalized), then the password's length in bytes.
pub open spec fn spec_check_registration(email: Seq<char>, password_bytes: nat, opt_in: bool) -> Result<
    Seq<char>,
    Seq<char>,
> {
    let e = spec_normalize_email(email);
    if !opt_in {
        Err("training_data_opt_in must be true to create an account"@)
    } else if e.len() == 0 || !e.contains('@') {
        Err("a valid email is required"@)
    } else if password_bytes < MIN_PASSWORD_LEN {
        Err("password must be at least 8 characters"@)
    } else {
        Ok(e)
    }
}

impl RegisterRequest {
    /// Checks the sign-up (see `spec_check_registration`); on success gives the email to
    /// store.
    pub fn validate(&self) -> (r: Result<String, RequestError>)
        ensures
            match spec_check_registration(
                self.email@,
                byte_len(self.password@) as nat,
                self.training_data_opt_in,
            ) {
                Ok(e) => r matches Ok(s) && s@ == e,
                Err(msg) => r matches Err(RequestError::BadRequest(m)) && m@ == msg,
            },
    {
        if !self.training_data_opt_in {
            return Err(bad_request("training_data_opt_in must be true to create an account"));
        }
        let email = normalize_email(self.email.as_str());
        if email.as_str().unicode_len() == 0 || !contains_char(email.as_str(), '@') {
            return Err(bad_request("a valid email is required"));
        }
        if self.password.as_str().len() < MIN_PASSWORD_LEN {
            return Err(bad_request("password must be at least 8 characters"));
        }
        Ok(email)
    }
}

/// No opt-in, no account: a sign-up without the opt-in is refused, whatever else it holds,
/// with the same message as a first-time sign-in through a provider without it.
pub proof fn lemma_no_opt_in_no_account(email: Seq<char>, password_bytes: nat)
    ensures
        spec_check_registration(email, password_bytes, false) == Err::<Seq<char>, Seq<char>>(
            opt_in_required_message(),
        ),
{
}

/// A sign-up is accepted exactly when it opts in, its email (trimmed and lower-cased) is
/// not empty and holds an '@', and its password is at least eight bytes long; an accepted
/// sign-up is stored under that email.
pub proof fn lemma_registration_accepts_exactly(email: Seq<char>, password_bytes: nat, opt_in: bool)
    ensures
        spec_check_registration(email, password_bytes, opt_in) is Ok <==> (opt_in
            && spec_normalize_email(email).len() > 0 && spec_normalize_email(email).contains('@')
            && password_bytes >= 8),
        opt_in && spec_normalize_email(email).len() > 0 && spec_normalize_email(email).contains('@')
            && password_bytes < 8 ==> spec_check_registration(email, password_bytes, opt_in)
            == Err::<Seq<char>, Seq<char>>("password must be at least 8 characters"@),
{
}

/// The email an account is stored under is the key that signing in with the same typed
/// email looks it up by.
pub proof fn lemma_registered_email_is_login_key(email: Seq<char>, password_bytes: nat, opt_in: bool)
    ensures
        spec_check_registration(email, password_bytes, opt_in) matches Ok(k) ==> k
            == spec_normalize_email(email),
{
}

/// A sign-in with email and password.
pub struct LoginRequest {
    pub email: String,
    pub password: String,
}

impl LoginRequest {
    /// The email to look the account up by: normalized as at sign-up.
    pub fn normalized_email(&self) -> (r: String)
        ensures
            r@ == spec_normalize_email(self.email@),
    {
        normalize_email(self.email.as_str())
    }
}

/// The query of a provider's redirect back after sign-in.
pub struct OAuthCallbackQuery {
    pub code: String,
    pub state: String,
}

/// Whether the state a provider sent back matches the flow this browser started: the CSRF
/// token stored at the start equals the returned `state`, and the stored provider name is
/// the provider of the callback's path.
pub fn oauth_state_matches(
    stored_csrf: &str,
    stored_provider: &str,
    returned_state: &str,
    provider: Provider,
) -> (b: bool)
    ensures
        b == (stored_csrf@ == returned_state@ && stored_provider@ == spec_provider_name(provider)),
{
    str_eq(stored_csrf, returned_state) && str_eq(stored_provider, provider.as_str())
}

/// What the browser kept of a sign-in flow it started: the CSRF token, the PKCE verifier and
/// the provider's name.
pub struct StoredOAuthState {
    pub csrf: String,
    pub verifier: String,
    pub provider: String,
}

/// Why a short-lived cookie of the sign-in flow could not be read.
#[derive(Clone, Copy, Debug, PartialEq, Eq, Structural)]
pub enum FlowCookieError {
    /// The request carries no such cookie.
    Missing,
    /// Its value is not what the service wrote.
    Invalid,
}

/// Checks a provider's callback against the state the browser kept: a missing or unreadable
/// state, or one that does not match the callback, is refused; otherwise the PKCE verifier
/// to exchange the code with is handed back.
pub fn check_callback_state(
    stored: Result<StoredOAuthState, FlowCookieError>,
    query: &OAuthCallbackQuery,
    provider: Provider,
) -> (r: Result<String, RequestError>)
    ensures
        match stored {
            Err(FlowCookieError::Missing) => is_bad_request(
                r,
                "missing oauth state; please try signing in again"@,
            ),
            Err(FlowCookieError::Invalid) => is_bad_request(
                r,
                "invalid oauth state; please try again"@,
            ),
            Ok(st) => if st.csrf@ == query.state@ && st.provider@ == spec_provider_name(provider) {
                r matches Ok(v) && v@ == st.verifier@
            } else {
                is_bad_request(r, "oauth state mismatch; please try again"@)
            },
        },
{
    match stored {
        Err(FlowCookieError::Missing) => Err(
            bad_request("missing oauth state; please try signing in again"),
        ),
        Err(FlowCookieError::Invalid) => Err(bad_request("invalid oauth state; please try again")),
        Ok(st) => {
            if !oauth_state_matches(
                st.csrf.as_str(),
                st.provider.as_str(),
                query.state.as_str(),
                provider,
            ) {
                return Err(bad_request("oauth state mismatch; please try again"));
            }
            Ok(st.verifier)
        },
    }
}

/// Where the browser goes to confirm a first-time sign-in through `provider`.
pub fn complete_signup_url(frontend_url: &str, provider: Provider) -> (r: String)
    ensures
        r@ == frontend_url@ + "/complete-signup?provider="@ + spec_provider_name(provider),
{
    let mut r = concat2(frontend_url, "/complete-signup?provider=");
    r.append(provider.as_str());
    r
}

/// A first-time identity from a provider, waiting for the opt-in before its account exists.
#[derive(Debug)]
pub struct PendingOAuthSignup {
    pub provider: String,
    pub subject: String,
    pub email: Option<String>,
}

/// Where a provider's callback goes once the identity is known.
pub enum CallbackStep {
    /// A returning identity: a session for the account `user_id`, then back to `redirect`
    /// (the frontend).
    SignIn { user_id: u128, redirect: String },
    /// A first-time identity: no account yet; `pending` waits in a cookie for the opt-in,
    /// and the browser goes to the confirmation page `redirect`.
    AwaitOptIn { pending: PendingOAuthSignup, redirect: String },
}

/// Decides a provider's callback for the identity `profile`: a returning identity (its
/// account `existing_user`) signs in; a first-time one only becomes pending, since there is
/// no account without the opt-in.
pub fn oauth_callback_step(
    existing_user: Option<u128>,
    provider: Provider,
    profile: OAuthProfile,
    frontend_url: &str,
) -> (r: CallbackStep)
    ensures
        match existing_user {
            Some(id) => r matches CallbackStep::SignIn { user_id, redirect } && user_id == id
                && redirect@ == frontend_url@,
            None => r matches CallbackStep::AwaitOptIn { pending, redirect } && {
                &&& pending.provider@ == spec_provider_name(provider)
                &&& pending.subject == profile.subject
                &&& pending.email == profile.email
                &&& redirect@ == frontend_url@ + "/complete-signup?provider="@
                    + spec_provider_name(provider)
            },
        },
{
    match existing_user {
        Some(id) => CallbackStep::SignIn { user_id: id, redirect: String::from_str(frontend_url) },
        None => CallbackStep::AwaitOptIn {
            pending: PendingOAuthSignup {
                provider: String::from_str(provider.as_str()),
                subject: profile.subject,
                email: profile.email,
            },
            redirect: complete_signup_url(frontend_url, provider),
        },
    }
}


/// The identity a confirmed first-time sign-in creates its account for: refused without the
/// opt-in (checked first), and when the pending identity is missing or unreadable.
pub fn check_pending_signup(
    req: &CompleteOAuthSignupRequest,
    pending: Result<PendingOAuthSignup, FlowCookieError>,
) -> (r: Result<PendingOAuthSignup, RequestError>)
    ensures
        !req.training_data_opt_in ==> is_bad_request(r, opt_in_required_message()),
        req.training_data_opt_in ==> match pending {
            Err(FlowCookieError::Missing) => is_bad_request(
                r,
                "no pending sign-in found; please start over"@,
            ),
            Err(FlowCookieError::Invalid) => is_bad_request(r, "invalid pending sign-in"@),
            Ok(p) => r == Ok::<PendingOAuthSignup, RequestError>(p),
        },
{
    if !req.training_data_opt_in {
        return Err(bad_request("training_data_opt_in must be true to create an account"));
    }
    match pending {
        Err(FlowCookieError::Missing) => Err(
            bad_request("no pending sign-in found; please start over"),
        ),
        Err(FlowCookieError::Invalid) => Err(bad_request("invalid pending sign-in")),
        Ok(p) => Ok(p),
    }
}

/// The refusal of a sign-up whose identity (email, or provider account) already has an
/// account, when the database reports a unique violation; none for any other error.
pub fn map_unique_violation(is_unique_violation: bool) -> (r: Option<RequestError>)
    ensures
        is_unique_violation ==> (r matches Some(RequestError::Conflict(m)) && m@
            == "an account with that identity already exists"@),
        !is_unique_violation ==> r is None,
{
    if is_unique_violation {
        Some(RequestError::Conflict(String::from_str("an account with that identity already exists")))
    } else {
        None
    }
}

/// The confirmation step of a first-time sign-in through a provider.
pub struct CompleteOAuthSignupRequest {
    pub training_data_opt_in: bool,
}

/// The message refusing a sign-up without opt-in.
pub open spec fn opt_in_required_message() -> Seq<char> {
    "training_data_opt_in must be true to create an account"@
}

impl CompleteOAuthSignupRequest {
    /// Accepted exactly when the opt-in is given.
    pub fn validate(&self) -> (r: Result<(), RequestError>)
        ensures
            self.training_data_opt_in ==> r is Ok,
            !self.training_data_opt_in ==> (r matches Err(RequestError::BadRequest(m)) && m@
                == opt_in_required_message()),
    {
        if !self.training_data_opt_in {
            return Err(bad_request("training_data_opt_in must be true to create an account"));
        }
        Ok(())
    }
}

/// Where a provider's sign-in starts, as handed to the browser.
pub struct AuthorizationRequest {
    pub url: String,
    pub csrf_token: String,
    pub pkce_verifier: String,
}

/// What a provider tells about a signed-in user.
pub struct OAuthProfile {
    /// The provider's stable id for the user.
    pub subject: String,
    pub email: Option<String>,
}

/// The endpoints and credentials an OAuth client for one provider is built from.
pub struct OAuthClientSettings {
    pub auth_url: String,
    pub token_url: String,
    pub client_id: String,
    pub client_secret: String,
    pub redirect_url: String,
}

pub open spec fn spec_auth_url(p: Provider) -> Seq<char> {
    match p {
        Provider::Google => "https://accounts.google.com/o/oauth2/v2/auth"@,
        Provider::Facebook => "https://www.facebook.com/v19.0/dialog/oauth"@,
    }
}

pub open spec fn spec_token_url(p: Provider) -> Seq<char> {
    match p {
        Provider::Google => "https://oauth2.googleapis.com/token"@,
        Provider::Facebook => "https://graph.facebook.com/v19.0/oauth/access_token"@,
    }
}

/// The redirect address registered with a provider: under the service's own base URL.
pub open spec fn spec_redirect_url(api_base_url: Seq<char>, p: Provider) -> Seq<char> {
    api_base_url + "/api/auth/oauth/"@ + spec_provider_name(p) + "/callback"@
}

pub open spec fn spec_client_id(p: Provider, c: OAuthConfig) -> Seq<char> {
    match p {
        Provider::Google => c.google_client_id@,
        Provider::Facebook => c.facebook_client_id@,
    }
}

pub open spec fn spec_client_secret(p: Provider, c: OAuthConfig) -> Seq<char> {
    match p {
        Provider::Google => c.google_client_secret@,
        Provider::Facebook => c.facebook_client_secret@,
    }
}

/// The message refusing to sign in through a provider with no credentials configured.
pub open spec fn not_configured_message(p: Provider) -> Seq<char> {
    spec_provider_name(p) + " OAuth is not configured (missing client id/secret)"@
}

fn clone_string(s: &String) -> (r: String)
    ensures
        r@ == s@,
{
    s.clone()
}

/// The message of the error that `url::Url::parse` (re-exported by `oauth2` as
/// `oauth2::url`) gives for a text that is no absolute URL; none when the text parses.
pub uninterp spec fn spec_url_parse_error(s: Seq<char>) -> Option<Seq<char>>;

/// Calls `oauth2::url::Url::parse`, the parse that `AuthUrl::new`, `TokenUrl::new` and
/// `RedirectUrl::new` make, and keeps only its error's message. Claims only the named result.
#[verifier::external_body]
fn url_parse_error(s: &str) -> (r: Option<String>)
    ensures
        match r {
            Some(m) => spec_url_parse_error(s@) == Some(m@),
            None => spec_url_parse_error(s@) is None,
        },
{
    match oauth2::url::Url::parse(s) {
        Ok(_) => None,
        Err(e) => Some(e.to_string()),
    }
}

/// The first of the client's three addresses that is no URL, by its error: the
/// authorization endpoint, then the token endpoint, then the redirect address.
pub open spec fn spec_first_url_error(p: Provider, c: OAuthConfig) -> Option<Seq<char>> {
    if spec_url_parse_error(spec_auth_url(p)) is Some {
        spec_url_parse_error(spec_auth_url(p))
    } else if spec_url_parse_error(spec_token_url(p)) is Some {
        spec_url_parse_error(spec_token_url(p))
    } else {
        spec_url_parse_error(spec_redirect_url(c.api_base_url@, p))
    }
}

/// The client settings for `provider`. Fails, with `not_configured_message`, when its
/// client id or secret is empty (missing credentials only matter once someone signs in
/// through that provider), and with the parse error of the first address that is no URL.
pub fn build_client(provider: Provider, config: &OAuthConfig) -> (r: Result<
    OAuthClientSettings,
    String,
>)
    ensures
        (spec_client_id(provider, *config).len() == 0 || spec_client_secret(provider, *config).len()
            == 0) ==> (r matches Err(m) && m@ == not_configured_message(provider)),
        (spec_client_id(provider, *config).len() > 0 && spec_client_secret(provider, *config).len()
            > 0) ==> match spec_first_url_error(provider, *config) {
            Some(e) => r matches Err(m) && m@ == e,
            None => r matches Ok(s) && {
                &&& s.auth_url@ == spec_auth_url(provider)
                &&& s.token_url@ == spec_token_url(provider)
                &&& s.client_id@ == spec_client_id(provider, *config)
                &&& s.client_secret@ == spec_client_secret(provider, *config)
                &&& s.redirect_url@ == spec_redirect_url(config.api_base_url@, provider)
            },
        },
{
    let (auth_url, token_url, client_id, client_secret) = match provider {
        Provider::Google => (
            "https://accounts.google.com/o/oauth2/v2/auth",
            "https://oauth2.googleapis.com/token",
            &config.google_client_id,
            &config.google_client_secret,
        ),
        Provider::Facebook => (
            "https://www.facebook.com/v19.0/dialog/oauth",
            "https://graph.facebook.com/v19.0/oauth/access_token",
            &config.facebook_client_id,
            &config.facebook_client_secret,
        ),
    };
    if client_id.as_str().unicode_len() == 0 || client_secret.as_str().unicode_len() == 0 {
        return Err(concat2(provider.as_str(), " OAuth is not configured (missing client id/secret)"));
    }
    let mut redirect_url = concat2(config.api_base_url.as_str(), "/api/auth/oauth/");
    redirect_url.append(provider.as_str());
    redirect_url.append("/callback");
    if let Some(e) = url_parse_error(auth_url) {
        return Err(e);
    }
    if let Some(e) = url_parse_error(token_url) {
        return Err(e);
    }
    if let Some(e) = url_parse_error(redirect_url.as_str()) {
        return Err(e);
    }
    Ok(OAuthClientSettings {
        auth_url: String::from_str(auth_url),
        token_url: String::from_str(token_url),
        client_id: clone_string(client_id),
        client_secret: clone_string(client_secret),
        redirect_url,
    })
}

/// The scopes asked of a provider: email and profile, and for Google also openid (without
/// which Google's user-info endpoint gives no subject id).
pub open spec fn spec_scopes(p: Provider) -> Seq<Seq<char>> {
    match p {
        Provider::Google => seq!["email"@, "profile"@, "openid"@],
        Provider::Facebook => seq!["email"@, "profile"@],
    }
}

/// See `spec_scopes`.
pub fn authorization_scopes(provider: Provider) -> (r: Vec<&'static str>)
    ensures
        r@.len() == spec_scopes(provider).len(),
        forall|i: int| 0 <= i < r@.len() ==> #[trigger] r@[i]@ == spec_scopes(provider)[i],
{
    let mut scopes: Vec<&'static str> = Vec::new();
    scopes.push("email");
    scopes.push("profile");
    if provider == Provider::Google {
        scopes.push("openid");
    }
    scopes
}

} // verus!
