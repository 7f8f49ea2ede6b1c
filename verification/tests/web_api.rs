//! The service's request checks, cookies and listing rules on concrete values.

use deckgym::text::{str_eq, trim};
use deckgym::web::auth::{
    authorization_scopes, build_client, check_callback_state, check_pending_signup,
    complete_signup_url, map_unique_violation, normalize_email, oauth_callback_step,
    oauth_state_matches, CallbackStep, OAuthProfile,
    parse_provider, CompleteOAuthSignupRequest, FlowCookieError, LoginRequest,
    OAuthCallbackQuery, PendingOAuthSignup, Provider, RegisterRequest, StoredOAuthState,
    MIN_PASSWORD_LEN, OAUTH_STATE_COOKIE, PENDING_OAUTH_COOKIE, SESSION_COOKIE_NAME,
    SESSION_TTL_DAYS,
};
use deckgym::web::cards::{
    card_image_url, catalog_image_url, sort_catalog_by_id, CardCatalogEntry, CardType,
};
use deckgym::web::config::{Config, EnvValues, OAuthConfig};
use deckgym::web::decks::{
    check_deck_editable, deck_rules_hold, join_strings, map_foreign_key_violation,
    unimplemented_card_labels, validate_deck_cards, validate_deck_text, DeckCard, DeckRequest,
};
use deckgym::web::error::RequestError;
use deckgym::web::games::{
    inaccessible_deck, is_valid_outcome, parse_i64, CreateGameRequest, GameSummary,
    ListGamesQuery, UpdateGameRequest,
};
use deckgym::web::session::{
    build_logout_cookie, build_oauth_cookie, build_session_cookie, session_id_from_cookie,
    SameSite,
};

fn bad_request_message<T: std::fmt::Debug>(r: Result<T, RequestError>) -> String {
    match r {
        Err(RequestError::BadRequest(m)) => m,
        other => panic!("expected a bad request, got {other:?}"),
    }
}

fn oauth_config(google: bool) -> OAuthConfig {
    OAuthConfig {
        google_client_id: if google { "test-google-client-id".to_string() } else { String::new() },
        google_client_secret: if google {
            "test-google-client-secret".to_string()
        } else {
            String::new()
        },
        facebook_client_id: String::new(),
        facebook_client_secret: String::new(),
        api_base_url: "http://localhost:8080".to_string(),
    }
}

// ---- accounts ----

#[test]
fn register_creates_account_and_sets_session_cookie() {
    let req = RegisterRequest {
        email: "  Alice@Example.com ".to_string(),
        password: "correct horse battery staple".to_string(),
        training_data_opt_in: true,
    };
    assert_eq!(req.validate().unwrap(), "alice@example.com");
    let c = build_session_cookie(0x550e8400_e29b_41d4_a716_446655440000, false);
    assert_eq!(c.name, SESSION_COOKIE_NAME);
    assert_eq!(c.value, "550e8400-e29b-41d4-a716-446655440000");
    assert!(c.http_only);
    assert!(!c.secure);
    assert_eq!(c.same_site, SameSite::Lax);
    assert_eq!(c.path, "/");
    assert_eq!(c.max_age_seconds, SESSION_TTL_DAYS * 86400);
}

#[test]
fn register_without_opt_in_is_rejected() {
    let req = RegisterRequest {
        email: "bob@example.com".to_string(),
        password: "correct horse battery staple".to_string(),
        training_data_opt_in: false,
    };
    assert_eq!(
        bad_request_message(req.validate()),
        "training_data_opt_in must be true to create an account"
    );
}

#[test]
fn register_with_short_password_is_rejected() {
    let req = RegisterRequest {
        email: "carol@example.com".to_string(),
        password: "short".to_string(),
        training_data_opt_in: true,
    };
    assert_eq!(bad_request_message(req.validate()), "password must be at least 8 characters");
    // Length counts bytes: four two-byte characters are long enough.
    let req = RegisterRequest {
        email: "carol@example.com".to_string(),
        password: "éééé".to_string(),
        training_data_opt_in: true,
    };
    assert!(req.validate().is_ok());
    assert_eq!(MIN_PASSWORD_LEN, 8);
}

#[test]
fn register_with_invalid_email_is_rejected() {
    for email in ["   ", "no-at-sign.example.com"] {
        let req = RegisterRequest {
            email: email.to_string(),
            password: "correct horse battery staple".to_string(),
            training_data_opt_in: true,
        };
        assert_eq!(bad_request_message(req.validate()), "a valid email is required");
    }
}

#[test]
fn registering_the_same_email_twice_conflicts() {
    match map_unique_violation(true) {
        Some(RequestError::Conflict(m)) => {
            assert_eq!(m, "an account with that identity already exists")
        }
        other => panic!("unexpected {other:?}"),
    }
    assert!(map_unique_violation(false).is_none());
}

#[test]
fn login_with_unknown_email_is_unauthorized() {
    let req = LoginRequest { email: " DAVE@example.COM".to_string(), password: "x".to_string() };
    assert_eq!(req.normalized_email(), "dave@example.com");
    assert_eq!(normalize_email("\tErin@Example.org\n"), "erin@example.org");
}

#[test]
fn me_without_session_is_unauthorized() {
    assert!(matches!(session_id_from_cookie(None), Err(RequestError::Unauthorized)));
    assert!(matches!(session_id_from_cookie(Some("not-a-uuid")), Err(RequestError::Unauthorized)));
    assert!(matches!(session_id_from_cookie(Some("")), Err(RequestError::Unauthorized)));
}

#[test]
fn me_with_valid_session_returns_the_registered_user() {
    let id: u128 = 0x0123_4567_89ab_cdef_0123_4567_89ab_cdef;
    let c = build_session_cookie(id, true);
    assert!(c.secure);
    assert_eq!(c.value, "01234567-89ab-cdef-0123-456789abcdef");
    assert!(matches!(session_id_from_cookie(Some(c.value.as_str())), Ok(x) if x == id));
    assert!(matches!(
        session_id_from_cookie(Some("{01234567-89AB-CDEF-0123-456789ABCDEF}")),
        Ok(x) if x == id
    ));
}

#[test]
fn logout_revokes_the_session() {
    let c = build_logout_cookie(true);
    assert_eq!(c.name, SESSION_COOKIE_NAME);
    assert_eq!(c.value, "");
    assert_eq!(c.path, "/");
    assert_eq!(c.max_age_seconds, 0);
    assert!(c.secure && c.http_only);
    assert!(matches!(session_id_from_cookie(Some(c.value.as_str())), Err(RequestError::Unauthorized)));
}

#[test]
fn oauth_start_redirects_to_google_and_sets_state_cookie() {
    let s = build_client(Provider::Google, &oauth_config(true)).unwrap();
    assert_eq!(s.auth_url, "https://accounts.google.com/o/oauth2/v2/auth");
    assert_eq!(s.token_url, "https://oauth2.googleapis.com/token");
    assert_eq!(s.client_id, "test-google-client-id");
    assert_eq!(s.client_secret, "test-google-client-secret");
    assert_eq!(s.redirect_url, "http://localhost:8080/api/auth/oauth/google/callback");
    assert_eq!(authorization_scopes(Provider::Google), vec!["email", "profile", "openid"]);
    assert_eq!(authorization_scopes(Provider::Facebook), vec!["email", "profile"]);
    let c = build_oauth_cookie(OAUTH_STATE_COOKIE, "{\"csrf\":\"x\"}".to_string(), false);
    assert_eq!(c.name, "deckgym_oauth_state");
    assert_eq!(c.value, "{\"csrf\":\"x\"}");
    assert_eq!(c.path, "/api/auth");
    assert_eq!(c.max_age_seconds, 600);
    assert_eq!(PENDING_OAUTH_COOKIE, "deckgym_pending_oauth");
}

#[test]
fn oauth_for_an_unconfigured_provider_fails() {
    match build_client(Provider::Facebook, &oauth_config(true)) {
        Err(m) => assert_eq!(m, "facebook OAuth is not configured (missing client id/secret)"),
        Ok(_) => panic!("facebook has no credentials"),
    }
    let mut c = oauth_config(true);
    c.api_base_url = "not a url".to_string();
    match build_client(Provider::Google, &c) {
        Err(m) => assert_eq!(m, "relative URL without a base"),
        Ok(_) => panic!("the redirect address is no URL"),
    }
}

#[test]
fn oauth_start_with_unknown_provider_is_rejected() {
    assert_eq!(bad_request_message(parse_provider("myspace")), "unknown oauth provider: myspace");
    assert!(matches!(parse_provider("google"), Ok(Provider::Google)));
    assert!(matches!(Provider::parse("facebook"), Some(Provider::Facebook)));
    assert!(Provider::parse("Google").is_none());
    assert_eq!(Provider::Google.as_str(), "google");
    assert_eq!(Provider::Facebook.as_str(), "facebook");
}

#[test]
fn oauth_callback_without_state_cookie_is_rejected() {
    let query = OAuthCallbackQuery { code: "c".to_string(), state: "s1".to_string() };
    assert_eq!(
        bad_request_message(check_callback_state(Err(FlowCookieError::Missing), &query, Provider::Google)),
        "missing oauth state; please try signing in again"
    );
    assert_eq!(
        bad_request_message(check_callback_state(Err(FlowCookieError::Invalid), &query, Provider::Google)),
        "invalid oauth state; please try again"
    );
    let stored = |csrf: &str, provider: &str| StoredOAuthState {
        csrf: csrf.to_string(),
        verifier: "v".to_string(),
        provider: provider.to_string(),
    };
    assert_eq!(
        bad_request_message(check_callback_state(Ok(stored("s2", "google")), &query, Provider::Google)),
        "oauth state mismatch; please try again"
    );
    assert_eq!(
        bad_request_message(check_callback_state(Ok(stored("s1", "facebook")), &query, Provider::Google)),
        "oauth state mismatch; please try again"
    );
    assert_eq!(check_callback_state(Ok(stored("s1", "google")), &query, Provider::Google).unwrap(), "v");
    assert!(oauth_state_matches("a", "google", "a", Provider::Google));
    assert!(!oauth_state_matches("a", "google", "b", Provider::Google));
    assert_eq!(
        complete_signup_url("http://localhost:3000", Provider::Facebook),
        "http://localhost:3000/complete-signup?provider=facebook"
    );
}

#[test]
fn oauth_callback_signs_in_returning_identities_only() {
    let profile = || OAuthProfile { subject: "sub-1".to_string(), email: Some("a@b.c".to_string()) };
    match oauth_callback_step(Some(9), Provider::Google, profile(), "http://localhost:3000") {
        CallbackStep::SignIn { user_id, redirect } => {
            assert_eq!(user_id, 9);
            assert_eq!(redirect, "http://localhost:3000");
        }
        CallbackStep::AwaitOptIn { .. } => panic!("a returning identity signs in"),
    }
    match oauth_callback_step(None, Provider::Google, profile(), "http://localhost:3000") {
        CallbackStep::AwaitOptIn { pending, redirect } => {
            assert_eq!(pending.provider, "google");
            assert_eq!(pending.subject, "sub-1");
            assert_eq!(pending.email, Some("a@b.c".to_string()));
            assert_eq!(redirect, "http://localhost:3000/complete-signup?provider=google");
        }
        CallbackStep::SignIn { .. } => panic!("a first-time identity has no account yet"),
    }
}

#[test]
fn complete_oauth_signup_without_pending_signup_is_rejected() {
    let yes = CompleteOAuthSignupRequest { training_data_opt_in: true };
    assert_eq!(
        bad_request_message(check_pending_signup(&yes, Err(FlowCookieError::Missing))),
        "no pending sign-in found; please start over"
    );
    assert_eq!(
        bad_request_message(check_pending_signup(&yes, Err(FlowCookieError::Invalid))),
        "invalid pending sign-in"
    );
    let pending = PendingOAuthSignup {
        provider: "google".to_string(),
        subject: "123".to_string(),
        email: None,
    };
    assert_eq!(check_pending_signup(&yes, Ok(pending)).unwrap().subject, "123");
}

#[test]
fn complete_oauth_signup_without_opt_in_is_rejected() {
    let no = CompleteOAuthSignupRequest { training_data_opt_in: false };
    assert_eq!(
        bad_request_message(check_pending_signup(&no, Err(FlowCookieError::Missing))),
        "training_data_opt_in must be true to create an account"
    );
    assert_eq!(
        bad_request_message(no.validate()),
        "training_data_opt_in must be true to create an account"
    );
    assert!(CompleteOAuthSignupRequest { training_data_opt_in: true }.validate().is_ok());
}

// ---- decks ----

fn card(name: &str, basic: bool) -> DeckCard {
    DeckCard { name: name.to_string(), basic, implemented: true, status: "complete".to_string() }
}

fn valid_deck() -> Vec<DeckCard> {
    let names = [
        "Bulbasaur", "Exeggcute", "Exeggutor ex", "Ivysaur", "Venusaur ex", "Professor's Research",
        "Poké Ball", "Erika", "X Speed",
    ];
    let mut cards = Vec::new();
    for (i, n) in names.iter().enumerate() {
        cards.push(card(n, i < 2));
        cards.push(card(n, i < 2));
    }
    cards.push(card("Sabrina", false));
    cards.push(card("Red Card", false));
    cards
}

#[test]
fn create_deck_persists_and_returns_it() {
    let req = DeckRequest { name: "  My Deck  ".to_string(), deck_text: String::new() };
    assert_eq!(req.validated_name().unwrap(), "My Deck");
    let cards = valid_deck();
    assert_eq!(cards.len(), 20);
    assert!(deck_rules_hold(&cards));
    assert!(validate_deck_cards(&cards).is_ok());
    assert_eq!(validate_deck_text(Ok(valid_deck())).unwrap().len(), 20);
}

#[test]
fn create_deck_with_empty_name_is_rejected() {
    let req = DeckRequest { name: "   ".to_string(), deck_text: String::new() };
    assert_eq!(bad_request_message(req.validated_name()), "deck name is required");
}

#[test]
fn create_deck_with_garbage_deck_text_is_rejected() {
    assert_eq!(
        bad_request_message(validate_deck_text(Err("could not parse line 1".to_string()))),
        "could not parse line 1"
    );
}

#[test]
fn create_deck_with_wrong_card_count_is_rejected() {
    let rules = "deck must have exactly 20 cards, at least 1 Basic Pokémon, and at most 2 copies of any card name";
    let mut short = valid_deck();
    short.pop();
    assert_eq!(bad_request_message(validate_deck_cards(&short)), rules);
    let mut no_basic = valid_deck();
    for c in no_basic.iter_mut() {
        c.basic = false;
    }
    assert_eq!(bad_request_message(validate_deck_cards(&no_basic)), rules);
    let mut three_copies = valid_deck();
    three_copies[19] = card("Bulbasaur", true);
    assert_eq!(bad_request_message(validate_deck_cards(&three_copies)), rules);
}

#[test]
fn unimplemented_cards_are_listed_once_each_in_order() {
    let mut cards = valid_deck();
    for i in [2, 3, 10, 11, 4] {
        cards[i].implemented = false;
        cards[i].status = "missing effect".to_string();
    }
    let labels = unimplemented_card_labels(&cards);
    assert_eq!(
        labels,
        vec![
            "Exeggcute (missing effect)".to_string(),
            "Exeggutor ex (missing effect)".to_string(),
            "Professor's Research (missing effect)".to_string(),
        ]
    );
    assert_eq!(
        bad_request_message(validate_deck_cards(&cards)),
        "deck contains unimplemented cards: Exeggcute (missing effect), Exeggutor ex (missing effect), Professor's Research (missing effect)"
    );
    assert_eq!(join_strings(&vec![], ", "), "");
    assert_eq!(join_strings(&vec!["a".to_string(), "b".to_string()], "+"), "a+b");
}

#[test]
fn update_deck_already_used_in_a_game_is_rejected() {
    assert!(check_deck_editable(false).is_ok());
    match check_deck_editable(true) {
        Err(RequestError::Conflict(m)) => {
            assert_eq!(m, "deck can't be edited because it's already been used in a game")
        }
        other => panic!("unexpected {other:?}"),
    }
}

#[test]
fn delete_deck_already_used_in_a_game_is_rejected() {
    match map_foreign_key_violation(true) {
        Some(RequestError::Conflict(m)) => {
            assert_eq!(m, "deck can't be modified because it's already been used in a game")
        }
        other => panic!("unexpected {other:?}"),
    }
    assert!(map_foreign_key_violation(false).is_none());
}

// ---- games ----

#[test]
fn create_game_persists_and_returns_it() {
    let req = CreateGameRequest {
        deck_a_id: 1,
        deck_b_id: 2,
        mode: "hotseat".to_string(),
        seed: "42".to_string(),
    };
    assert_eq!(req.validate().unwrap(), 42);
    let req = CreateGameRequest { mode: "ai".to_string(), seed: "-7".to_string(), ..req };
    assert_eq!(req.validate().unwrap(), -7);
}

#[test]
fn create_game_with_invalid_mode_is_rejected() {
    let req = CreateGameRequest {
        deck_a_id: 1,
        deck_b_id: 2,
        mode: "online".to_string(),
        seed: "42".to_string(),
    };
    assert_eq!(bad_request_message(req.validate()), "mode must be 'hotseat' or 'ai'");
    let req = CreateGameRequest { mode: "ai".to_string(), seed: "4x2".to_string(), ..req };
    assert_eq!(bad_request_message(req.validate()), "seed must be an integer");
}

#[test]
fn create_game_with_inaccessible_deck_is_rejected() {
    match inaccessible_deck(0x550e8400_e29b_41d4_a716_446655440000) {
        RequestError::BadRequest(m) => assert_eq!(
            m,
            "deck 550e8400-e29b-41d4-a716-446655440000 not found or not accessible"
        ),
        other => panic!("unexpected {other:?}"),
    }
}

#[test]
fn seeds_are_read_as_i64() {
    assert_eq!(parse_i64("0"), Some(0));
    assert_eq!(parse_i64("+15"), Some(15));
    assert_eq!(parse_i64("9223372036854775807"), Some(i64::MAX));
    assert_eq!(parse_i64("-9223372036854775808"), Some(i64::MIN));
    assert_eq!(parse_i64("9223372036854775808"), None);
    assert_eq!(parse_i64("-9223372036854775809"), None);
    assert_eq!(parse_i64(""), None);
    assert_eq!(parse_i64("-"), None);
    assert_eq!(parse_i64(" 1"), None);
    assert_eq!(parse_i64("1.5"), None);
    for s in ["123", "-45", "+0", "007", "x", "99999999999999999999"] {
        assert_eq!(parse_i64(s), s.parse::<i64>().ok(), "{s}");
    }
}

#[test]
fn update_game_outcome_rejects_invalid_value() {
    assert!(UpdateGameRequest { outcome: "win".to_string() }.validate().is_ok());
    assert!(UpdateGameRequest { outcome: "tie".to_string() }.validate().is_ok());
    assert_eq!(
        bad_request_message(UpdateGameRequest { outcome: "draw".to_string() }.validate()),
        "outcome must be one of: win, loss, tie"
    );
    assert!(is_valid_outcome("loss"));
    assert!(!is_valid_outcome("incomplete"));
}

const CALLER: u128 = 77;

fn game(a: u128, b: u128, outcome: Option<&str>) -> GameSummary {
    GameSummary {
        user_id: Some(CALLER),
        deck_a_id: a,
        deck_b_id: b,
        outcome: outcome.map(|o| o.to_string()),
    }
}

fn query(outcome: Option<&str>, deck: Option<u128>, opponent: Option<u128>) -> ListGamesQuery {
    ListGamesQuery {
        outcome: outcome.map(|o| o.to_string()),
        deck_id: deck,
        opponent_deck_id: opponent,
    }
}

#[test]
fn list_games_filters_by_outcome_and_incomplete() {
    let games = [game(1, 2, Some("win")), game(1, 2, None), game(3, 1, Some("tie"))];
    let listed = |q: &ListGamesQuery| games.iter().filter(|g| q.lists(CALLER, g)).count();
    assert_eq!(listed(&query(None, None, None)), 3);
    assert_eq!(listed(&query(Some("incomplete"), None, None)), 1);
    assert_eq!(listed(&query(Some("completed"), None, None)), 2);
    assert_eq!(listed(&query(Some("win"), None, None)), 1);
    assert_eq!(
        bad_request_message(query(Some("won"), None, None).validate()),
        "outcome must be one of: incomplete, completed, win, loss, tie"
    );
}

#[test]
fn list_games_outcome_filter_is_relative_to_the_filtered_deck() {
    let g = game(1, 2, Some("win"));
    assert!(query(Some("win"), Some(1), None).lists(CALLER, &g));
    assert!(!query(Some("loss"), Some(1), None).lists(CALLER, &g));
    assert!(query(Some("loss"), Some(2), None).lists(CALLER, &g));
    assert!(!query(Some("win"), Some(2), None).lists(CALLER, &g));
    let t = game(1, 2, Some("tie"));
    assert!(query(Some("tie"), Some(2), None).lists(CALLER, &t));
}

#[test]
fn list_games_opponent_deck_id_narrows_to_the_exact_matchup() {
    assert!(query(None, Some(1), Some(2)).lists(CALLER, &game(1, 2, None)));
    assert!(query(None, Some(1), Some(2)).lists(CALLER, &game(2, 1, None)));
    assert!(!query(None, Some(1), Some(2)).lists(CALLER, &game(1, 3, None)));
    assert_eq!(
        bad_request_message(query(None, None, Some(2)).validate()),
        "opponent_deck_id requires deck_id"
    );
    assert!(query(None, Some(1), Some(2)).validate().is_ok());
}

#[test]
fn list_games_only_shows_the_caller_own_games() {
    let q = query(None, None, None);
    assert!(q.lists(CALLER, &game(1, 2, None)));
    let other = GameSummary { user_id: Some(78), ..game(1, 2, None) };
    assert!(!q.lists(CALLER, &other));
    let orphaned = GameSummary { user_id: None, ..game(1, 2, None) };
    assert!(!q.lists(CALLER, &orphaned));
}

#[test]
fn list_games_filters_by_deck() {
    assert!(query(None, Some(1), None).lists(CALLER, &game(1, 2, None)));
    assert!(query(None, Some(1), None).lists(CALLER, &game(2, 1, None)));
    assert!(!query(None, Some(1), None).lists(CALLER, &game(2, 3, None)));
}

// ---- cards and configuration ----

fn entry(id: &str) -> CardCatalogEntry {
    CardCatalogEntry {
        id: id.to_string(),
        name: format!("card {id}"),
        card_type: CardType::Pokemon,
        is_basic: true,
        implemented: true,
        image_url: None,
    }
}

#[test]
fn card_images_live_under_the_configured_host() {
    assert_eq!(card_image_url("https://img.example", "A1 001"), "https://img.example/A1-001.png");
    assert_eq!(card_image_url("h", "P-A 007"), "h/P-A-007.png");
    assert_eq!(catalog_image_url(&None, "A1 001"), None);
    assert_eq!(
        catalog_image_url(&Some("https://img.example".to_string()), "A2 010"),
        Some("https://img.example/A2-010.png".to_string())
    );
}

#[test]
fn the_catalog_is_ordered_by_card_id() {
    let sorted = sort_catalog_by_id(vec![entry("A2 001"), entry("A1 010"), entry("P-A 001"), entry("A1 002"), entry("A1a 001")]);
    let ids: Vec<&str> = sorted.iter().map(|e| e.id.as_str()).collect();
    assert_eq!(ids, vec!["A1 002", "A1 010", "A1a 001", "A2 001", "P-A 001"]);
    let mut expected: Vec<String> = ids.iter().map(|s| s.to_string()).collect();
    expected.sort();
    assert_eq!(ids, expected);
    assert!(sort_catalog_by_id(vec![]).is_empty());
}

#[test]
fn configuration_falls_back_to_local_defaults() {
    let env = EnvValues {
        database_url: Some("postgres://localhost/deckgym".to_string()),
        google_client_id: None,
        google_client_secret: None,
        facebook_client_id: Some("fb".to_string()),
        facebook_client_secret: None,
        api_base_url: None,
        frontend_url: None,
        cookie_secure: Some("1".to_string()),
        card_image_base_url: None,
    };
    let c: Config = Config::from_env_values(env).unwrap();
    assert_eq!(c.database_url, "postgres://localhost/deckgym");
    assert_eq!(c.oauth.google_client_id, "");
    assert_eq!(c.oauth.facebook_client_id, "fb");
    assert_eq!(c.oauth.api_base_url, "http://localhost:8080");
    assert_eq!(c.frontend_url, "http://localhost:3000");
    assert!(c.cookie_secure);
    assert_eq!(c.card_image_base_url, None);
    let missing = EnvValues {
        database_url: None,
        google_client_id: None,
        google_client_secret: None,
        facebook_client_id: None,
        facebook_client_secret: None,
        api_base_url: None,
        frontend_url: None,
        cookie_secure: Some("yes".to_string()),
        card_image_base_url: None,
    };
    assert!(Config::from_env_values(missing).is_none());
}

#[test]
fn text_helpers() {
    assert_eq!(trim("  a b \n"), "a b");
    assert_eq!(trim("   "), "");
    assert!(str_eq("abc", "abc"));
    assert!(!str_eq("abc", "abd"));
}
