use capsule::auth::{
    accept_tokens, account_for, auth_status, clear_reply, read_reply, AuthError,
    NavidromeCredentials, Slot, StoreReply, Tokens,
};
use capsule::config::{
    describe, env_flag, navidrome_env, navidrome_missing, Keys, NavidromeEnv, Runtime,
};
use capsule::settings::{
    loaded, path, Discord, Lastfm, Local, LyricsSettings, Navidrome, Settings, Source,
};
use capsule::source::{
    connect, navidrome_client, resolve, ConnectError, SourceClient, SourceError,
};
use capsule::{api, subsonic};

fn full_tokens() -> Tokens {
    Tokens {
        developer_token: "abc".into(),
        music_user_token: "def".into(),
        storefront: "tr".into(),
    }
}

#[test]
fn incomplete_tokens_are_rejected() {
    let t = Tokens {
        developer_token: "abc".into(),
        music_user_token: "   ".into(),
        storefront: "us".into(),
    };
    assert!(!t.is_complete());
    assert!(accept_tokens(t).is_none());
}

#[test]
fn complete_tokens_are_accepted() {
    let t = full_tokens();
    assert!(t.is_complete());
    assert_eq!(accept_tokens(t).unwrap().storefront, "tr");
}

#[test]
fn apple_and_navidrome_use_distinct_accounts() {
    assert_ne!(account_for(Slot::Apple), account_for(Slot::Navidrome));
}

#[test]
fn only_a_complete_login_shows_its_storefront() {
    assert_eq!(auth_status(&Some(full_tokens())).storefront.as_deref(), Some("tr"));
    assert!(auth_status(&Some(full_tokens())).authenticated);
    let none = auth_status(&None);
    assert!(!none.authenticated);
    assert_eq!(none.storefront, None);
}

#[test]
fn a_missing_credential_is_no_failure() {
    assert_eq!(read_reply(StoreReply::NoEntry).unwrap(), None);
    assert_eq!(read_reply(StoreReply::Done("j".into())).unwrap().as_deref(), Some("j"));
    assert!(matches!(read_reply(StoreReply::Failed("x".into())), Err(AuthError::Store(_))));
    assert!(clear_reply(StoreReply::NoEntry).is_ok());
    assert!(clear_reply(StoreReply::Done(())).is_ok());
    assert_eq!(
        clear_reply(StoreReply::Failed("x".into())).unwrap_err().message(),
        "credential store unavailable: x"
    );
    assert_eq!(
        AuthError::Malformed("x".into()).message(),
        "stored credential was malformed: x"
    );
}

// ── configuration ──────────────────────────────────────────────────────

#[test]
fn a_blank_value_is_named_as_missing() {
    let set = Some("x".to_string());
    assert!(navidrome_missing(&set, &set, &set).is_empty());
    assert_eq!(
        navidrome_missing(&Some("  ".into()), &set, &None),
        vec!["NAVIDROME_URL", "NAVIDROME_PASSWORD"]
    );
    assert_eq!(navidrome_missing(&None, &None, &None).len(), 3);
    assert_eq!(navidrome_missing(&set, &None, &set), vec!["NAVIDROME_USER"]);
}

#[test]
fn navidrome_env_requires_all_three_keys() {
    assert!(navidrome_env(None, None, None).is_none(), "nothing set");

    let url = Some("https://m.example.com".to_string());
    assert!(
        navidrome_env(url.clone(), None, None).is_none(),
        "partial set must be ignored entirely"
    );

    let user = Some("deniz".to_string());
    assert!(navidrome_env(url.clone(), user.clone(), None).is_none(), "still partial");

    let password = Some("sesame".to_string());
    let env = navidrome_env(url.clone(), user, password.clone()).expect("all three set");
    assert_eq!(env.url, "https://m.example.com");
    assert_eq!(env.username, "deniz");
    assert_eq!(env.password, "sesame");

    // Whitespace-only counts as unset, not as a value.
    assert!(
        navidrome_env(url, Some("   ".into()), password).is_none(),
        "blank is not a username"
    );
}

#[test]
fn environment_values_are_trimmed() {
    let env = navidrome_env(Some(" u ".into()), Some("n\n".into()), Some("p".into())).unwrap();
    assert_eq!((env.url.as_str(), env.username.as_str()), ("u", "n"));
}

#[test]
fn flags_are_off_for_a_few_words() {
    for off in ["false", "0", "no", "", "  ", " FALSE ", "No"] {
        assert!(!env_flag(Some(off), true), "{off:?}");
    }
    for on in ["1", "true", "yes", "off"] {
        assert!(env_flag(Some(on), false), "{on:?}");
    }
    assert!(env_flag(None, true));
    assert!(!Runtime::from_env(None).show_engine_window);
    assert!(Runtime::from_env(Some("1")).show_engine_window);
}

#[test]
fn features_without_keys_are_off() {
    let mut keys = Keys::none();
    assert_eq!(
        describe(&keys, Runtime::from_env(None)),
        "lastfm=false discord=false show_engine_window=false"
    );
    keys.lastfm_api_key = Some("k".into());
    assert!(!keys.lastfm_enabled());
    keys.lastfm_shared_secret = Some("s".into());
    keys.discord_client_id = Some(" ".into());
    assert!(keys.lastfm_enabled());
    assert!(!keys.discord_enabled());
    assert_eq!(
        describe(&keys, Runtime::from_env(Some("1"))),
        "lastfm=true discord=false show_engine_window=true"
    );
}

// ── settings ───────────────────────────────────────────────────────────

#[test]
fn a_missing_file_yields_defaults() {
    let s = loaded(None);
    assert_eq!(s.source, Source::Apple);
    assert!(!s.onboarded);
    assert_eq!(s.lyrics.offset_ms, 0);
}

#[test]
fn settings_that_were_read_are_kept() {
    let s = Settings {
        source: Source::Navidrome,
        navidrome: Navidrome {
            url: "https://music.example.com".into(),
            username: "deniz".into(),
        },
        local: Local { folders: vec!["D:/Music".into()] },
        lyrics: LyricsSettings { offset_ms: -180 },
        ..Settings::default()
    };
    assert_eq!(loaded(Some(s.clone())), s);
    assert_eq!(Settings::default().appearance.glass, "none");
    assert!(path("/data").ends_with("config.toml"));
}

#[test]
fn the_file_overrides_a_baked_in_key() {
    let s = Settings {
        lastfm: Lastfm { api_key: "from-file".into(), ..Lastfm::default() },
        ..Settings::default()
    };
    assert_eq!(s.api_key(&Keys::none()), "from-file");
    let mut baked = Keys::none();
    baked.lastfm_api_key = Some("baked-in".into());
    assert_eq!(s.api_key(&baked), "from-file");
    assert_eq!(Settings::default().api_key(&baked), "baked-in");
}

#[test]
fn lastfm_needs_both_halves_of_a_registration() {
    let key_only = Settings {
        lastfm: Lastfm { api_key: "key".into(), ..Lastfm::default() },
        ..Settings::default()
    };
    assert!(!key_only.lastfm_enabled(&Keys::none()), "an api key alone cannot sign calls");

    let both = Settings {
        lastfm: Lastfm { api_key: "key".into(), shared_secret: "secret".into() },
        ..Settings::default()
    };
    assert!(both.lastfm_enabled(&Keys::none()));
    assert_eq!(both.shared_secret(&Keys::none()), "secret");
}

#[test]
fn whitespace_is_not_a_key() {
    let s = Settings {
        discord: Discord { client_id: "   ".into() },
        ..Settings::default()
    };
    assert!(!s.discord_enabled(&Keys::none()));
    assert_eq!(s.discord_client_id(&Keys::none()), "");
}

// ── sources ────────────────────────────────────────────────────────────

fn expect_err(r: Result<SourceClient, ConnectError>) -> ConnectError {
    match r {
        Err(e) => e,
        Ok(_) => panic!("expected connect to fail"),
    }
}

fn configured_navidrome() -> Settings {
    Settings {
        source: Source::Navidrome,
        navidrome: Navidrome {
            url: "https://m.example.com".into(),
            username: "deniz".into(),
        },
        ..Settings::default()
    }
}

#[test]
fn navidrome_without_credentials_reports_needs_auth() {
    let err = expect_err(connect(&configured_navidrome(), None, None, 1));
    assert!(err.needs_auth(), "missing password must prompt, not hard-fail");
    let err = expect_err(connect(&configured_navidrome(), None, Some(String::new()), 1));
    assert!(err.needs_auth());
}

#[test]
fn navidrome_without_a_url_is_not_an_auth_problem() {
    let s = Settings { source: Source::Navidrome, ..Settings::default() };
    let err = expect_err(connect(&s, None, None, 1));
    assert!(!err.needs_auth(), "an unconfigured server is not a credential problem");
    assert!(matches!(err, ConnectError::NotConfigured));
}

#[test]
fn apple_without_tokens_reports_needs_auth() {
    let s = Settings::default();
    assert!(expect_err(connect(&s, None, None, 1)).needs_auth());
    assert!(matches!(connect(&s, Some(full_tokens()), None, 1), Ok(SourceClient::Apple(_))));
}

#[test]
fn navidrome_with_everything_builds_a_client() {
    match connect(&configured_navidrome(), None, Some("sesame".into()), 1) {
        Ok(SourceClient::Navidrome(_)) => {}
        Ok(_) => panic!("expected a navidrome client"),
        Err(e) => panic!("expected success, got {}", e.message()),
    }
}

#[test]
fn unimplemented_sources_say_so() {
    let s = Settings { source: Source::Local, ..Settings::default() };
    assert!(matches!(connect(&s, None, None, 1), Err(ConnectError::Unsupported("local"))));
    let s = Settings { source: Source::Spotify, ..Settings::default() };
    assert_eq!(
        expect_err(connect(&s, None, None, 1)).message(),
        "source not implemented yet: spotify"
    );
}

fn test_env() -> NavidromeEnv {
    NavidromeEnv { url: "http://dev".into(), username: "dev".into(), password: "d".into() }
}

#[test]
fn the_environment_wins_over_the_credential_store() {
    let stored = NavidromeCredentials { password: "stored".into() };
    let (s, p) = resolve(&configured_navidrome(), Some(test_env()), Some(stored));
    assert_eq!(s.navidrome.url, "http://dev");
    assert_eq!(s.navidrome.username, "dev");
    assert_eq!(p.as_deref(), Some("d"));

    let stored = NavidromeCredentials { password: "stored".into() };
    let (s, p) = resolve(&configured_navidrome(), None, Some(stored));
    assert_eq!(s, configured_navidrome());
    assert_eq!(p.as_deref(), Some("stored"));

    let (s, p) = resolve(&Settings::default(), Some(test_env()), None);
    assert_eq!(s, Settings::default(), "other sources need no override");
    assert_eq!(p, None);
}

#[test]
fn only_navidrome_has_a_client_at_startup() {
    let c = navidrome_client(&configured_navidrome(), Some(test_env()), None, 1).unwrap();
    assert_eq!(c.base_url(), "http://dev");
    assert!(navidrome_client(&configured_navidrome(), None, None, 1).is_none());
    assert!(navidrome_client(&Settings::default(), Some(test_env()), None, 1).is_none());
}

#[test]
fn rejected_credentials_need_a_new_login() {
    assert!(SourceError::Apple(api::ApiError::Unauthorized).needs_auth());
    assert!(SourceError::Navidrome(subsonic::SubsonicError::Unauthorized).needs_auth());
    assert!(!SourceError::Apple(api::ApiError::RateLimited).needs_auth());
    assert_eq!(
        SourceError::Apple(api::ApiError::RateLimited).message(),
        "rate limited after retries"
    );
    assert_eq!(ConnectError::NotSignedIn.message(), "not signed in");
    assert_eq!(ConnectError::NotConfigured.message(), "no navidrome server configured");
    assert_eq!(
        ConnectError::Navidrome(subsonic::SubsonicError::Unauthorized).message(),
        "navidrome client: wrong username or password"
    );
    assert_eq!(
        ConnectError::Apple(api::ApiError::Unauthorized).message(),
        "apple client: unauthorized — token rejected"
    );
}
