use codexbar::cursor::api::{CursorApi, UsedPercent};
use codexbar::cursor::auth::{
    AuthAction, AuthEvent, AuthState, CursorDesktopAuth, MEMBERSHIP_QUERY, TOKEN_QUERY,
};
use codexbar::cursor::fetch::{
    cookie_domain, read_desktop_reply, read_web_replies, FetchAction, FetchEvent, FetchState,
};
use codexbar::cursor::payload::{PlanUsage, UsageSummary, UserInfo};
use codexbar::error::ProviderError;
use codexbar::http::{is_success, read_guarded, read_plain, Credential, HttpReply, Method};

fn summary() -> UsageSummary {
    UsageSummary {
        billing_cycle_start: None,
        billing_cycle_end: None,
        membership_type: Some("hobby".to_string()),
        limit_type: None,
        is_unlimited: None,
        individual_usage: None,
        plan_usage: Some(PlanUsage {
            enabled: None,
            used: None,
            limit: Some(200),
            remaining: None,
            breakdown: None,
            auto_percent_used: None,
            api_percent_used: None,
            total_percent_used: None,
            total_spend: Some(50),
            included_spend: Some(50),
        }),
        team_usage: None,
    }
}

fn user() -> UserInfo {
    UserInfo {
        email: Some("me@example.com".to_string()),
        email_verified: None,
        name: None,
        sub: None,
        created_at: None,
        updated_at: None,
        picture: None,
    }
}

fn auth() -> CursorDesktopAuth {
    CursorDesktopAuth {
        access_token: "token".to_string(),
        membership_type: Some("pro".to_string()),
    }
}

fn answered<T>(status: u16, body: Result<T, String>) -> HttpReply<T> {
    HttpReply::Answered { status, body }
}

#[test]
fn desktop_comes_first() {
    let state = CursorApi::new().fetch_usage();
    assert!(matches!(state.action(), FetchAction::LoadAuth));
    let state = state.step(FetchEvent::AuthLoaded(Ok(Some(auth()))));
    match state.action() {
        FetchAction::Send(request) => {
            assert_eq!(
                request.url,
                "https://api2.cursor.sh/aiserver.v1.DashboardService/GetCurrentPeriodUsage"
            );
            assert_eq!(request.method, Method::PostEmptyObject);
            assert!(matches!(&request.credential, Credential::Bearer(t) if t == "token"));
            assert_eq!(request.accept, "application/json");
            assert_eq!(request.timeout_seconds, 15);
        }
        other => panic!("unexpected action {:?}", other),
    }
    let state = state.step(FetchEvent::DesktopReplied(answered(200, Ok(summary()))));
    assert!(matches!(state.action(), FetchAction::Stop));
    match state {
        FetchState::Done { result: Ok((usage, source)) } => {
            assert_eq!(source, "desktop");
            assert_eq!(usage.0.used_percent, UsedPercent::Ratio { part: 50, whole: 200 });
            assert_eq!(usage.5.as_deref(), Some("Cursor Pro"));
            assert_eq!(usage.4, None);
        }
        other => panic!("unexpected state {:?}", other),
    }
}

#[test]
fn desktop_failures_lead_to_cookies() {
    let failures = vec![
        HttpReply::Unreachable("timeout".to_string()),
        answered(401, Ok(summary())),
        answered(500, Ok(summary())),
        answered(200, Err("bad json".to_string())),
    ];
    for reply in failures {
        let state = FetchState::AskingDesktop { auth: auth() };
        let state = state.step(FetchEvent::DesktopReplied(reply));
        assert!(matches!(state.action(), FetchAction::ReadCookies("cursor.com")));
    }
    for loaded in [Ok(None), Err(ProviderError::Other("locked".to_string()))] {
        let state = CursorApi::new().fetch_usage().step(FetchEvent::AuthLoaded(loaded));
        assert!(matches!(state, FetchState::ReadingCookies { domain: 0 }));
    }
}

#[test]
fn cookies_are_tried_domain_by_domain() {
    assert_eq!(cookie_domain(0), "cursor.com");
    assert_eq!(cookie_domain(1), "cursor.sh");
    let state = FetchState::ReadingCookies { domain: 0 };
    let state = state.step(FetchEvent::CookiesRead(Ok(String::new())));
    assert!(matches!(state.action(), FetchAction::ReadCookies("cursor.sh")));
    let state = state.step(FetchEvent::CookiesRead(Err("locked".to_string())));
    assert!(matches!(
        state,
        FetchState::Done { result: Err(ProviderError::NoCookies) }
    ));
    let state = FetchState::ReadingCookies { domain: 0 };
    let state = state.step(FetchEvent::CookiesRead(Ok("  ".to_string())));
    assert!(matches!(
        state,
        FetchState::Done { result: Err(ProviderError::NoCookies) }
    ));
}

#[test]
fn web_requests_carry_the_cookies() {
    let state = FetchState::ReadingCookies { domain: 1 };
    let state = state.step(FetchEvent::CookiesRead(Ok("a=b".to_string())));
    match state.action() {
        FetchAction::SendBoth(usage, user) => {
            assert_eq!(usage.url, "https://cursor.com/api/usage-summary");
            assert_eq!(user.url, "https://cursor.com/api/auth/me");
            for request in [usage, user] {
                assert_eq!(request.method, Method::Get);
                assert!(matches!(&request.credential, Credential::Cookie(c) if c == "a=b"));
                assert_eq!(request.accept, "application/json");
                assert_eq!(request.timeout_seconds, 15);
            }
        }
        other => panic!("unexpected action {:?}", other),
    }
    let state = state.step(FetchEvent::WebReplied(
        answered(200, Ok(summary())),
        answered(200, Ok(user())),
    ));
    match state {
        FetchState::Done { result: Ok((usage, source)) } => {
            assert_eq!(source, "web");
            assert_eq!(usage.4.as_deref(), Some("me@example.com"));
            assert_eq!(usage.5.as_deref(), Some("Cursor Hobby"));
        }
        other => panic!("unexpected state {:?}", other),
    }
}

#[test]
fn given_cookies_are_used_unless_blank() {
    let state = CursorApi::new().fetch_usage_with_cookie_header("x=y");
    assert!(matches!(&state, FetchState::AskingWeb { cookie_header } if cookie_header == "x=y"));
    let state = CursorApi::new().fetch_usage_with_cookie_header(" \t");
    assert!(matches!(
        state,
        FetchState::Done { result: Err(ProviderError::NoCookies) }
    ));
}

#[test]
fn an_unknown_user_costs_only_the_email() {
    let failures = vec![
        HttpReply::Unreachable("timeout".to_string()),
        answered(404, Ok(user())),
        answered(200, Err("bad json".to_string())),
    ];
    for reply in failures {
        let usage = read_web_replies(answered(200, Ok(summary())), reply).unwrap();
        assert_eq!(usage.4, None);
        assert_eq!(usage.0.used_percent, UsedPercent::Ratio { part: 50, whole: 200 });
    }
}

#[test]
fn failures_of_the_usage_request_are_told_apart() {
    let web = |reply| read_web_replies(reply, answered(200, Ok(user()))).err().unwrap();
    assert!(matches!(web(answered(401, Ok(summary()))), ProviderError::AuthRequired));
    assert!(matches!(web(answered(403, Ok(summary()))), ProviderError::AuthRequired));
    assert!(matches!(
        web(answered(500, Ok(summary()))),
        ProviderError::Other(m) if m == "Cursor API returned 500 Internal Server Error"
    ));
    assert!(matches!(
        web(answered(299, Err("eof".to_string()))),
        ProviderError::Parse(m) if m == "eof"
    ));
    assert!(matches!(
        web(HttpReply::Unreachable("dns".to_string())),
        ProviderError::Network(m) if m == "dns"
    ));
    let desktop = |reply| read_desktop_reply(auth(), reply).err().unwrap();
    assert!(matches!(
        desktop(answered(404, Ok(summary()))),
        ProviderError::Other(m) if m == "Cursor desktop API returned 404 Not Found"
    ));
    assert!(matches!(
        desktop(answered(599, Ok(summary()))),
        ProviderError::Other(m)
            if m == "Cursor desktop API returned 599 <unknown status code>"
    ));
}

#[test]
fn replies_are_read_by_their_status() {
    assert!(is_success(200) && is_success(299));
    assert!(!is_success(199) && !is_success(300));
    assert_eq!(read_guarded(answered(204, Ok(5)), "x ").unwrap(), 5);
    assert_eq!(read_plain(answered(204, Ok(5)), "x").unwrap(), 5);
    assert!(matches!(
        read_plain(answered(401, Ok(5)), "Failed to fetch user info"),
        Err(ProviderError::Other(m)) if m == "Failed to fetch user info"
    ));
    assert!(matches!(
        read_plain::<u8>(HttpReply::Unreachable("dns".to_string()), "x"),
        Err(ProviderError::Network(m)) if m == "dns"
    ));
    assert!(matches!(
        read_plain::<u8>(answered(200, Err("eof".to_string())), "x"),
        Err(ProviderError::Parse(m)) if m == "eof"
    ));
}

#[test]
fn unexpected_events_change_nothing() {
    let state = CursorApi::new().fetch_usage();
    let state = state.step(FetchEvent::CookiesRead(Ok("a=b".to_string())));
    assert!(matches!(state, FetchState::LoadingAuth));
    let state = AuthState::start().step(AuthEvent::Opened(Ok(())));
    assert!(matches!(state, AuthState::Locating));
}

#[test]
fn credentials_are_loaded_step_by_step() {
    let state = AuthState::start();
    assert!(matches!(state.action(), AuthAction::Locate));
    let state = state.step(AuthEvent::Located(true));
    assert!(matches!(state.action(), AuthAction::Open));
    let state = state.step(AuthEvent::Opened(Ok(())));
    assert!(matches!(state.action(), AuthAction::Query(q) if q == TOKEN_QUERY));
    let state = state.step(AuthEvent::Queried(Ok(Some(" tok ".to_string()))));
    assert!(matches!(state.action(), AuthAction::Query(q) if q == MEMBERSHIP_QUERY));
    let state = state.step(AuthEvent::Queried(Ok(Some("pro".to_string()))));
    assert!(matches!(state.action(), AuthAction::Stop));
    match state {
        AuthState::Done { result: Ok(Some(auth)) } => {
            assert_eq!(auth.access_token, " tok ");
            assert_eq!(auth.membership_type.as_deref(), Some("pro"));
        }
        other => panic!("unexpected state {:?}", other),
    }
    assert_eq!(
        TOKEN_QUERY,
        "SELECT value FROM ItemTable WHERE key = 'cursorAuth/accessToken'"
    );
    assert_eq!(
        MEMBERSHIP_QUERY,
        "SELECT value FROM ItemTable WHERE key = 'cursorAuth/stripeMembershipType'"
    );
}

#[test]
fn missing_credentials_are_no_error() {
    let none = |state: AuthState| matches!(state, AuthState::Done { result: Ok(None) });
    assert!(none(AuthState::start().step(AuthEvent::Located(false))));
    assert!(none(AuthState::ReadingToken.step(AuthEvent::Queried(Ok(None)))));
    assert!(none(
        AuthState::ReadingToken.step(AuthEvent::Queried(Ok(Some(" \n".to_string()))))
    ));
}

#[test]
fn failures_to_load_credentials_say_what_failed() {
    let message = |state: AuthState| match state {
        AuthState::Done { result: Err(ProviderError::Other(m)) } => m,
        other => panic!("unexpected state {:?}", other),
    };
    let failed = || Err("disk".to_string());
    assert_eq!(
        message(AuthState::Opening.step(AuthEvent::Opened(Err("disk".to_string())))),
        "Failed to read Cursor auth store: disk"
    );
    assert_eq!(
        message(AuthState::ReadingToken.step(AuthEvent::Queried(failed()))),
        "Failed to read Cursor access token: disk"
    );
    let state = AuthState::ReadingMembership { access_token: "t".to_string() };
    assert_eq!(
        message(state.step(AuthEvent::Queried(failed()))),
        "Failed to read Cursor membership type: disk"
    );
}
