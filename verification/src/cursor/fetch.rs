//! Asking Cursor's servers for a user's usage, step by step: as the desktop program does, or
//! else with the cookies of a browser.
//!
//! Whoever runs the steps does what a state asks for and hands back what came of it.

use vstd::prelude::*;

use crate::cursor::api::{
    plan_type, usage_of, usage_view, CursorApi, CursorUsageResult, UsageView,
};
use crate::cursor::auth::{AuthResult, CursorDesktopAuth};
use crate::cursor::payload::{UsageSummary, UserInfo};
use crate::error::{ErrorView, ProviderError};
use crate::http::{
    guarded_result, json_request, plain_result, read_guarded, read_plain, status_line,
    Credential, CredentialView, HttpReply, HttpRequest, Method, RequestView,
};
use crate::text::{blank, concat, is_blank, text_of, white_space};

verus! {

/// Where Cursor's web pages are.
pub const BASE_URL: &'static str = "https://cursor.com";

/// Where the desktop program asks for its usage.
pub const DESKTOP_API_URL: &'static str =
    "https://api2.cursor.sh/aiserver.v1.DashboardService/GetCurrentPeriodUsage";

/// The domains whose cookies are tried, in this order.
pub open spec fn cookie_domains() -> Seq<Seq<char>> {
    seq!["cursor.com"@, "cursor.sh"@]
}

/// A usage result and where it came from, or why there is none.
pub type FetchResult = Result<(CursorUsageResult, &'static str), ProviderError>;

/// `FetchResult` as a mathematical value.
pub open spec fn fetch_view(result: FetchResult) -> Result<(UsageView, Seq<char>), ErrorView> {
    match result {
        Ok((usage, source)) => Ok((usage_view(usage), source@)),
        Err(error) => Err(error@),
    }
}

/// What a result holds, with everything as mathematical values.
pub open spec fn result_view(result: Result<CursorUsageResult, ProviderError>) -> Result<
    UsageView,
    ErrorView,
> {
    match result {
        Ok(usage) => Ok(usage_view(usage)),
        Err(error) => Err(error@),
    }
}

/// How far asking has come.
#[derive(Debug)]
pub enum FetchState {
    /// Waits for the desktop program's credentials.
    LoadingAuth,
    /// Waits for the reply to the desktop program's request.
    AskingDesktop { auth: CursorDesktopAuth },
    /// Waits for the cookies of a domain.
    ReadingCookies { domain: usize },
    /// Waits for the replies to the two requests with cookies.
    AskingWeb { cookie_header: String },
    /// Has come to an end.
    Done { result: FetchResult },
}

/// What to do next.
#[derive(Debug)]
pub enum FetchAction {
    /// Load the desktop program's credentials.
    LoadAuth,
    /// Send a request.
    Send(HttpRequest),
    /// Read the cookies that browsers keep for a domain.
    ReadCookies(&'static str),
    /// Send a request for the usage and one for who the user is, at the same time.
    SendBoth(HttpRequest, HttpRequest),
    /// Nothing more.
    Stop,
}

/// What came of it.
#[derive(Debug)]
pub enum FetchEvent {
    /// The credentials, if there are any, or why they could not be loaded.
    AuthLoaded(AuthResult),
    /// The reply to the desktop program's request.
    DesktopReplied(HttpReply<UsageSummary>),
    /// The cookies of the domain, as a header, or why they could not be read.
    CookiesRead(Result<String, String>),
    /// The replies to the two requests with cookies.
    WebReplied(HttpReply<UsageSummary>, HttpReply<UserInfo>),
}

/// Whether the statuses of the replies have three digits.
pub open spec fn valid_event(event: FetchEvent) -> bool {
    match event {
        FetchEvent::DesktopReplied(reply) => reply.valid(),
        FetchEvent::WebReplied(usage, _) => usage.valid(),
        _ => true,
    }
}

/// Whether `event` is what a state waits for.
pub open spec fn awaits(state: FetchState, event: FetchEvent) -> bool {
    match state {
        FetchState::LoadingAuth => event is AuthLoaded,
        FetchState::AskingDesktop { .. } => event is DesktopReplied,
        FetchState::ReadingCookies { .. } => event is CookiesRead,
        FetchState::AskingWeb { .. } => event is WebReplied,
        FetchState::Done { .. } => false,
    }
}

/// A summary with the membership type that the desktop program keeps.
pub open spec fn as_member(summary: UsageSummary, membership_type: Option<String>) -> UsageSummary {
    UsageSummary { membership_type, ..summary }
}

/// What the reply to the desktop program's request comes to.
pub open spec fn desktop_usage(
    auth: CursorDesktopAuth,
    reply: HttpReply<UsageSummary>,
) -> Result<UsageView, ErrorView> {
    match guarded_result(reply, "Cursor desktop API returned "@) {
        Ok(summary) => Ok(usage_of(as_member(summary, auth.membership_type), None)),
        Err(error) => Err(error),
    }
}

/// What the replies to the two requests with cookies come to. Who the user is need not be known.
pub open spec fn web_usage(
    usage: HttpReply<UsageSummary>,
    user: HttpReply<UserInfo>,
) -> Result<UsageView, ErrorView> {
    match guarded_result(usage, "Cursor API returned "@) {
        Ok(summary) => Ok(
            usage_of(
                summary,
                match plain_result(user, "Failed to fetch user info"@) {
                    Ok(user) => Some(user),
                    Err(_) => None,
                },
            ),
        ),
        Err(error) => Err(error),
    }
}

/// What the reply to the desktop program's request comes to.
pub fn read_desktop_reply(
    auth: CursorDesktopAuth,
    reply: HttpReply<UsageSummary>,
) -> (res: Result<CursorUsageResult, ProviderError>)
    requires
        reply.valid(),
    ensures
        result_view(res) == desktop_usage(auth, reply),
{
    match read_guarded(reply, "Cursor desktop API returned ") {
        Ok(summary) => {
            let mut summary = summary;
            summary.membership_type = auth.membership_type;
            CursorApi::new().build_result(summary, None)
        },
        Err(error) => Err(error),
    }
}

/// What the replies to the two requests with cookies come to.
pub fn read_web_replies(
    usage: HttpReply<UsageSummary>,
    user: HttpReply<UserInfo>,
) -> (res: Result<CursorUsageResult, ProviderError>)
    requires
        usage.valid(),
    ensures
        result_view(res) == web_usage(usage, user),
{
    match read_guarded(usage, "Cursor API returned ") {
        Ok(summary) => {
            let user_info: Option<UserInfo> = match read_plain(user, "Failed to fetch user info") {
                Ok(user) => Some(user),
                Err(_) => None,
            };
            CursorApi::new().build_result(summary, user_info)
        },
        Err(error) => Err(error),
    }
}

/// The request of the desktop program.
pub open spec fn desktop_request(access_token: Seq<char>) -> RequestView {
    json_request(
        Method::PostEmptyObject,
        DESKTOP_API_URL@,
        CredentialView::Bearer(access_token),
    )
}

/// The request for a page of the web, with cookies.
pub open spec fn web_request(path: Seq<char>, cookie_header: Seq<char>) -> RequestView {
    json_request(Method::Get, BASE_URL@ + path, CredentialView::Cookie(cookie_header))
}

/// The request for a page of the web, with cookies.
fn web_page(path: &str, cookie_header: &String) -> (res: HttpRequest)
    ensures
        res@ == web_request(path@, cookie_header@),
{
    HttpRequest::json(
        Method::Get,
        concat(BASE_URL, path),
        Credential::Cookie(cookie_header.clone()),
    )
}

/// The domain at a place in the list of those that are tried.
pub fn cookie_domain(domain: usize) -> (res: &'static str)
    requires
        domain < cookie_domains().len(),
    ensures
        res@ == cookie_domains()[domain as int],
{
    if domain == 0 {
        "cursor.com"
    } else {
        "cursor.sh"
    }
}

/// Whether `next` is where asking with cookies starts: nothing but white space for cookies is as
/// good as none.
pub open spec fn web_begins(cookie_header: Seq<char>, next: FetchState) -> bool {
    if blank(cookie_header) {
        next matches FetchState::Done { result } && fetch_view(result) == Err::<
            (UsageView, Seq<char>),
            ErrorView,
        >(ErrorView::NoCookies)
    } else {
        next matches FetchState::AskingWeb { cookie_header: c } && c@ == cookie_header
    }
}

/// Whether `next` is where trying the domains from `domain` on starts.
pub open spec fn cookies_from(domain: int, next: FetchState) -> bool {
    if domain < cookie_domains().len() {
        next matches FetchState::ReadingCookies { domain: d } && d == domain
    } else {
        next matches FetchState::Done { result } && fetch_view(result) == Err::<
            (UsageView, Seq<char>),
            ErrorView,
        >(ErrorView::NoCookies)
    }
}

/// A usage with where it came from.
pub open spec fn from_source(
    usage: Result<UsageView, ErrorView>,
    source: Seq<char>,
) -> Result<(UsageView, Seq<char>), ErrorView> {
    match usage {
        Ok(usage) => Ok((usage, source)),
        Err(error) => Err(error),
    }
}

/// Whether `next` is the state that follows. Whatever goes wrong with the desktop program's
/// credentials or its request, the cookies of the browsers are tried next, one domain after
/// another; the first cookies that are found are the ones that are used.
pub open spec fn follows(state: FetchState, event: FetchEvent, next: FetchState) -> bool {
    match (state, event) {
        (FetchState::LoadingAuth, FetchEvent::AuthLoaded(loaded)) => match loaded {
            Ok(Some(auth)) => next == (FetchState::AskingDesktop { auth }),
            _ => cookies_from(0, next),
        },
        (FetchState::AskingDesktop { auth }, FetchEvent::DesktopReplied(reply)) => {
            let usage = desktop_usage(auth, reply);
            if usage is Ok {
                next matches FetchState::Done { result } && fetch_view(result) == from_source(
                    usage,
                    "desktop"@,
                )
            } else {
                cookies_from(0, next)
            }
        },
        (FetchState::ReadingCookies { domain }, FetchEvent::CookiesRead(reply)) => match reply {
            Ok(header) => if header@.len() > 0 {
                web_begins(header@, next)
            } else {
                cookies_from(domain + 1, next)
            },
            Err(_) => cookies_from(domain + 1, next),
        },
        (FetchState::AskingWeb { .. }, FetchEvent::WebReplied(usage, user)) => {
            next matches FetchState::Done { result } && fetch_view(result) == from_source(
                web_usage(usage, user),
                "web"@,
            )
        },
        _ => next == state,
    }
}

/// Whether a state's domain is one of those that are tried.
pub open spec fn on_list(state: FetchState) -> bool {
    state matches FetchState::ReadingCookies { domain } ==> domain < cookie_domains().len()
}

/// How many steps are left at most.
pub open spec fn steps_left(state: FetchState) -> int {
    match state {
        FetchState::LoadingAuth => 5,
        FetchState::AskingDesktop { .. } => 4,
        FetchState::ReadingCookies { domain } => 3 - domain,
        FetchState::AskingWeb { .. } => 1,
        FetchState::Done { .. } => 0,
    }
}

impl CursorApi {
    /// Starts asking for the usage, as the desktop program does or else with cookies.
    pub fn fetch_usage(&self) -> (res: FetchState)
        ensures
            res is LoadingAuth,
    {
        FetchState::LoadingAuth
    }

    /// Starts asking for the usage with the given cookies.
    pub fn fetch_usage_with_cookie_header(&self, cookie_header: &str) -> (res: FetchState)
        ensures
            web_begins(cookie_header@, res),
    {
        FetchState::with_cookies(cookie_header.to_owned())
    }
}

impl FetchState {
    /// Where asking with given cookies starts.
    fn with_cookies(cookie_header: String) -> (res: FetchState)
        ensures
            web_begins(cookie_header@, res),
    {
        if is_blank(cookie_header.as_str()) {
            FetchState::Done { result: Err(ProviderError::NoCookies) }
        } else {
            FetchState::AskingWeb { cookie_header }
        }
    }

    /// Where trying the domains from `domain` on starts.
    fn try_cookies(domain: usize) -> (res: FetchState)
        ensures
            cookies_from(domain as int, res),
    {
        if domain < 2 {
            FetchState::ReadingCookies { domain }
        } else {
            FetchState::Done { result: Err(ProviderError::NoCookies) }
        }
    }

    /// What to do next.
    pub fn action(&self) -> (res: FetchAction)
        requires
            on_list(*self),
        ensures
            match *self {
                FetchState::LoadingAuth => res is LoadAuth,
                FetchState::AskingDesktop { auth } => res matches FetchAction::Send(r) && r@
                    == desktop_request(auth.access_token@),
                FetchState::ReadingCookies { domain } => res matches FetchAction::ReadCookies(d)
                    && d@ == cookie_domains()[domain as int],
                FetchState::AskingWeb { cookie_header } => res matches FetchAction::SendBoth(a, b)
                    && a@ == web_request("/api/usage-summary"@, cookie_header@) && b@
                    == web_request("/api/auth/me"@, cookie_header@),
                FetchState::Done { .. } => res is Stop,
            },
    {
        match self {
            FetchState::LoadingAuth => FetchAction::LoadAuth,
            FetchState::AskingDesktop { auth } => FetchAction::Send(
                HttpRequest::json(
                    Method::PostEmptyObject,
                    DESKTOP_API_URL.to_owned(),
                    Credential::Bearer(auth.access_token.clone()),
                ),
            ),
            FetchState::ReadingCookies { domain } => FetchAction::ReadCookies(
                cookie_domain(*domain),
            ),
            FetchState::AskingWeb { cookie_header } => FetchAction::SendBoth(
                web_page("/api/usage-summary", cookie_header),
                web_page("/api/auth/me", cookie_header),
            ),
            FetchState::Done { .. } => FetchAction::Stop,
        }
    }

    /// The state that follows. What a state does not wait for leaves it as it is.
    pub fn step(self, event: FetchEvent) -> (res: FetchState)
        requires
            on_list(self),
            valid_event(event),
        ensures
            follows(self, event, res),
            on_list(res),
    {
        match (self, event) {
            (FetchState::LoadingAuth, FetchEvent::AuthLoaded(loaded)) => match loaded {
                Ok(Some(auth)) => FetchState::AskingDesktop { auth },
                _ => FetchState::try_cookies(0),
            },
            (FetchState::AskingDesktop { auth }, FetchEvent::DesktopReplied(reply)) => {
                match read_desktop_reply(auth, reply) {
                    Ok(usage) => FetchState::Done { result: Ok((usage, "desktop")) },
                    Err(_) => FetchState::try_cookies(0),
                }
            },
            (FetchState::ReadingCookies { domain }, FetchEvent::CookiesRead(reply)) => match reply {
                Ok(header) => if !header.as_str().is_empty() {
                    FetchState::with_cookies(header)
                } else {
                    FetchState::try_cookies(domain + 1)
                },
                Err(_) => FetchState::try_cookies(domain + 1),
            },
            (FetchState::AskingWeb { .. }, FetchEvent::WebReplied(usage, user)) => {
                match read_web_replies(usage, user) {
                    Ok(usage) => FetchState::Done { result: Ok((usage, "web")) },
                    Err(error) => FetchState::Done { result: Err(error) },
                }
            },
            (state, _) => state,
        }
    }
}

/// Every step that answers what a state waits for brings the end closer, so that asking ends
/// after five steps at most.
pub proof fn law_asking_ends(state: FetchState, event: FetchEvent, next: FetchState)
    requires
        on_list(state),
        awaits(state, event),
        follows(state, event, next),
    ensures
        0 <= steps_left(next) < steps_left(state),
        on_list(next),
        steps_left(next) == 0 <==> next is Done,
{
}

/// Nothing that goes wrong with the desktop program ends the asking: the first domain's cookies
/// are read next.
pub proof fn law_desktop_failure_is_no_end(
    auth: CursorDesktopAuth,
    reply: HttpReply<UsageSummary>,
    loaded: AuthResult,
    after_reply: FetchState,
    after_load: FetchState,
)
    requires
        follows(
            (FetchState::AskingDesktop { auth }),
            FetchEvent::DesktopReplied(reply),
            after_reply,
        ),
        follows(FetchState::LoadingAuth, FetchEvent::AuthLoaded(loaded), after_load),
    ensures
        desktop_usage(auth, reply) is Err ==> after_reply == (FetchState::ReadingCookies {
            domain: 0,
        }),
        !(loaded matches Ok(Some(_))) ==> after_load == (FetchState::ReadingCookies { domain: 0 }),
{
}

/// A result says that it came from the desktop exactly if it ends the desktop's request, and
/// errors come only from asking with cookies.
pub proof fn law_source_is_named(state: FetchState, event: FetchEvent, next: FetchState)
    requires
        on_list(state),
        awaits(state, event),
        follows(state, event, next),
    ensures
        next matches FetchState::Done { result: Ok((_, source)) } ==> source@ == (
        if state is AskingDesktop {
            "desktop"@
        } else {
            "web"@
        }) && (state is AskingDesktop || state is AskingWeb),
        next matches FetchState::Done { result: Err(_) } ==> state is ReadingCookies
            || state is AskingWeb,
{
}

/// Who the user is only adds the email: a failure to find out leaves the rest as it is.
pub proof fn law_user_only_adds_email(
    usage: HttpReply<UsageSummary>,
    a: HttpReply<UserInfo>,
    b: HttpReply<UserInfo>,
)
    ensures
        web_usage(usage, a) is Ok <==> web_usage(usage, b) is Ok,
        web_usage(usage, a) is Err ==> web_usage(usage, a) == web_usage(usage, b),
        web_usage(usage, a) is Ok ==> {
            let (x, y) = (web_usage(usage, a)->Ok_0, web_usage(usage, b)->Ok_0);
            &&& x.primary == y.primary
            &&& x.secondary == y.secondary
            &&& x.model_specific == y.model_specific
            &&& x.cost == y.cost
            &&& x.plan_type == y.plan_type
        },
{
}

/// The membership type is the desktop program's and all else is the reply's: what a successful
/// desktop reply comes to agrees with its summary in everything but the name of the plan.
pub proof fn law_desktop_reply_keeps_summary(
    auth: CursorDesktopAuth,
    status: u16,
    summary: UsageSummary,
)
    requires
        200 <= status <= 299,
    ensures
        ({
            let usage = desktop_usage(
                auth,
                (HttpReply::Answered { status, body: Ok(summary) }),
            );
            let plain = usage_of(summary, None);
            &&& usage is Ok
            &&& usage->Ok_0.primary == plain.primary
            &&& usage->Ok_0.secondary == plain.secondary
            &&& usage->Ok_0.model_specific == plain.model_specific
            &&& usage->Ok_0.cost == plain.cost
            &&& usage->Ok_0.email == plain.email
            &&& usage->Ok_0.email is None
            &&& usage->Ok_0.plan_type == plan_type(text_of(auth.membership_type))
            &&& usage->Ok_0.plan_type is Some <==> auth.membership_type is Some
        }),
{
}

/// What a successful web reply comes to is its summary, with the user that the other reply names
/// if that one succeeded too.
pub proof fn law_web_reply_keeps_summary(
    status: u16,
    summary: UsageSummary,
    user_status: u16,
    user: UserInfo,
    failed: HttpReply<UserInfo>,
)
    requires
        200 <= status <= 299,
        200 <= user_status <= 299,
        match failed {
            HttpReply::Unreachable(_) => true,
            HttpReply::Answered { status, body } => !(200 <= status <= 299) || body is Err,
        },
    ensures
        web_usage(
            (HttpReply::Answered { status, body: Ok(summary) }),
            (HttpReply::Answered { status: user_status, body: Ok(user) }),
        ) == Ok::<UsageView, ErrorView>(usage_of(summary, Some(user))),
        web_usage((HttpReply::Answered { status, body: Ok(summary) }), failed) == Ok::<
            UsageView,
            ErrorView,
        >(usage_of(summary, None)),
{
}

/// A usage request that failed is answered by its status, with a message of its own for each of
/// the two ways of asking.
pub proof fn law_failed_requests_by_status(
    auth: CursorDesktopAuth,
    status: u16,
    body: Result<UsageSummary, String>,
    user: HttpReply<UserInfo>,
    desktop: Result<CursorUsageResult, ProviderError>,
    web: Result<CursorUsageResult, ProviderError>,
)
    requires
        result_view(desktop) == desktop_usage(auth, (HttpReply::Answered { status, body })),
        result_view(web) == web_usage((HttpReply::Answered { status, body }), user),
    ensures
        status == 401 || status == 403 ==> (desktop matches Err(ProviderError::AuthRequired))
            && (web matches Err(ProviderError::AuthRequired)),
        status != 401 && status != 403 && !(200 <= status <= 299) ==> (desktop matches Err(
            ProviderError::Other(m),
        ) && m@ == "Cursor desktop API returned "@ + status_line(status)) && (web matches Err(
            ProviderError::Other(m),
        ) && m@ == "Cursor API returned "@ + status_line(status)),
        200 <= status <= 299 && body is Err ==> (desktop matches Err(ProviderError::Parse(m)) && m@
            == (body->Err_0)@) && (web matches Err(ProviderError::Parse(m)) && m@ == (
        body->Err_0)@),
        200 <= status <= 299 && body is Ok ==> desktop is Ok && web is Ok,
{
}

/// A usage request without an answer is a failure of the network.
pub proof fn law_unanswered_requests(
    auth: CursorDesktopAuth,
    reason: String,
    user: HttpReply<UserInfo>,
    desktop: Result<CursorUsageResult, ProviderError>,
    web: Result<CursorUsageResult, ProviderError>,
)
    requires
        result_view(desktop) == desktop_usage(auth, HttpReply::Unreachable(reason)),
        result_view(web) == web_usage(HttpReply::Unreachable(reason), user),
    ensures
        desktop matches Err(ProviderError::Network(m)) && m@ == reason@,
        web matches Err(ProviderError::Network(m)) && m@ == reason@,
{
}

/// The requests by what they hold: the desktop's posts an empty object with the token, and those of
/// the web get a page of Cursor's with the cookies.
pub proof fn law_requests_by_fields(request: HttpRequest, secret: Seq<char>, path: Seq<char>)
    ensures
        request@ == desktop_request(secret) ==> {
            &&& request.method is PostEmptyObject
            &&& request.url@
                == "https://api2.cursor.sh/aiserver.v1.DashboardService/GetCurrentPeriodUsage"@
            &&& request.credential matches Credential::Bearer(s) && s@ == secret
            &&& request.accept@ == "application/json"@
            &&& request.timeout_seconds == 15
        },
        request@ == web_request(path, secret) ==> {
            &&& request.method is Get
            &&& request.url@ == "https://cursor.com"@ + path
            &&& request.credential matches Credential::Cookie(s) && s@ == secret
            &&& request.accept@ == "application/json"@
            &&& request.timeout_seconds == 15
        },
{
}

/// Cookies of `cursor.com` are tried before those of `cursor.sh`, and no others.
pub proof fn law_domains_by_name()
    ensures
        cookie_domains().len() == 2,
        cookie_domains()[0] == "cursor.com"@,
        cookie_domains()[1] == "cursor.sh"@,
{
}

/// Credentials that were loaded are asked with as they are, and a desktop reply that succeeded ends
/// the asking with its usage.
pub proof fn law_desktop_success_is_the_end(
    auth: CursorDesktopAuth,
    status: u16,
    summary: UsageSummary,
    loaded: FetchState,
    replied: FetchState,
)
    requires
        200 <= status <= 299,
        follows(FetchState::LoadingAuth, FetchEvent::AuthLoaded(Ok(Some(auth))), loaded),
        follows(
            (FetchState::AskingDesktop { auth }),
            FetchEvent::DesktopReplied((HttpReply::Answered { status, body: Ok(summary) })),
            replied,
        ),
    ensures
        loaded == (FetchState::AskingDesktop { auth }),
        replied matches FetchState::Done { result: Ok((usage, source)) } && source@ == "desktop"@
            && usage_view(usage).primary == usage_of(summary, None).primary && usage_view(
            usage,
        ).secondary == usage_of(summary, None).secondary && usage_view(usage).model_specific
            == usage_of(summary, None).model_specific && usage_view(usage).cost == usage_of(
            summary,
            None,
        ).cost && usage_view(usage).plan_type == plan_type(text_of(auth.membership_type)),
{
}

/// Cookies with anything but white space in them are asked with as they are; others that were found
/// end the asking without cookies, and so do blank ones that were given.
pub proof fn law_cookies_are_used_as_found(
    domain: usize,
    header: String,
    next: FetchState,
    started: FetchState,
)
    requires
        follows(
            (FetchState::ReadingCookies { domain }),
            FetchEvent::CookiesRead(Ok(header)),
            next,
        ),
        header@.len() > 0,
        web_begins(header@, started),
    ensures
        (exists|i: int| 0 <= i < header@.len() && !white_space(#[trigger] header@[i])) ==> (
        next matches FetchState::AskingWeb { cookie_header } && cookie_header@ == header@) && (
        started matches FetchState::AskingWeb { cookie_header } && cookie_header@ == header@),
        (forall|i: int| 0 <= i < header@.len() ==> white_space(#[trigger] header@[i])) ==> (
        next matches FetchState::Done { result: Err(ProviderError::NoCookies) }) && (
        started matches FetchState::Done { result: Err(ProviderError::NoCookies) }),
{
}

/// Where a domain has no cookies or they could not be read, the next domain is tried, and after the
/// second there are none.
pub proof fn law_domains_are_tried_in_turn(domain: usize, reason: String, next: FetchState)
    requires
        domain <= 1,
        follows((FetchState::ReadingCookies { domain }), FetchEvent::CookiesRead(Err(reason)), next)
            || exists|empty: String|
            empty@.len() == 0 && #[trigger] follows(
                (FetchState::ReadingCookies { domain }),
                FetchEvent::CookiesRead(Ok(empty)),
                next,
            ),
    ensures
        domain == 0 ==> next == (FetchState::ReadingCookies { domain: 1 }),
        domain == 1 ==> (next matches FetchState::Done { result: Err(ProviderError::NoCookies) }),
{
}

/// The replies to the requests with cookies end the asking, whatever they are, with what they come
/// to.
pub proof fn law_web_replies_are_the_end(
    cookie_header: String,
    usage: HttpReply<UsageSummary>,
    user: HttpReply<UserInfo>,
    next: FetchState,
)
    requires
        follows(
            (FetchState::AskingWeb { cookie_header }),
            FetchEvent::WebReplied(usage, user),
            next,
        ),
    ensures
        match web_usage(usage, user) {
            Ok(u) => next matches FetchState::Done { result: Ok((r, source)) } && usage_view(r)
                == u && source@ == "web"@,
            Err(e) => next matches FetchState::Done { result: Err(error) } && error@ == e,
        },
{
}

/// What a state does not wait for leaves it as it is, and an end waits for nothing.
pub proof fn law_asking_waits(state: FetchState, event: FetchEvent, next: FetchState)
    requires
        follows(state, event, next),
        match state {
            FetchState::LoadingAuth => !(event is AuthLoaded),
            FetchState::AskingDesktop { .. } => !(event is DesktopReplied),
            FetchState::ReadingCookies { .. } => !(event is CookiesRead),
            FetchState::AskingWeb { .. } => !(event is WebReplied),
            FetchState::Done { .. } => true,
        },
    ensures
        next == state,
{
}

/// Errors keep their kind and their words when they are passed on.
pub proof fn law_errors_are_passed_on(error: ProviderError)
    ensures
        fetch_view(Err(error)) == Err::<(UsageView, Seq<char>), ErrorView>(error@),
        result_view(Err(error)) == Err::<UsageView, ErrorView>(error@),
        error matches ProviderError::NoCookies ==> error@ is NoCookies,
        error matches ProviderError::AuthRequired ==> error@ is AuthRequired,
        error matches ProviderError::Network(m) ==> error@ == ErrorView::Network(m@),
        error matches ProviderError::Parse(m) ==> error@ == ErrorView::Parse(m@),
        error matches ProviderError::Other(m) ==> error@ == ErrorView::Other(m@),
{
}

} // verus!
