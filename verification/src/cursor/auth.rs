//! Finding the credentials that Cursor's desktop program keeps, step by step.
//!
//! Whoever runs the steps does what a state asks for and hands back what came of it.

use vstd::prelude::*;

use crate::error::{ErrorView, ProviderError};
use crate::text::{blank, concat, is_blank, white_space};

verus! {

/// The query for the access token.
pub const TOKEN_QUERY: &'static str =
    "SELECT value FROM ItemTable WHERE key = 'cursorAuth/accessToken'";

/// The query for the membership type.
pub const MEMBERSHIP_QUERY: &'static str =
    "SELECT value FROM ItemTable WHERE key = 'cursorAuth/stripeMembershipType'";

/// The credentials that the desktop program keeps.
#[derive(Debug)]
pub struct CursorDesktopAuth {
    pub access_token: String,
    pub membership_type: Option<String>,
}

/// What loading the credentials comes to.
pub type AuthResult = Result<Option<CursorDesktopAuth>, ProviderError>;

/// How far loading the credentials has come.
#[derive(Debug)]
pub enum AuthState {
    /// Waits for whether the store has a place and is there.
    Locating,
    /// Waits for the store to be opened for reading.
    Opening,
    /// Waits for the access token.
    ReadingToken,
    /// Waits for the membership type.
    ReadingMembership { access_token: String },
    /// Has come to an end.
    Done { result: AuthResult },
}

/// What to do next.
#[derive(Debug, Clone, Copy)]
pub enum AuthAction {
    /// Find out whether the store has a place and is there.
    Locate,
    /// Open the store for reading.
    Open,
    /// Run a query that gives one text at most.
    Query(&'static str),
    /// Nothing more.
    Stop,
}

/// What came of it.
#[derive(Debug)]
pub enum AuthEvent {
    /// Whether the store has a place and is there.
    Located(bool),
    /// The store was opened, or why not.
    Opened(Result<(), String>),
    /// What the query gave, if anything, or why it failed.
    Queried(Result<Option<String>, String>),
}

/// Whether a state is an end that stands for `result`.
pub open spec fn ended(
    state: AuthState,
    result: Result<Option<CursorDesktopAuth>, ErrorView>,
) -> bool {
    match state {
        AuthState::Done { result: r } => match (r, result) {
            (Ok(a), Ok(b)) => a == b,
            (Err(a), Err(b)) => a@ == b,
            _ => false,
        },
        _ => false,
    }
}

/// Whether `event` is what a state waits for.
pub open spec fn awaits(state: AuthState, event: AuthEvent) -> bool {
    match state {
        AuthState::Locating => event is Located,
        AuthState::Opening => event is Opened,
        AuthState::ReadingToken => event is Queried,
        AuthState::ReadingMembership { .. } => event is Queried,
        AuthState::Done { .. } => false,
    }
}

/// Whether `next` is the state that follows. Without a store, or with nothing but white space
/// for a token, there are no credentials; a failure to open or to query is an error; otherwise
/// the token and the membership type are the credentials.
pub open spec fn follows(state: AuthState, event: AuthEvent, next: AuthState) -> bool {
    match (state, event) {
        (AuthState::Locating, AuthEvent::Located(found)) => if found {
            next is Opening
        } else {
            ended(next, Ok(None))
        },
        (AuthState::Opening, AuthEvent::Opened(opened)) => match opened {
            Ok(()) => next is ReadingToken,
            Err(e) => ended(
                next,
                Err(ErrorView::Other("Failed to read Cursor auth store: "@ + e@)),
            ),
        },
        (AuthState::ReadingToken, AuthEvent::Queried(reply)) => match reply {
            Ok(Some(token)) => if blank(token@) {
                ended(next, Ok(None))
            } else {
                next == (AuthState::ReadingMembership { access_token: token })
            },
            Ok(None) => ended(next, Ok(None)),
            Err(e) => ended(
                next,
                Err(ErrorView::Other("Failed to read Cursor access token: "@ + e@)),
            ),
        },
        (AuthState::ReadingMembership { access_token }, AuthEvent::Queried(reply)) => match reply {
            Ok(membership_type) => ended(
                next,
                Ok(Some(CursorDesktopAuth { access_token, membership_type })),
            ),
            Err(e) => ended(
                next,
                Err(ErrorView::Other("Failed to read Cursor membership type: "@ + e@)),
            ),
        },
        _ => next == state,
    }
}

/// How many steps are left at most.
pub open spec fn steps_left(state: AuthState) -> nat {
    match state {
        AuthState::Locating => 4,
        AuthState::Opening => 3,
        AuthState::ReadingToken => 2,
        AuthState::ReadingMembership { .. } => 1,
        AuthState::Done { .. } => 0,
    }
}

impl AuthState {
    /// Where loading starts.
    pub fn start() -> (res: AuthState)
        ensures
            res is Locating,
    {
        AuthState::Locating
    }

    /// What to do next.
    pub fn action(&self) -> (res: AuthAction)
        ensures
            match *self {
                AuthState::Locating => res is Locate,
                AuthState::Opening => res is Open,
                AuthState::ReadingToken => res matches AuthAction::Query(q) && q@ == TOKEN_QUERY@,
                AuthState::ReadingMembership { .. } => res matches AuthAction::Query(q) && q@
                    == MEMBERSHIP_QUERY@,
                AuthState::Done { .. } => res is Stop,
            },
    {
        match self {
            AuthState::Locating => AuthAction::Locate,
            AuthState::Opening => AuthAction::Open,
            AuthState::ReadingToken => AuthAction::Query(TOKEN_QUERY),
            AuthState::ReadingMembership { .. } => AuthAction::Query(MEMBERSHIP_QUERY),
            AuthState::Done { .. } => AuthAction::Stop,
        }
    }

    /// The state that follows. What a state does not wait for leaves it as it is.
    pub fn step(self, event: AuthEvent) -> (res: AuthState)
        ensures
            follows(self, event, res),
    {
        match (self, event) {
            (AuthState::Locating, AuthEvent::Located(found)) => if found {
                AuthState::Opening
            } else {
                AuthState::Done { result: Ok(None) }
            },
            (AuthState::Opening, AuthEvent::Opened(opened)) => match opened {
                Ok(()) => AuthState::ReadingToken,
                Err(e) => AuthState::failed("Failed to read Cursor auth store: ", e),
            },
            (AuthState::ReadingToken, AuthEvent::Queried(reply)) => match reply {
                Ok(Some(access_token)) => if is_blank(access_token.as_str()) {
                    AuthState::Done { result: Ok(None) }
                } else {
                    AuthState::ReadingMembership { access_token }
                },
                Ok(None) => AuthState::Done { result: Ok(None) },
                Err(e) => AuthState::failed("Failed to read Cursor access token: ", e),
            },
            (
                AuthState::ReadingMembership { access_token },
                AuthEvent::Queried(reply),
            ) => match reply {
                Ok(membership_type) => AuthState::Done {
                    result: Ok(Some(CursorDesktopAuth { access_token, membership_type })),
                },
                Err(e) => AuthState::failed("Failed to read Cursor membership type: ", e),
            },
            (state, _) => state,
        }
    }

    /// The end that a failure leads to.
    fn failed(complaint: &str, reason: String) -> (res: AuthState)
        ensures
            ended(res, Err(ErrorView::Other(complaint@ + reason@))),
    {
        AuthState::Done { result: Err(ProviderError::Other(concat(complaint, reason.as_str()))) }
    }
}

/// Every step that answers what a state waits for brings the end closer, so that loading ends
/// after four steps at most.
pub proof fn law_loading_ends(state: AuthState, event: AuthEvent, next: AuthState)
    requires
        awaits(state, event),
        follows(state, event, next),
    ensures
        steps_left(next) < steps_left(state),
        steps_left(next) == 0 <==> next is Done,
{
}

/// Credentials that loading comes to hold the token that was read, and it is not blank: what
/// leads to reading the membership type keeps to that, and only from there are any found.
pub proof fn law_tokens_are_not_blank(state: AuthState, event: AuthEvent, next: AuthState)
    requires
        awaits(state, event),
        follows(state, event, next),
        state matches AuthState::ReadingMembership { access_token } ==> !blank(access_token@),
    ensures
        next matches AuthState::ReadingMembership { access_token } ==> !blank(access_token@),
        next matches AuthState::Done { result: Ok(Some(auth)) } ==> !blank(auth.access_token@)
            && state is ReadingMembership,
{
}

/// The steps in words: a store that is there is opened, one that was opened is asked for the token,
/// and a token with anything but white space in it is followed by the membership type.
pub proof fn law_loading_goes_on(
    token: String,
    i: int,
    located: AuthState,
    opened: AuthState,
    queried: AuthState,
)
    requires
        follows(AuthState::Locating, AuthEvent::Located(true), located),
        follows(AuthState::Opening, AuthEvent::Opened(Ok(())), opened),
        follows(AuthState::ReadingToken, AuthEvent::Queried(Ok(Some(token))), queried),
        0 <= i < token@.len(),
        !white_space(token@[i]),
    ensures
        located is Opening,
        opened is ReadingToken,
        queried == (AuthState::ReadingMembership { access_token: token }),
{
}

/// The credentials that loading comes to are the token as it was read and the membership type as
/// it was read, if there is one.
pub proof fn law_credentials_are_what_was_read(
    access_token: String,
    membership_type: Option<String>,
    next: AuthState,
)
    requires
        follows(
            (AuthState::ReadingMembership { access_token }),
            AuthEvent::Queried(Ok(membership_type)),
            next,
        ),
    ensures
        next matches AuthState::Done { result: Ok(Some(auth)) } && auth.access_token
            == access_token && auth.membership_type == membership_type,
{
}

/// Without a store, a token, or anything but white space in it, loading ends without credentials
/// and without an error.
pub proof fn law_no_credentials_is_no_error(
    token: String,
    unlocated: AuthState,
    missing: AuthState,
    empty: AuthState,
)
    requires
        follows(AuthState::Locating, AuthEvent::Located(false), unlocated),
        follows(AuthState::ReadingToken, AuthEvent::Queried(Ok(None)), missing),
        follows(AuthState::ReadingToken, AuthEvent::Queried(Ok(Some(token))), empty),
        forall|i: int| 0 <= i < token@.len() ==> white_space(#[trigger] token@[i]),
    ensures
        unlocated matches AuthState::Done { result: Ok(None) },
        missing matches AuthState::Done { result: Ok(None) },
        empty matches AuthState::Done { result: Ok(None) },
{
}

/// Every failure to open or to query ends loading with an error that says what failed and why.
pub proof fn law_failures_say_why(
    access_token: String,
    reason: String,
    opened: AuthState,
    queried: AuthState,
    membership: AuthState,
)
    requires
        follows(AuthState::Opening, AuthEvent::Opened(Err(reason)), opened),
        follows(AuthState::ReadingToken, AuthEvent::Queried(Err(reason)), queried),
        follows(
            (AuthState::ReadingMembership { access_token }),
            AuthEvent::Queried(Err(reason)),
            membership,
        ),
    ensures
        opened matches AuthState::Done { result: Err(ProviderError::Other(m)) } && m@
            == "Failed to read Cursor auth store: "@ + reason@,
        queried matches AuthState::Done { result: Err(ProviderError::Other(m)) } && m@
            == "Failed to read Cursor access token: "@ + reason@,
        membership matches AuthState::Done { result: Err(ProviderError::Other(m)) } && m@
            == "Failed to read Cursor membership type: "@ + reason@,
{
}

/// What a state does not wait for leaves it as it is, and an end waits for nothing.
pub proof fn law_loading_waits(state: AuthState, event: AuthEvent, next: AuthState)
    requires
        follows(state, event, next),
        match state {
            AuthState::Locating => !(event is Located),
            AuthState::Opening => !(event is Opened),
            AuthState::ReadingToken => !(event is Queried),
            AuthState::ReadingMembership { .. } => !(event is Queried),
            AuthState::Done { .. } => true,
        },
    ensures
        next == state,
{
}

} // verus!
