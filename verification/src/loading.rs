//! How a console detail page loads: fetch the detail, open the events
//! session, then the live stream. The page runs the fetches and hands each
//! outcome back as an event; this module decides what the page shows and
//! what it does next.
use vstd::prelude::*;

use crate::alerts::opt_view;
use crate::api::ApiError;
use crate::display::StreamState;
use crate::text::string_of;

verus! {

/// What a detail page shows while it loads.
#[derive(Clone, Debug)]
pub struct PageLoadState {
    pub loading: bool,
    pub error: Option<String>,
    pub stream: StreamState,
    pub has_detail: bool,
}

/// What came back from the page's last step.
#[derive(Clone, Debug)]
pub enum PageLoadEvent {
    /// The page (re)loads; `signed_in` tells whether a user is signed in.
    Start { signed_in: bool },
    DetailLoaded,
    DetailFailed(ApiError),
    EventsSessionReady,
    EventsSessionFailed(ApiError),
    StreamOpened,
    StreamFailed(String),
}

/// What the page does next.
#[derive(Clone, Copy, Debug, PartialEq, Eq, Structural)]
pub enum PageLoadAction {
    /// Drop the shown detail: nobody is signed in.
    ClearPage,
    FetchDetail,
    EnsureEventsSession,
    OpenStream,
    /// The server refused the credentials: sign the user out.
    ResetSession,
    Done,
}

/// The page's state as values.
pub struct PageView {
    pub loading: bool,
    pub error: Option<Seq<char>>,
    pub stream: StreamState,
    pub has_detail: bool,
}

pub open spec fn page_view(s: PageLoadState) -> PageView {
    PageView { loading: s.loading, error: opt_view(s.error), stream: s.stream, has_detail: s.has_detail }
}

pub open spec fn auth_refused(e: ApiError) -> bool {
    e.status == Some(401u16) || e.status == Some(403u16)
}

/// One step of loading: the next state and action for an event.
pub open spec fn spec_page_load_step(s: PageView, event: PageLoadEvent) -> (PageView, PageLoadAction) {
    match event {
        PageLoadEvent::Start { signed_in } => if signed_in {
            (PageView { loading: true, error: None, ..s }, PageLoadAction::FetchDetail)
        } else {
            (PageView { loading: false, has_detail: false, ..s }, PageLoadAction::ClearPage)
        },
        PageLoadEvent::DetailLoaded => (
            PageView { has_detail: true, stream: StreamState::Connecting, ..s },
            PageLoadAction::EnsureEventsSession,
        ),
        PageLoadEvent::DetailFailed(e) => if auth_refused(e) {
            (PageView { loading: false, ..s }, PageLoadAction::ResetSession)
        } else {
            (PageView { loading: false, error: Some(e.message@), ..s }, PageLoadAction::Done)
        },
        PageLoadEvent::EventsSessionReady => (s, PageLoadAction::OpenStream),
        PageLoadEvent::EventsSessionFailed(e) => if auth_refused(e) {
            (PageView { loading: false, ..s }, PageLoadAction::ResetSession)
        } else {
            (
                PageView { loading: false, error: Some(e.message@), stream: StreamState::Error, ..s },
                PageLoadAction::Done,
            )
        },
        PageLoadEvent::StreamOpened => (PageView { loading: false, ..s }, PageLoadAction::Done),
        PageLoadEvent::StreamFailed(m) => (
            PageView { loading: false, error: Some(m@), stream: StreamState::Error, ..s },
            PageLoadAction::Done,
        ),
    }
}

fn copy_error(e: &Option<String>) -> (r: Option<String>)
    ensures
        opt_view(r) == opt_view(*e),
{
    match e {
        Some(m) => Some(string_of(m.as_str())),
        None => None,
    }
}

/// One step of loading a detail page.
pub fn page_load_step(state: &PageLoadState, event: PageLoadEvent) -> (r: (PageLoadState, PageLoadAction))
    ensures
        (page_view(r.0), r.1) == spec_page_load_step(page_view(*state), event),
{
    let error = copy_error(&state.error);
    let s = PageLoadState { loading: state.loading, error, stream: state.stream, has_detail: state.has_detail };
    match event {
        PageLoadEvent::Start { signed_in } => if signed_in {
            (PageLoadState { loading: true, error: None, ..s }, PageLoadAction::FetchDetail)
        } else {
            (PageLoadState { loading: false, has_detail: false, ..s }, PageLoadAction::ClearPage)
        },
        PageLoadEvent::DetailLoaded => (
            PageLoadState { has_detail: true, stream: StreamState::Connecting, ..s },
            PageLoadAction::EnsureEventsSession,
        ),
        PageLoadEvent::DetailFailed(e) => if e.is_auth_error() {
            (PageLoadState { loading: false, ..s }, PageLoadAction::ResetSession)
        } else {
            (PageLoadState { loading: false, error: Some(e.message), ..s }, PageLoadAction::Done)
        },
        PageLoadEvent::EventsSessionReady => (s, PageLoadAction::OpenStream),
        PageLoadEvent::EventsSessionFailed(e) => if e.is_auth_error() {
            (PageLoadState { loading: false, ..s }, PageLoadAction::ResetSession)
        } else {
            (
                PageLoadState { loading: false, error: Some(e.message), stream: StreamState::Error, ..s },
                PageLoadAction::Done,
            )
        },
        PageLoadEvent::StreamOpened => (PageLoadState { loading: false, ..s }, PageLoadAction::Done),
        PageLoadEvent::StreamFailed(m) => (
            PageLoadState { loading: false, error: Some(m), stream: StreamState::Error, ..s },
            PageLoadAction::Done,
        ),
    }
}

/// A refused session signs the user out without an error on the page and
/// without opening the stream: after a (re)load, a 401 or 403 on the detail
/// leaves no error and asks only for the reset.
pub proof fn lemma_refused_session_resets_quietly(s: PageView, e: ApiError)
    requires
        auth_refused(e),
    ensures
        ({
            let started = spec_page_load_step(s, PageLoadEvent::Start { signed_in: true }).0;
            let (after, action) = spec_page_load_step(started, PageLoadEvent::DetailFailed(e));
            action == PageLoadAction::ResetSession && after.error is None && !after.loading
        }),
        ({
            let (after, action) = spec_page_load_step(s, PageLoadEvent::EventsSessionFailed(e));
            action == PageLoadAction::ResetSession && after.error == s.error && after.stream == s.stream
        }),
{
}

} // verus!
