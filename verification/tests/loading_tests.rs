use rginx_control::api::ApiError;
use rginx_control::display::StreamState;
use rginx_control::loading::{page_load_step, PageLoadAction, PageLoadEvent, PageLoadState};

fn idle() -> PageLoadState {
    PageLoadState { loading: false, error: Some("old".to_string()), stream: StreamState::Idle, has_detail: true }
}

#[test]
fn page_loads_detail_then_session_then_stream() {
    let (s, a) = page_load_step(&idle(), PageLoadEvent::Start { signed_in: true });
    assert_eq!(a, PageLoadAction::FetchDetail);
    assert!(s.loading);
    assert!(s.error.is_none());
    let (s, a) = page_load_step(&s, PageLoadEvent::DetailLoaded);
    assert_eq!(a, PageLoadAction::EnsureEventsSession);
    assert_eq!(s.stream, StreamState::Connecting);
    assert!(s.has_detail);
    let (s, a) = page_load_step(&s, PageLoadEvent::EventsSessionReady);
    assert_eq!(a, PageLoadAction::OpenStream);
    let (s, a) = page_load_step(&s, PageLoadEvent::StreamOpened);
    assert_eq!(a, PageLoadAction::Done);
    assert!(!s.loading);
    assert!(s.error.is_none());
}

#[test]
fn signed_out_page_is_cleared() {
    let (s, a) = page_load_step(&idle(), PageLoadEvent::Start { signed_in: false });
    assert_eq!(a, PageLoadAction::ClearPage);
    assert!(!s.has_detail);
    assert!(!s.loading);
}

#[test]
fn refused_session_resets_without_error() {
    let (s, _) = page_load_step(&idle(), PageLoadEvent::Start { signed_in: true });
    let (s, a) = page_load_step(&s, PageLoadEvent::DetailFailed(ApiError::new(Some(401), "unauthorized")));
    assert_eq!(a, PageLoadAction::ResetSession);
    assert!(s.error.is_none());
    assert!(!s.loading);

    let (s, a) = page_load_step(&s, PageLoadEvent::DetailFailed(ApiError::new(Some(500), "boom")));
    assert_eq!(a, PageLoadAction::Done);
    assert_eq!(s.error.as_deref(), Some("boom"));

    let (s, a) = page_load_step(&s, PageLoadEvent::EventsSessionFailed(ApiError::new(None, "offline")));
    assert_eq!(a, PageLoadAction::Done);
    assert_eq!(s.stream, StreamState::Error);
    assert_eq!(s.error.as_deref(), Some("offline"));

    let (s, a) = page_load_step(&s, PageLoadEvent::StreamFailed("closed".to_string()));
    assert_eq!(a, PageLoadAction::Done);
    assert_eq!(s.error.as_deref(), Some("closed"));
}
