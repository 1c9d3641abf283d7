use tiler::arrange::{tile_focused_plan, ArrangeError, ArrangeSession, MonitorState, PlatformError};
use tiler::layout::Rect;

fn screen() -> Rect {
    Rect { x: 0, y: 0, w: 120, h: 60 }
}

#[test]
fn empty_inventory_yields_no_windows_and_no_commands() {
    let r = ArrangeSession::begin(0, screen());
    assert!(matches!(r, Err(ArrangeError::NoWindows)));
}

#[test]
fn failure_on_middle_window_still_attempts_the_rest() {
    let mut session = ArrangeSession::begin(3, screen()).unwrap();
    let mut attempted: Vec<usize> = Vec::new();
    while let Some((index, _rect)) = session.next_command() {
        attempted.push(index);
        if index == 1 {
            session.record_outcome(Err(PlatformError {
                operation: "set_geometry".to_string(),
                detail: "window vanished".to_string(),
            }));
        } else {
            session.record_outcome(Ok(()));
        }
    }
    assert_eq!(attempted, vec![0, 1, 2]);
    match session.finish() {
        Err(ArrangeError::Platform(e)) => {
            assert_eq!(e.operation, "set_geometry");
            assert_eq!(e.detail, "window vanished");
        }
        _ => panic!("the last geometry failure must be surfaced"),
    }
}

#[test]
fn all_windows_ok_reports_count() {
    let mut session = ArrangeSession::begin(3, screen()).unwrap();
    while let Some((_index, _rect)) = session.next_command() {
        session.record_outcome(Ok(()));
    }
    match session.finish() {
        Ok(count) => assert_eq!(count, 3),
        Err(_) => panic!("no failure was recorded"),
    }
}

#[test]
fn last_of_several_errors_is_surfaced() {
    let mut session = ArrangeSession::begin(3, screen()).unwrap();
    let mut turn: usize = 0;
    while let Some((_index, _rect)) = session.next_command() {
        session.record_outcome(Err(PlatformError {
            operation: "set_geometry".to_string(),
            detail: format!("failure {}", turn),
        }));
        turn += 1;
    }
    match session.finish() {
        Err(ArrangeError::Platform(e)) => assert_eq!(e.detail, "failure 2"),
        _ => panic!("a failure was recorded"),
    }
}

#[test]
fn session_commands_match_layout_plan() {
    let mut session = ArrangeSession::begin(2, screen()).unwrap();
    let (i0, r0) = session.next_command().unwrap();
    assert_eq!(i0, 0);
    assert_eq!(r0, Rect { x: 0, y: 0, w: 60, h: 60 });
    session.record_outcome(Ok(()));
    let (i1, r1) = session.next_command().unwrap();
    assert_eq!(i1, 1);
    assert_eq!(r1, Rect { x: 60, y: 0, w: 60, h: 60 });
    session.record_outcome(Ok(()));
    assert!(session.next_command().is_none());
}

#[test]
fn tile_focused_needs_a_focused_window() {
    let r = tile_focused_plan(false, screen());
    assert!(matches!(r, Err(ArrangeError::NoFocusedWindow)));
    let rect = tile_focused_plan(true, screen()).unwrap();
    assert_eq!(rect, Rect { x: 0, y: 0, w: 60, h: 60 });
}

#[test]
fn monitor_is_disabled_by_default() {
    let mut monitor = MonitorState::new();
    assert!(!monitor.observe(5));
    assert!(!monitor.observe(2));
}

#[test]
fn monitor_fires_only_on_a_change_to_more_than_one() {
    let mut monitor = MonitorState::new();
    monitor.set_enabled(true);
    assert!(monitor.observe(3));
    assert!(!monitor.observe(3));
    assert!(!monitor.observe(1));
    assert!(!monitor.observe(0));
    assert!(monitor.observe(2));
}
