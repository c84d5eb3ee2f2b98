use encoder::chapter::{Chapter, LiveStatus, LiveStatusType};
use encoder::session::{
    conclude, is_too_short, step, CaptureStatus, Encoder, Event, Finish, Next, State,
};
use encoder::time::Time;

fn status(title: &str, category: &str) -> LiveStatus {
    LiveStatus {
        status: LiveStatusType::Open,
        live_title: title.to_owned(),
        live_category: Some(category.to_owned()),
    }
}

fn seen(secs: u64, title: &str, category: &str) -> Chapter {
    Chapter(Time::from_secs(secs), status(title, category))
}

fn capturing(chapters: Vec<Chapter>) -> State {
    State::Capturing(Encoder { chapters })
}

fn chapters_of(state: &State) -> Option<&Vec<Chapter>> {
    match state {
        State::Capturing(encoder) => Some(&encoder.chapters),
        _ => None,
    }
}

fn embedded(finish: &Finish) -> Option<&Vec<Chapter>> {
    match finish {
        Finish::Embed(chapters) => Some(chapters),
        _ => None,
    }
}

#[test]
fn idle_stays_idle_while_offline() {
    for event in [Event::Offline, Event::WatchFailed] {
        let t = step(State::Idle, event);
        assert!(matches!(t.state, State::Idle));
        assert!(matches!(t.finish, Finish::Nothing));
        assert!(!t.terminate && !t.announce);
        assert_eq!(t.next, Next::Wait);
    }
}

#[test]
fn start_seeds_the_first_chapter_at_zero() {
    let t = step(State::Idle, Event::Started(status("A", "x")));
    assert_eq!(chapters_of(&t.state), Some(&vec![seen(0, "A", "x")]));
    assert!(t.announce && !t.terminate);
    assert!(matches!(t.finish, Finish::Nothing));
    assert_eq!(t.next, Next::Wait);
}

#[test]
fn running_capture_feeds_the_chapters() {
    let event = Event::Observed {
        capture: CaptureStatus::Running,
        elapsed: Time::from_secs(5),
        status: Some(status("B", "x")),
    };
    let t = step(capturing(vec![seen(0, "A", "x")]), event);
    assert_eq!(chapters_of(&t.state), Some(&vec![seen(0, "A", "x"), seen(5, "B", "x")]));
    assert!(t.announce);
    assert_eq!(t.next, Next::Wait);
}

#[test]
fn failed_status_poll_changes_nothing() {
    let event = Event::Observed {
        capture: CaptureStatus::Running,
        elapsed: Time::from_secs(5),
        status: None,
    };
    let t = step(capturing(vec![seen(0, "A", "x")]), event);
    assert_eq!(chapters_of(&t.state), Some(&vec![seen(0, "A", "x")]));
    assert!(!t.announce);
    assert!(matches!(t.finish, Finish::Nothing));
    assert_eq!(t.next, Next::Wait);
}

#[test]
fn exit_takes_precedence_over_a_status_change() {
    for capture in [CaptureStatus::Exited, CaptureStatus::Failed] {
        let event = Event::Observed {
            capture,
            elapsed: Time::from_secs(100),
            status: Some(status("B", "y")),
        };
        let t = step(capturing(vec![seen(0, "A", "x")]), event);
        assert!(matches!(t.state, State::Idle));
        assert_eq!(embedded(&t.finish), Some(&vec![seen(0, "A", "x")]));
        assert!(!t.announce && !t.terminate);
        assert_eq!(t.next, Next::Retry);
    }
}

#[test]
fn short_session_is_discarded() {
    let event = Event::Observed {
        capture: CaptureStatus::Exited,
        elapsed: Time::from_secs(14),
        status: None,
    };
    let t = step(capturing(vec![seen(0, "A", "x")]), event);
    assert!(matches!(t.finish, Finish::Discard));
    assert!(matches!(t.state, State::Idle));
    assert_eq!(t.next, Next::Retry);
}

#[test]
fn fifteen_seconds_are_kept() {
    assert!(is_too_short(Time::from_secs(0)));
    assert!(is_too_short(Time::from_secs(14)));
    assert!(!is_too_short(Time::from_secs(15)));
    assert!(!is_too_short(Time(1, 0, 0)));
    let finish = conclude(Encoder { chapters: vec![seen(0, "A", "x")] }, Time::from_secs(15));
    assert_eq!(embedded(&finish), Some(&vec![seen(0, "A", "x")]));
}

#[test]
fn shutdown_while_capturing_finalizes_once() {
    let t = step(
        capturing(vec![seen(0, "A", "x")]),
        Event::Shutdown { elapsed: Time::from_secs(60) },
    );
    assert!(t.terminate);
    assert_eq!(embedded(&t.finish), Some(&vec![seen(0, "A", "x")]));
    assert_eq!(t.next, Next::Exit);
    assert!(matches!(t.state, State::Stopped));
    let pending = Event::Observed {
        capture: CaptureStatus::Exited,
        elapsed: Time::from_secs(61),
        status: None,
    };
    let after = step(t.state, pending);
    assert!(matches!(after.state, State::Stopped));
    assert!(matches!(after.finish, Finish::Nothing));
    assert!(!after.terminate);
    assert_eq!(after.next, Next::Exit);
}

#[test]
fn shutdown_discards_a_short_session() {
    let t = step(
        capturing(vec![seen(0, "A", "x")]),
        Event::Shutdown { elapsed: Time::from_secs(3) },
    );
    assert!(t.terminate);
    assert!(matches!(t.finish, Finish::Discard));
    assert_eq!(t.next, Next::Exit);
}

#[test]
fn shutdown_while_idle_exits_at_once() {
    let t = step(State::Idle, Event::Shutdown { elapsed: Time(0, 0, 0) });
    assert!(!t.terminate);
    assert!(matches!(t.finish, Finish::Nothing));
    assert!(matches!(t.state, State::Stopped));
    assert_eq!(t.next, Next::Exit);
}

#[test]
fn events_of_the_other_state_change_nothing() {
    let t = step(capturing(vec![seen(0, "A", "x")]), Event::Started(status("B", "y")));
    assert_eq!(chapters_of(&t.state), Some(&vec![seen(0, "A", "x")]));
    assert_eq!(t.next, Next::Wait);
    let event = Event::Observed {
        capture: CaptureStatus::Exited,
        elapsed: Time::from_secs(100),
        status: None,
    };
    let t = step(State::Idle, event);
    assert!(matches!(t.state, State::Idle));
    assert!(matches!(t.finish, Finish::Nothing));
    assert_eq!(t.next, Next::Wait);
}
