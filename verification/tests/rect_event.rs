use ndk_glue::event::{Event, EVENT_COUNT};
use ndk_glue::rect::Rect;
use ndk_glue::logging::{android_log_priority, LogLevel, LogPriority};

const ALL_EVENTS: [Event; 17] = [
    Event::Start,
    Event::Resume,
    Event::SaveInstanceState,
    Event::Pause,
    Event::Stop,
    Event::Destroy,
    Event::ConfigChanged,
    Event::LowMemory,
    Event::WindowLostFocus,
    Event::WindowHasFocus,
    Event::WindowCreated,
    Event::WindowResized,
    Event::WindowRedrawNeeded,
    Event::WindowDestroyed,
    Event::InputQueueCreated,
    Event::InputQueueDestroyed,
    Event::ContentRectChanged,
];

#[test]
fn rect_empty_is_all_zero() {
    let r = Rect::empty();
    assert_eq!(r, Rect { left: 0, top: 0, right: 0, bottom: 0 });
}

#[test]
fn rect_default_is_empty() {
    assert_eq!(Rect::default(), Rect::empty());
}

#[test]
fn rect_from_edges_keeps_positive_edges() {
    let r = Rect::from_edges(10, 20, 1080, 2400);
    assert_eq!(r, Rect { left: 10, top: 20, right: 1080, bottom: 2400 });
}

#[test]
fn rect_from_edges_wraps_negative_edges() {
    let r = Rect::from_edges(-1, -2, 0, i32::MIN);
    assert_eq!(r.left, u32::MAX);
    assert_eq!(r.top, u32::MAX - 1);
    assert_eq!(r.right, 0);
    assert_eq!(r.bottom, 0x8000_0000);
}

#[test]
fn event_bytes_are_declaration_positions() {
    for (i, e) in ALL_EVENTS.iter().enumerate() {
        assert_eq!(e.to_byte() as usize, i);
    }
    assert_eq!(Event::Start.to_byte(), 0);
    assert_eq!(Event::WindowCreated.to_byte(), 10);
    assert_eq!(Event::ContentRectChanged.to_byte(), 16);
}

#[test]
fn event_byte_round_trip() {
    for e in ALL_EVENTS.iter() {
        assert_eq!(Event::from_byte(e.to_byte()), Some(*e));
    }
}

#[test]
fn event_from_byte_rejects_unknown_bytes() {
    assert_eq!(EVENT_COUNT, 17);
    for b in EVENT_COUNT..=u8::MAX {
        assert_eq!(Event::from_byte(b), None);
    }
    for b in 0..EVENT_COUNT {
        assert_eq!(Event::from_byte(b).map(|e| e.to_byte()), Some(b));
    }
}

#[test]
fn focus_change_events() {
    assert_eq!(Event::focus_changed(0), Event::WindowLostFocus);
    assert_eq!(Event::focus_changed(1), Event::WindowHasFocus);
    assert_eq!(Event::focus_changed(-7), Event::WindowHasFocus);
}

#[test]
fn log_priorities() {
    assert_eq!(android_log_priority(LogLevel::Error), LogPriority::Error);
    assert_eq!(android_log_priority(LogLevel::Warn), LogPriority::Warn);
    assert_eq!(android_log_priority(LogLevel::Info), LogPriority::Info);
    assert_eq!(android_log_priority(LogLevel::Debug), LogPriority::Debug);
    assert_eq!(android_log_priority(LogLevel::Trace), LogPriority::Verbose);
}
