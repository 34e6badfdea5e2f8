use ndk_glue::activity::{
    activity_state_by_input_queue_ident_mut, activity_state_mut, position_of_activity,
    position_of_input_queue_ident, register_activity, remove_activity, ActivityState,
    InputQueueIdents,
};
use ndk_glue::rect::Rect;
use ndk_glue::NDK_GLUE_LOOPER_INPUT_QUEUE_IDENT;

fn registry(addrs: &[usize]) -> Vec<ActivityState> {
    let mut v = Vec::new();
    for a in addrs {
        register_activity(&mut v, *a);
    }
    v
}

#[test]
fn new_activity_state_is_blank() {
    let s = ActivityState::new(0x1000);
    assert_eq!(
        s,
        ActivityState { activity: 0x1000, root_window: None, input_queue: None, content_rect: Rect::empty() }
    );
}

#[test]
fn register_appends() {
    let v = registry(&[0x10, 0x20]);
    assert_eq!(v.len(), 2);
    assert_eq!(v[1], ActivityState::new(0x20));
    assert_eq!(position_of_activity(&v, 0x20), Some(1));
    assert_eq!(position_of_activity(&v, 0x30), None);
}

#[test]
fn state_mut_finds_first_and_changes_in_place() {
    let mut v = registry(&[0x10, 0x20, 0x20]);
    {
        let st = activity_state_mut(&mut v, 0x20).unwrap();
        st.attach_window(0x99);
    }
    assert_eq!(v[1].root_window, Some(0x99));
    assert_eq!(v[2].root_window, None);
    assert_eq!(v[0].root_window, None);
    assert!(activity_state_mut(&mut v, 0x30).is_none());
    assert_eq!(v.len(), 3);
}

#[test]
fn window_attach_then_detach_restores() {
    let mut st = ActivityState::new(7);
    let before = st;
    st.attach_window(0x500);
    assert_eq!(st.root_window, Some(0x500));
    st.detach_window(0x500);
    assert_eq!(st, before);
}

#[test]
fn input_queue_attach_then_detach_restores() {
    let mut st = ActivityState::new(7);
    let before = st;
    st.attach_input_queue(0x600, 4);
    assert_eq!(st.input_queue, Some((0x600, 4)));
    assert_eq!(st.detach_input_queue(0x600), 4);
    assert_eq!(st, before);
}

#[test]
fn content_rect_changes_only_the_rect() {
    let mut st = ActivityState::new(7);
    st.attach_window(3);
    st.set_content_rect(Rect::from_edges(1, 2, 3, 4));
    assert_eq!(st.content_rect, Rect { left: 1, top: 2, right: 3, bottom: 4 });
    assert_eq!(st.root_window, Some(3));
    assert_eq!(st.activity, 7);
}

#[test]
fn find_by_input_queue_ident() {
    let mut v = registry(&[0x10, 0x20, 0x30]);
    v[2].attach_input_queue(0xa0, 5);
    v[1].attach_input_queue(0xb0, 6);
    assert_eq!(position_of_input_queue_ident(&v, 5), Some(2));
    assert_eq!(position_of_input_queue_ident(&v, 6), Some(1));
    assert_eq!(position_of_input_queue_ident(&v, 1), None);
    let st = activity_state_by_input_queue_ident_mut(&mut v, 5).unwrap();
    assert_eq!(st.activity, 0x30);
    st.set_content_rect(Rect::from_edges(0, 0, 9, 9));
    assert_eq!(v[2].content_rect.right, 9);
    assert!(activity_state_by_input_queue_ident_mut(&mut v, 7).is_none());
}

#[test]
fn remove_swaps_in_the_last() {
    let mut v = registry(&[0x10, 0x20, 0x30, 0x40]);
    let removed = remove_activity(&mut v, 0x20);
    assert_eq!(removed, ActivityState::new(0x20));
    let addrs: Vec<usize> = v.iter().map(|s| s.activity).collect();
    assert_eq!(addrs, vec![0x10, 0x40, 0x30]);
}

#[test]
fn register_then_remove_restores() {
    let mut v = registry(&[0x10, 0x20]);
    let before = v.clone();
    register_activity(&mut v, 0x30);
    remove_activity(&mut v, 0x30);
    assert_eq!(v, before);
}

#[test]
fn remove_last_remaining() {
    let mut v = registry(&[0x10]);
    remove_activity(&mut v, 0x10);
    assert!(v.is_empty());
}

#[test]
fn input_queue_idents_count_up() {
    let mut ids = InputQueueIdents::new();
    assert_eq!(ids.next_ident(), NDK_GLUE_LOOPER_INPUT_QUEUE_IDENT);
    assert_eq!(ids.next_ident(), 2);
    assert_eq!(ids.next_ident(), 3);
}

#[test]
fn input_queue_ident_found_until_detached() {
    let mut v = registry(&[0x10, 0x20]);
    let mut ids = InputQueueIdents::new();
    let ident = ids.next_ident();
    activity_state_mut(&mut v, 0x20).unwrap().attach_input_queue(0xc0, ident);
    assert_eq!(position_of_input_queue_ident(&v, ident), Some(1));
    let back = activity_state_by_input_queue_ident_mut(&mut v, ident).unwrap().detach_input_queue(0xc0);
    assert_eq!(back, ident);
    assert_eq!(position_of_input_queue_ident(&v, ident), None);
    assert_eq!(v, registry(&[0x10, 0x20]));
}

#[test]
fn queue_idents_stay_distinct_and_found() {
    let mut v = registry(&[0x10, 0x20, 0x30]);
    let mut ids = InputQueueIdents::new();
    let mut given = Vec::new();
    for (k, a) in [0x30usize, 0x10, 0x20].iter().enumerate() {
        let ident = ids.next_ident();
        assert_eq!(ident, 1 + k as i32);
        assert_eq!(position_of_input_queue_ident(&v, ident), None);
        activity_state_mut(&mut v, *a).unwrap().attach_input_queue(0x100 + k, ident);
        given.push((*a, ident));
    }
    for (a, ident) in given {
        assert_ne!(ident, ndk_glue::NDK_GLUE_LOOPER_EVENT_PIPE_IDENT);
        assert_eq!(activity_state_by_input_queue_ident_mut(&mut v, ident).unwrap().activity, a);
    }
}

#[test]
fn registry_contents_follow_register_and_remove() {
    let mut v = registry(&[0x10, 0x20]);
    register_activity(&mut v, 0x30);
    let mut addrs: Vec<usize> = v.iter().map(|s| s.activity).collect();
    addrs.sort();
    assert_eq!(addrs, vec![0x10, 0x20, 0x30]);
    remove_activity(&mut v, 0x10);
    let mut addrs: Vec<usize> = v.iter().map(|s| s.activity).collect();
    addrs.sort();
    assert_eq!(addrs, vec![0x20, 0x30]);
    assert_eq!(position_of_activity(&v, 0x10), None);
}
