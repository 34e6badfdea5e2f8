//! The registry of live activities: what the glue knows of each activity
//! that Android has created and not yet destroyed, and how Android's
//! callbacks change it.

use vstd::prelude::*;
use crate::rect::Rect;
use crate::NDK_GLUE_LOOPER_INPUT_QUEUE_IDENT;

verus! {

/// What the glue keeps of one live activity. Android's objects are held by
/// their addresses: `activity` is the `ANativeActivity`, `root_window` the
/// `ANativeWindow` that the activity currently shows, and `input_queue` the
/// `AInputQueue` that delivers its input, together with the identifier under
/// which that queue is registered with the main looper.
#[derive(Clone, Copy, Debug, PartialEq, Eq)]
pub struct ActivityState {
    pub activity: usize,
    pub root_window: Option<usize>,
    pub input_queue: Option<(usize, i32)>,
    pub content_rect: Rect,
}

impl ActivityState {
    /// The state of an activity that Android has just created: no window, no
    /// input queue, an empty content rectangle.
    pub open spec fn spec_new(activity: usize) -> ActivityState {
        ActivityState {
            activity,
            root_window: None,
            input_queue: None,
            content_rect: Rect::spec_empty(),
        }
    }

    /// The state of an activity that Android has just created.
    pub fn new(activity: usize) -> (s: Self)
        ensures
            s == Self::spec_new(activity),
    {
        ActivityState {
            activity,
            root_window: None,
            input_queue: None,
            content_rect: Rect::empty(),
        }
    }

    /// Android created the window `window` for this activity, which had none.
    pub fn attach_window(&mut self, window: usize)
        requires
            old(self).root_window is None,
        ensures
            *final(self) == (ActivityState { root_window: Some(window), ..*old(self) }),
    {
        self.root_window = Some(window);
    }

    /// Android is destroying the activity's window `window`.
    pub fn detach_window(&mut self, window: usize)
        requires
            old(self).root_window == Some(window),
        ensures
            *final(self) == (ActivityState { root_window: None, ..*old(self) }),
    {
        self.root_window = None;
    }

    /// Android created the input queue `queue` for this activity, which had
    /// none, and the glue registered it with the main looper under `ident`.
    pub fn attach_input_queue(&mut self, queue: usize, ident: i32)
        requires
            old(self).input_queue is None,
        ensures
            *final(self) == (ActivityState { input_queue: Some((queue, ident)), ..*old(self) }),
    {
        self.input_queue = Some((queue, ident));
    }

    /// Android is destroying the activity's input queue `queue`; gives back the
    /// identifier under which it was registered with the main looper.
    pub fn detach_input_queue(&mut self, queue: usize) -> (ident: i32)
        requires
            old(self).input_queue matches Some((q, _)) && q == queue,
        ensures
            old(self).input_queue == Some((queue, ident)),
            *final(self) == (ActivityState { input_queue: None, ..*old(self) }),
    {
        let ident = match self.input_queue {
            Some((_, ident)) => ident,
            None => 0,
        };
        self.input_queue = None;
        ident
    }

    /// Android moved the area in which the activity shows its content.
    pub fn set_content_rect(&mut self, rect: Rect)
        ensures
            *final(self) == (ActivityState { content_rect: rect, ..*old(self) }),
    {
        self.content_rect = rect;
    }
}

/// `i` is the position of the first state in `s` that belongs to `activity`.
pub open spec fn is_first_of_activity(s: Seq<ActivityState>, activity: usize, i: int) -> bool {
    &&& 0 <= i < s.len()
    &&& s[i].activity == activity
    &&& forall|j: int| 0 <= j < i ==> s[j].activity != activity
}

/// Some state in `s` belongs to `activity`.
pub open spec fn has_activity(s: Seq<ActivityState>, activity: usize) -> bool {
    exists|i: int| 0 <= i < s.len() && s[i].activity == activity
}

/// The state has an input queue registered under `ident`.
pub open spec fn has_input_queue_ident(st: ActivityState, ident: i32) -> bool {
    st.input_queue matches Some((_, id)) && id == ident
}

/// `i` is the position of the first state in `s` whose input queue is
/// registered under `ident`.
pub open spec fn is_first_of_input_queue_ident(s: Seq<ActivityState>, ident: i32, i: int) -> bool {
    &&& 0 <= i < s.len()
    &&& has_input_queue_ident(s[i], ident)
    &&& forall|j: int| 0 <= j < i ==> !has_input_queue_ident(s[j], ident)
}

/// Some state in `s` has an input queue registered under `ident`.
pub open spec fn has_input_queue(s: Seq<ActivityState>, ident: i32) -> bool {
    exists|i: int| 0 <= i < s.len() && has_input_queue_ident(s[i], ident)
}

/// `s` with the element at `i` replaced by the last one, and the last one
/// dropped: what `Vec::swap_remove` leaves.
pub open spec fn swap_removed(s: Seq<ActivityState>, i: int) -> Seq<ActivityState> {
    s.update(i, s.last()).drop_last()
}

/// The position of the first state in `activities` that belongs to
/// `activity`, if any does.
pub fn position_of_activity(activities: &Vec<ActivityState>, activity: usize) -> (r: Option<usize>)
    ensures
        r is None <==> !has_activity(activities@, activity),
        r matches Some(i) ==> is_first_of_activity(activities@, activity, i as int),
{
    let mut i: usize = 0;
    while i < activities.len()
        invariant
            i <= activities@.len(),
            forall|j: int| 0 <= j < i ==> activities@[j].activity != activity,
        decreases activities@.len() - i,
    {
        if activities[i].activity == activity {
            return Some(i);
        }
        i = i + 1;
    }
    None
}

/// The position of the first state in `activities` whose input queue is
/// registered under `ident`, if any is.
pub fn position_of_input_queue_ident(activities: &Vec<ActivityState>, ident: i32) -> (r: Option<usize>)
    ensures
        r is None <==> !has_input_queue(activities@, ident),
        r matches Some(i) ==> is_first_of_input_queue_ident(activities@, ident, i as int),
        r matches Some(i) ==> i < activities@.len() && activities@[i as int].input_queue is Some
            && activities@[i as int].input_queue->Some_0.1 == ident,
        forall|j: int|
            0 <= j < activities@.len() && (r is None || j < r->Some_0) && (
            #[trigger] activities@[j]).input_queue is Some ==> activities@[j].input_queue->Some_0.1
                != ident,
{
    let mut i: usize = 0;
    while i < activities.len()
        invariant
            i <= activities@.len(),
            forall|j: int| 0 <= j < i ==> !has_input_queue_ident(#[trigger] activities@[j], ident),
        decreases activities@.len() - i,
    {
        let found = match activities[i].input_queue {
            Some((_, id)) => id == ident,
            None => false,
        };
        if found {
            return Some(i);
        }
        i = i + 1;
    }
    None
}

/// The state of `activity` in `activities`, to be changed in place: the first
/// one that belongs to it, where there are several; `None` where none does.
pub fn activity_state_mut(activities: &mut Vec<ActivityState>, activity: usize) -> (r: Option<
    &mut ActivityState,
>)
    ensures
        r is None <==> !has_activity(old(activities)@, activity),
        r is None ==> final(activities)@ == old(activities)@,
        r matches Some(st) ==> exists|i: int|
            is_first_of_activity(old(activities)@, activity, i) && *st == old(activities)@[i]
                && final(activities)@ == old(activities)@.update(i, *final(st)),
{
    match position_of_activity(activities, activity) {
        Some(i) => Some(&mut activities[i]),
        None => None,
    }
}

/// The state of the activity whose input queue is registered with the main
/// looper under `ident`, to be changed in place: the first such state, where
/// there are several; `None` where there is none.
pub fn activity_state_by_input_queue_ident_mut(
    activities: &mut Vec<ActivityState>,
    ident: i32,
) -> (r: Option<&mut ActivityState>)
    ensures
        r is None <==> !has_input_queue(old(activities)@, ident),
        r is None ==> final(activities)@ == old(activities)@,
        r matches Some(st) ==> st.input_queue is Some && st.input_queue->Some_0.1 == ident,
        r is None ==> forall|j: int|
            0 <= j < old(activities)@.len() && (#[trigger] old(activities)@[j]).input_queue is Some
                ==> old(activities)@[j].input_queue->Some_0.1 != ident,
        r matches Some(st) ==> exists|i: int|
            is_first_of_input_queue_ident(old(activities)@, ident, i) && *st == old(activities)@[i]
                && final(activities)@ == old(activities)@.update(i, *final(st)),
{
    match position_of_input_queue_ident(activities, ident) {
        Some(i) => Some(&mut activities[i]),
        None => None,
    }
}

/// Android created `activity`: it joins the registry, last, with no window,
/// no input queue and an empty content rectangle.
pub fn register_activity(activities: &mut Vec<ActivityState>, activity: usize)
    ensures
        final(activities)@ == old(activities)@.push(ActivityState::spec_new(activity)),
{
    activities.push(ActivityState::new(activity));
}

/// Android destroyed `activity`: its state (the first one, where there are
/// several) leaves the registry, and the last state takes its place. Gives
/// back the state that left.
pub fn remove_activity(activities: &mut Vec<ActivityState>, activity: usize) -> (removed:
    ActivityState)
    requires
        has_activity(old(activities)@, activity),
    ensures
        exists|i: int|
            is_first_of_activity(old(activities)@, activity, i) && removed == old(activities)@[i]
                && final(activities)@ == swap_removed(old(activities)@, i),
{
    match position_of_activity(activities, activity) {
        Some(i) => activities.swap_remove(i),
        None => {
            proof {
                assert(false);
            }
            ActivityState::new(activity)
        },
    }
}

/// Hands out the identifiers under which input queues are registered with the
/// main looper, one after the other, starting at
/// [`NDK_GLUE_LOOPER_INPUT_QUEUE_IDENT`] and wrapping around after `i32::MAX`.
pub struct InputQueueIdents {
    next: i32,
}

impl InputQueueIdents {
    /// The identifier that the next call of `next_ident` hands out.
    pub closed spec fn upcoming(&self) -> i32 {
        self.next
    }

    /// The identifier that follows `ident`: one more, wrapping around after
    /// `i32::MAX`.
    pub open spec fn successor(ident: i32) -> i32 {
        if ident == i32::MAX {
            i32::MIN
        } else {
            (ident + 1) as i32
        }
    }

    /// A fresh source of identifiers, whose first is
    /// [`NDK_GLUE_LOOPER_INPUT_QUEUE_IDENT`].
    pub fn new() -> (s: Self)
        ensures
            s.upcoming() == NDK_GLUE_LOOPER_INPUT_QUEUE_IDENT,
    {
        InputQueueIdents { next: NDK_GLUE_LOOPER_INPUT_QUEUE_IDENT }
    }

    /// Hands out the next identifier.
    pub fn next_ident(&mut self) -> (ident: i32)
        ensures
            ident == old(self).upcoming(),
            final(self).upcoming() == Self::successor(ident),
    {
        let ident = self.next;
        self.next = if ident == i32::MAX {
            i32::MIN
        } else {
            ident + 1
        };
        ident
    }
}

} // verus!
