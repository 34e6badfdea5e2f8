//! Properties of the glue that relate several of its operations.

use vstd::prelude::*;
use crate::activity::{
    ActivityState, has_activity, has_input_queue, has_input_queue_ident, is_first_of_activity,
    is_first_of_input_queue_ident, swap_removed, InputQueueIdents,
};
use crate::event::{Event, EVENT_COUNT};
use crate::logging::{LogLevel, LogPriority, priority_of};
use crate::{NDK_GLUE_LOOPER_EVENT_PIPE_IDENT, NDK_GLUE_LOOPER_INPUT_QUEUE_IDENT};
use crate::wire::{
    le_bytes, le_value, lemma_le_bytes_digit, lemma_le_bytes_len, lemma_le_bytes_of_value,
    lemma_le_value_bound, lemma_le_value_digit, lemma_le_value_of_bytes, lemma_radix_pow_word,
    parse_wake_message, wake_message, word_size,
};
use vstd::arithmetic::power::pow;

verus! {

/// Every event survives the trip through its byte: the byte that stands for
/// an event reads back as that event.
pub proof fn law_event_byte_round_trip(e: Event)
    ensures
        Event::spec_from_code(e.code()) == Some(e),
{
    let c = choose|x: Event| x.code() == e.code();
    crate::event::lemma_code_injective(c, e);
}

/// Every byte below [`EVENT_COUNT`] stands for exactly one event, and that
/// event's byte is the byte itself; no other byte stands for an event.
pub proof fn law_event_bytes_cover(b: u8)
    ensures
        Event::spec_from_code(b) is Some <==> b < EVENT_COUNT,
        Event::spec_from_code(b) matches Some(e) ==> e.code() == b,
{
    if b < EVENT_COUNT {
        let e = match b {
            0 => Event::Start,
            1 => Event::Resume,
            2 => Event::SaveInstanceState,
            3 => Event::Pause,
            4 => Event::Stop,
            5 => Event::Destroy,
            6 => Event::ConfigChanged,
            7 => Event::LowMemory,
            8 => Event::WindowLostFocus,
            9 => Event::WindowHasFocus,
            10 => Event::WindowCreated,
            11 => Event::WindowResized,
            12 => Event::WindowRedrawNeeded,
            13 => Event::WindowDestroyed,
            14 => Event::InputQueueCreated,
            15 => Event::InputQueueDestroyed,
            _ => Event::ContentRectChanged,
        };
        assert(e.code() == b);
    }
}

/// What the looper thread reads from the event pipe is what the callback
/// wrote: a message that announces `event` for `activity` reads back as
/// exactly that activity and that event.
pub proof fn law_wake_message_round_trip(activity: usize, event: Event)
    ensures
        parse_wake_message(wake_message(activity, event)) == Some((activity, event)),
{
    lemma_radix_pow_word();
    lemma_le_value_of_bytes(activity as nat, word_size());
    law_event_byte_round_trip(event);
    let msg = wake_message(activity, event);
    assert(msg.drop_first() =~= le_bytes(activity as nat, word_size()));
}

/// Every message that reads as an activity and an event is the one message
/// that announces that event for that activity.
pub proof fn law_wake_message_canonical(msg: Seq<u8>)
    requires
        parse_wake_message(msg) is Some,
    ensures
        ({
            let (activity, event) = parse_wake_message(msg)->Some_0;
            wake_message(activity, event) == msg
        }),
{
    lemma_radix_pow_word();
    let rest = msg.drop_first();
    lemma_le_value_bound(rest);
    lemma_le_bytes_of_value(rest);
    law_event_bytes_cover(msg[0]);
    let (activity, event) = parse_wake_message(msg)->Some_0;
    assert(activity as nat == le_value(rest));
    assert(wake_message(activity, event) =~= msg);
}

/// Attaching a window to an activity that has none and then detaching it
/// gives back the activity's state as it was.
pub proof fn law_window_attach_detach(st: ActivityState, window: usize)
    requires
        st.root_window is None,
    ensures
        (ActivityState { root_window: None, ..(ActivityState { root_window: Some(window), ..st }) })
            == st,
{
}

/// Attaching an input queue to an activity that has none and then detaching
/// it gives back the activity's state as it was, and the identifier that the
/// queue was attached under.
pub proof fn law_input_queue_attach_detach(st: ActivityState, queue: usize, ident: i32)
    requires
        st.input_queue is None,
    ensures
        ({
            let attached = ActivityState { input_queue: Some((queue, ident)), ..st };
            &&& attached.input_queue matches Some((q, id)) && q == queue && id == ident
            &&& (ActivityState { input_queue: None, ..attached }) == st
        }),
{
}

/// Once an input queue is attached to an activity under an identifier that no
/// other activity's queue has, looking up that identifier finds that
/// activity's state; once the queue is detached again, the identifier is no
/// longer found.
pub proof fn law_input_queue_ident_lookup(
    s: Seq<ActivityState>,
    i: int,
    queue: usize,
    ident: i32,
)
    requires
        0 <= i < s.len(),
        s[i].input_queue is None,
        !has_input_queue(s, ident),
    ensures
        ({
            let attached = s.update(i, ActivityState { input_queue: Some((queue, ident)), ..s[i] });
            let detached = attached.update(
                i,
                ActivityState { input_queue: None, ..attached[i] },
            );
            &&& is_first_of_input_queue_ident(attached, ident, i)
            &&& !has_input_queue(detached, ident)
            &&& detached == s
        }),
{
    let attached = s.update(i, ActivityState { input_queue: Some((queue, ident)), ..s[i] });
    let detached = attached.update(i, ActivityState { input_queue: None, ..attached[i] });
    assert forall|j: int| 0 <= j < i implies !has_input_queue_ident(#[trigger] attached[j], ident) by {
        assert(attached[j] == s[j]);
    }
    assert(detached =~= s);
}

/// No two states in the registry belong to the same activity.
pub open spec fn unique_activities(s: Seq<ActivityState>) -> bool {
    forall|i: int, j: int|
        0 <= i < s.len() && 0 <= j < s.len() && i != j ==> #[trigger] s[i].activity
            != #[trigger] s[j].activity
}

/// A newly created activity is found in the registry, at the end, with the
/// state of a new activity, and registering it keeps the activities unique.
pub proof fn law_register_then_find(s: Seq<ActivityState>, activity: usize)
    requires
        !has_activity(s, activity),
    ensures
        is_first_of_activity(s.push(ActivityState::spec_new(activity)), activity, s.len() as int),
        s.push(ActivityState::spec_new(activity))[s.len() as int] == ActivityState::spec_new(
            activity,
        ),
        unique_activities(s) ==> unique_activities(s.push(ActivityState::spec_new(activity))),
{
    let t = s.push(ActivityState::spec_new(activity));
    assert forall|j: int| 0 <= j < s.len() implies t[j].activity != activity by {
        assert(t[j] == s[j]);
    }
}

/// Registering a newly created activity and then removing it gives back the
/// registry as it was.
pub proof fn law_register_then_remove(s: Seq<ActivityState>, activity: usize)
    requires
        !has_activity(s, activity),
    ensures
        is_first_of_activity(s.push(ActivityState::spec_new(activity)), activity, s.len() as int),
        swap_removed(s.push(ActivityState::spec_new(activity)), s.len() as int) == s,
{
    law_register_then_find(s, activity);
    assert(swap_removed(s.push(ActivityState::spec_new(activity)), s.len() as int) =~= s);
}

/// Removing an activity's state keeps every other state, and only those:
/// where the activities are unique, the removed activity is gone and the
/// others stay unique.
pub proof fn law_remove_keeps_others(s: Seq<ActivityState>, activity: usize, i: int)
    requires
        is_first_of_activity(s, activity, i),
    ensures
        swap_removed(s, i).len() == s.len() - 1,
        forall|j: int|
            0 <= j < s.len() && j != i ==> swap_removed(s, i).contains(#[trigger] s[j]),
        forall|k: int|
            0 <= k < swap_removed(s, i).len() ==> exists|j: int|
                0 <= j < s.len() && j != i && s[j] == #[trigger] swap_removed(s, i)[k],
        unique_activities(s) ==> !has_activity(swap_removed(s, i), activity),
        unique_activities(s) ==> unique_activities(swap_removed(s, i)),
{
    let r = swap_removed(s, i);
    let last = s.len() - 1;
    assert forall|j: int| 0 <= j < s.len() && j != i implies r.contains(#[trigger] s[j]) by {
        if j == last {
            assert(r[i] == s[j]);
        } else {
            assert(r[j] == s[j]);
        }
    }
    assert forall|k: int| 0 <= k < r.len() implies exists|j: int|
        0 <= j < s.len() && j != i && s[j] == #[trigger] r[k] by {
        if k == i {
            assert(s[last] == r[k]);
        } else {
            assert(s[k] == r[k]);
        }
    }
    if unique_activities(s) {
        assert forall|k: int| 0 <= k < r.len() implies r[k].activity != activity by {
            if k == i {
                assert(s[last].activity != s[i].activity);
            } else {
                assert(s[k].activity != s[i].activity);
            }
        }
        assert forall|a: int, b: int|
            0 <= a < r.len() && 0 <= b < r.len() && a != b implies #[trigger] r[a].activity
            != #[trigger] r[b].activity by {
            let sa = if a == i { last } else { a };
            let sb = if b == i { last } else { b };
            assert(r[a] == s[sa]);
            assert(r[b] == s[sb]);
        }
    }
}

/// The identifiers handed out one after the other never repeat from one call
/// to the next, and two different identifiers are followed by two different
/// identifiers.
pub proof fn law_successor_distinct(a: i32, b: i32)
    ensures
        InputQueueIdents::successor(a) != a,
        InputQueueIdents::successor(a) == InputQueueIdents::successor(b) ==> a == b,
{
}


/// The identifier under which the state's input queue is registered, if it
/// has one.
pub open spec fn queue_ident(st: ActivityState) -> Option<i32> {
    match st.input_queue {
        Some((_, id)) => Some(id),
        None => None,
    }
}

/// The registry `s` and the next identifier `upcoming` that the identifier
/// source hands out fit together: every registered input queue has an
/// identifier from `1` up to, but not including, `upcoming`, and no two
/// registered queues share an identifier.
pub open spec fn idents_consistent(s: Seq<ActivityState>, upcoming: i32) -> bool {
    &&& NDK_GLUE_LOOPER_INPUT_QUEUE_IDENT <= upcoming
    &&& forall|i: int|
        0 <= i < s.len() && (#[trigger] queue_ident(s[i])) is Some ==> NDK_GLUE_LOOPER_INPUT_QUEUE_IDENT
            <= queue_ident(s[i])->Some_0 < upcoming
    &&& forall|i: int, j: int|
        0 <= i < s.len() && 0 <= j < s.len() && i != j && (#[trigger] queue_ident(s[i])) is Some
            ==> #[trigger] queue_ident(s[j]) != queue_ident(s[i])
}

/// A registry without input queues fits a fresh identifier source.
pub proof fn law_idents_initial(s: Seq<ActivityState>)
    requires
        forall|i: int| 0 <= i < s.len() ==> (#[trigger] s[i]).input_queue is None,
    ensures
        idents_consistent(s, NDK_GLUE_LOOPER_INPUT_QUEUE_IDENT),
{
    assert forall|i: int| 0 <= i < s.len() implies (#[trigger] queue_ident(s[i])) is None by {
        assert(s[i].input_queue is None);
    }
}

/// While the registry and the identifier source fit together, the identifier
/// handed out next belongs to no registered queue, and no registered queue
/// has the event pipe's identifier.
pub proof fn law_idents_fresh(s: Seq<ActivityState>, upcoming: i32)
    requires
        idents_consistent(s, upcoming),
    ensures
        !has_input_queue(s, upcoming),
        forall|i: int|
            0 <= i < s.len() ==> !has_input_queue_ident(#[trigger] s[i], NDK_GLUE_LOOPER_EVENT_PIPE_IDENT),
{
    assert forall|i: int| 0 <= i < s.len() implies !has_input_queue_ident(#[trigger] s[i], upcoming)
        && !has_input_queue_ident(s[i], NDK_GLUE_LOOPER_EVENT_PIPE_IDENT) by {
        if s[i].input_queue is Some {
            assert(queue_ident(s[i]) is Some);
        }
    }
}

/// Attaching an input queue to an activity that has none, under the
/// identifier that the source hands out, keeps the registry and the source
/// fitting together (as long as the source has not reached `i32::MAX`), and
/// a lookup by that identifier then finds that activity's state.
pub proof fn law_idents_attach(s: Seq<ActivityState>, upcoming: i32, i: int, queue: usize)
    requires
        idents_consistent(s, upcoming),
        upcoming < i32::MAX,
        0 <= i < s.len(),
        s[i].input_queue is None,
    ensures
        ({
            let attached = s.update(i, ActivityState { input_queue: Some((queue, upcoming)), ..s[i] });
            &&& idents_consistent(attached, InputQueueIdents::successor(upcoming))
            &&& is_first_of_input_queue_ident(attached, upcoming, i)
        }),
{
    let attached = s.update(i, ActivityState { input_queue: Some((queue, upcoming)), ..s[i] });
    let next = InputQueueIdents::successor(upcoming);
    law_idents_fresh(s, upcoming);
    law_input_queue_ident_lookup(s, i, queue, upcoming);
    assert forall|k: int|
        0 <= k < attached.len() && (#[trigger] queue_ident(attached[k])) is Some implies NDK_GLUE_LOOPER_INPUT_QUEUE_IDENT
        <= queue_ident(attached[k])->Some_0 < next by {
        if k != i {
            assert(attached[k] == s[k]);
        }
    }
    assert forall|a: int, b: int|
        0 <= a < attached.len() && 0 <= b < attached.len() && a != b && (#[trigger] queue_ident(
            attached[a],
        )) is Some implies #[trigger] queue_ident(attached[b]) != queue_ident(attached[a]) by {
        if a == i {
            assert(attached[b] == s[b]);
            assert(!has_input_queue_ident(s[b], upcoming));
        } else if b == i {
            assert(attached[a] == s[a]);
        } else {
            assert(attached[a] == s[a]);
            assert(attached[b] == s[b]);
        }
    }
}

/// Registering a new activity, removing an activity, detaching an input
/// queue, and every change that leaves a state's input queue as it was
/// (windows, content rectangle) keep the registry and the identifier source
/// fitting together.
pub proof fn law_idents_preserved(s: Seq<ActivityState>, upcoming: i32, activity: usize, i: int, st: ActivityState)
    requires
        idents_consistent(s, upcoming),
        0 <= i < s.len(),
        st.input_queue == s[i].input_queue || st.input_queue is None,
    ensures
        idents_consistent(s.push(ActivityState::spec_new(activity)), upcoming),
        idents_consistent(swap_removed(s, i), upcoming),
        idents_consistent(s.update(i, st), upcoming),
{
    let p = s.push(ActivityState::spec_new(activity));
    assert forall|k: int| 0 <= k < p.len() && (#[trigger] queue_ident(p[k])) is Some implies NDK_GLUE_LOOPER_INPUT_QUEUE_IDENT
        <= queue_ident(p[k])->Some_0 < upcoming by {
        assert(p[k] == s[k]);
    }
    assert forall|a: int, b: int|
        0 <= a < p.len() && 0 <= b < p.len() && a != b && (#[trigger] queue_ident(p[a])) is Some implies #[trigger] queue_ident(p[b])
        != queue_ident(p[a]) by {
        assert(p[a] == s[a]);
        if b < s.len() {
            assert(p[b] == s[b]);
        }
    }
    let r = swap_removed(s, i);
    let last = s.len() - 1;
    assert forall|k: int| 0 <= k < r.len() && (#[trigger] queue_ident(r[k])) is Some implies NDK_GLUE_LOOPER_INPUT_QUEUE_IDENT
        <= queue_ident(r[k])->Some_0 < upcoming by {
        let sk = if k == i { last } else { k };
        assert(r[k] == s[sk]);
    }
    assert forall|a: int, b: int|
        0 <= a < r.len() && 0 <= b < r.len() && a != b && (#[trigger] queue_ident(r[a])) is Some implies #[trigger] queue_ident(r[b])
        != queue_ident(r[a]) by {
        let sa = if a == i { last } else { a };
        let sb = if b == i { last } else { b };
        assert(r[a] == s[sa]);
        assert(r[b] == s[sb]);
    }
    let u = s.update(i, st);
    assert forall|k: int| 0 <= k < u.len() && (#[trigger] queue_ident(u[k])) is Some implies NDK_GLUE_LOOPER_INPUT_QUEUE_IDENT
        <= queue_ident(u[k])->Some_0 < upcoming by {
        if k != i {
            assert(u[k] == s[k]);
        } else {
            assert(queue_ident(u[k]) == queue_ident(s[k]));
        }
    }
    assert forall|a: int, b: int|
        0 <= a < u.len() && 0 <= b < u.len() && a != b && (#[trigger] queue_ident(u[a])) is Some implies #[trigger] queue_ident(u[b])
        != queue_ident(u[a]) by {
        if a == i {
            assert(queue_ident(u[a]) == queue_ident(s[a]));
        } else {
            assert(u[a] == s[a]);
        }
        if b == i {
            assert(queue_ident(u[b]) == queue_ident(s[b]) || queue_ident(u[b]) is None);
        } else {
            assert(u[b] == s[b]);
        }
    }
}

/// The set of activities that have a state in the registry.
pub open spec fn activity_set(s: Seq<ActivityState>) -> Set<usize> {
    Set::new(|a: usize| has_activity(s, a))
}

/// Registering an activity that has no state adds exactly that activity to
/// the registered ones; removing one, where the activities are unique, takes
/// exactly that activity away.
pub proof fn law_registry_contents(s: Seq<ActivityState>, activity: usize, i: int)
    ensures
        !has_activity(s, activity) ==> activity_set(s.push(ActivityState::spec_new(activity)))
            == activity_set(s).insert(activity),
        unique_activities(s) && is_first_of_activity(s, activity, i) ==> activity_set(
            swap_removed(s, i),
        ) == activity_set(s).remove(activity),
{
    let p = s.push(ActivityState::spec_new(activity));
    assert forall|a: usize| (has_activity(s, a) || a == activity) implies has_activity(p, a) by {
        if a == activity {
            assert(p[s.len() as int].activity == a);
        } else {
            let j = choose|j: int| 0 <= j < s.len() && s[j].activity == a;
            assert(p[j] == s[j]);
        }
    }
    assert forall|a: usize| has_activity(p, a) implies (has_activity(s, a) || a == activity) by {
        let j = choose|j: int| 0 <= j < p.len() && p[j].activity == a;
        if j < s.len() {
            assert(p[j] == s[j]);
        }
    }
    assert(activity_set(p) =~= activity_set(s).insert(activity));
    if unique_activities(s) && is_first_of_activity(s, activity, i) {
        law_remove_keeps_others(s, activity, i);
        let r = swap_removed(s, i);
        assert forall|a: usize| has_activity(r, a) <==> (has_activity(s, a) && a != activity) by {
            if has_activity(r, a) {
                let k = choose|k: int| 0 <= k < r.len() && r[k].activity == a;
                let j = choose|j: int| 0 <= j < s.len() && j != i && s[j] == #[trigger] r[k];
            }
            if has_activity(s, a) && a != activity {
                let j = choose|j: int| 0 <= j < s.len() && s[j].activity == a;
                assert(j != i);
                assert(r.contains(s[j]));
                let k = choose|k: int| 0 <= k < r.len() && r[k] == s[j];
                assert(r[k].activity == a);
            }
        }
        assert(activity_set(r) =~= activity_set(s).remove(activity));
    }
}

/// A more severe log level is written with a strictly higher Android
/// priority, so distinct levels get distinct priorities.
pub proof fn law_priority_order(a: LogLevel, b: LogLevel)
    requires
        a.severity_rank() < b.severity_rank(),
    ensures
        priority_of(a).android_value() > priority_of(b).android_value(),
{
}


/// Each event's byte is its position in the declaration of [`Event`],
/// counting from zero: the byte that the event pipe carries for it.
pub proof fn law_event_codes_in_declaration_order()
    ensures
        Event::Start.code() == 0,
        Event::Resume.code() == 1,
        Event::SaveInstanceState.code() == 2,
        Event::Pause.code() == 3,
        Event::Stop.code() == 4,
        Event::Destroy.code() == 5,
        Event::ConfigChanged.code() == 6,
        Event::LowMemory.code() == 7,
        Event::WindowLostFocus.code() == 8,
        Event::WindowHasFocus.code() == 9,
        Event::WindowCreated.code() == 10,
        Event::WindowResized.code() == 11,
        Event::WindowRedrawNeeded.code() == 12,
        Event::WindowDestroyed.code() == 13,
        Event::InputQueueCreated.code() == 14,
        Event::InputQueueDestroyed.code() == 15,
        Event::ContentRectChanged.code() == 16,
{
}

/// A word is written least significant byte first: byte `k` of a word's
/// bytes is the word's digit `k` in base 256, and the number that a word's
/// bytes spell has byte `k` as its digit `k`.
pub proof fn law_le_digits(x: usize, s: Seq<u8>)
    ensures
        le_bytes(x as nat, word_size()).len() == word_size(),
        forall|k: int|
            0 <= k < word_size() ==> #[trigger] le_bytes(x as nat, word_size())[k] as int == (x as int
                / pow(256, k as nat)) % 256,
        s.len() == word_size() ==> forall|k: int|
            0 <= k < word_size() ==> (le_value(s) as int / pow(256, k as nat)) % 256
                == #[trigger] s[k] as int,
{
    lemma_le_bytes_len(x as nat, word_size());
    assert forall|k: int| 0 <= k < word_size() implies #[trigger] le_bytes(x as nat, word_size())[k]
        as int == (x as int / pow(256, k as nat)) % 256 by {
        lemma_le_bytes_digit(x as nat, word_size(), k as nat);
    }
    if s.len() == word_size() {
        assert forall|k: int| 0 <= k < word_size() implies (le_value(s) as int / pow(256, k as nat))
            % 256 == #[trigger] s[k] as int by {
            lemma_le_value_digit(s, k as nat);
        }
    }
}

/// The message for `event` and `activity` is the event's own byte followed by
/// the activity's address, least significant byte first.
pub proof fn law_wake_message_layout(activity: usize, event: Event)
    ensures
        wake_message(activity, event).len() == 1 + word_size(),
        wake_message(activity, event)[0] == event.code(),
        forall|k: int|
            0 <= k < word_size() ==> #[trigger] wake_message(activity, event)[k + 1] as int == (
            activity as int / pow(256, k as nat)) % 256,
{
    law_le_digits(activity, Seq::empty());
    let m = wake_message(activity, event);
    assert forall|k: int| 0 <= k < word_size() implies #[trigger] m[k + 1] == le_bytes(
        activity as nat,
        word_size(),
    )[k] by {}
}

/// A message reads as an activity and an event exactly when it has the length
/// of a message and its first byte is an event's byte; the event is then the
/// one whose byte is the first byte, and the address is the one whose bytes,
/// least significant first, are the rest.
pub proof fn law_parse_reads_fields(msg: Seq<u8>)
    ensures
        parse_wake_message(msg) is Some <==> msg.len() == 1 + word_size() && msg[0] < EVENT_COUNT,
        parse_wake_message(msg) matches Some((activity, event)) ==> {
            &&& event.code() == msg[0]
            &&& forall|k: int|
                0 <= k < word_size() ==> (activity as int / pow(256, k as nat)) % 256
                    == #[trigger] msg[k + 1] as int
        },
{
    if msg.len() == 1 + word_size() && msg[0] < EVENT_COUNT {
        law_event_bytes_cover(msg[0]);
        let rest = msg.drop_first();
        lemma_radix_pow_word();
        lemma_le_value_bound(rest);
        law_le_digits(0, rest);
        assert forall|k: int| 0 <= k < word_size() implies (le_value(rest) as usize as int / pow(
            256,
            k as nat,
        )) % 256 == #[trigger] msg[k + 1] as int by {
            assert(rest[k] == msg[k + 1]);
        }
    }
}

/// A state matches an input-queue identifier exactly when it has an input
/// queue and that queue is registered under that very identifier.
pub proof fn law_input_queue_ident_match(st: ActivityState, ident: i32)
    ensures
        has_input_queue_ident(st, ident) <==> (st.input_queue is Some && st.input_queue->Some_0.1
            == ident),
{
}

} // verus!
