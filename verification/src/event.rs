//! The lifecycle events that Android reports for an activity, and the byte
//! that stands for each one on the event pipe.

use vstd::prelude::*;

verus! {

/// Something that happened to an activity, as reported by one of Android's
/// `NativeActivity` callbacks.
#[derive(Clone, Copy, Debug, PartialEq, Eq, Structural)]
pub enum Event {
    Start,
    Resume,
    SaveInstanceState,
    Pause,
    Stop,
    /// The native activity will be stopped and destroyed after this event.
    /// Due to the async nature of these events, make sure to hold on to the
    /// activity's lock _beforehand_ if you wish to use it during handling of
    /// [`Event::Destroy`]. The lock should be released to allow `onDestroy`
    /// to return.
    Destroy,
    ConfigChanged,
    LowMemory,
    WindowLostFocus,
    WindowHasFocus,
    /// A native window is now available through the activity's state. Be sure
    /// to release any resources (e.g. Vulkan/OpenGL graphics surfaces) created
    /// from it, followed by releasing its lock, upon receiving
    /// [`Event::WindowDestroyed`].
    WindowCreated,
    WindowResized,
    WindowRedrawNeeded,
    /// If the window is in use by e.g. a graphics API, make sure its lock is
    /// held on to until after freeing those resources. After this event the
    /// glue blocks inside the window's destructor until that lock is released,
    /// and from then on the activity has no window until
    /// [`Event::WindowCreated`] comes again.
    WindowDestroyed,
    /// An input queue is now available through the activity's state. Be sure
    /// to release its lock upon receiving [`Event::InputQueueDestroyed`].
    InputQueueCreated,
    /// After this event the glue blocks inside the input queue's destructor
    /// until its lock is released, and from then on the activity has no input
    /// queue until [`Event::InputQueueCreated`] comes again.
    InputQueueDestroyed,
    ContentRectChanged,
}

/// How many distinct events there are; their codes are `0..EVENT_COUNT`.
pub const EVENT_COUNT: u8 = 17;

impl Event {
    /// The byte that stands for this event on the event pipe: its position in
    /// the declaration of [`Event`], counting from zero.
    pub open spec fn code(self) -> u8 {
        match self {
            Event::Start => 0,
            Event::Resume => 1,
            Event::SaveInstanceState => 2,
            Event::Pause => 3,
            Event::Stop => 4,
            Event::Destroy => 5,
            Event::ConfigChanged => 6,
            Event::LowMemory => 7,
            Event::WindowLostFocus => 8,
            Event::WindowHasFocus => 9,
            Event::WindowCreated => 10,
            Event::WindowResized => 11,
            Event::WindowRedrawNeeded => 12,
            Event::WindowDestroyed => 13,
            Event::InputQueueCreated => 14,
            Event::InputQueueDestroyed => 15,
            Event::ContentRectChanged => 16,
        }
    }

    /// The event whose code is `b`, if there is one.
    pub open spec fn spec_from_code(b: u8) -> Option<Event> {
        if b < EVENT_COUNT {
            Some(choose|e: Event| e.code() == b)
        } else {
            None
        }
    }

    /// The byte that stands for this event on the event pipe.
    pub fn to_byte(&self) -> (b: u8)
        ensures
            b == self.code(),
            b < EVENT_COUNT,
    {
        match self {
            Event::Start => 0,
            Event::Resume => 1,
            Event::SaveInstanceState => 2,
            Event::Pause => 3,
            Event::Stop => 4,
            Event::Destroy => 5,
            Event::ConfigChanged => 6,
            Event::LowMemory => 7,
            Event::WindowLostFocus => 8,
            Event::WindowHasFocus => 9,
            Event::WindowCreated => 10,
            Event::WindowResized => 11,
            Event::WindowRedrawNeeded => 12,
            Event::WindowDestroyed => 13,
            Event::InputQueueCreated => 14,
            Event::InputQueueDestroyed => 15,
            Event::ContentRectChanged => 16,
        }
    }

    /// The event that the byte `b` stands for; `None` where `b` is no event's
    /// code.
    pub fn from_byte(b: u8) -> (r: Option<Event>)
        ensures
            r is None <==> b >= EVENT_COUNT,
            r matches Some(e) ==> e.code() == b,
            r == Self::spec_from_code(b),
    {
        let r = match b {
            0 => Some(Event::Start),
            1 => Some(Event::Resume),
            2 => Some(Event::SaveInstanceState),
            3 => Some(Event::Pause),
            4 => Some(Event::Stop),
            5 => Some(Event::Destroy),
            6 => Some(Event::ConfigChanged),
            7 => Some(Event::LowMemory),
            8 => Some(Event::WindowLostFocus),
            9 => Some(Event::WindowHasFocus),
            10 => Some(Event::WindowCreated),
            11 => Some(Event::WindowResized),
            12 => Some(Event::WindowRedrawNeeded),
            13 => Some(Event::WindowDestroyed),
            14 => Some(Event::InputQueueCreated),
            15 => Some(Event::InputQueueDestroyed),
            16 => Some(Event::ContentRectChanged),
            _ => None,
        };
        proof {
            if let Some(e) = r {
                lemma_code_injective(e, choose|x: Event| x.code() == b);
            }
        }
        r
    }

    /// The event that Android's window-focus callback reports: the window lost
    /// focus where `has_focus` is zero, and has it otherwise.
    pub fn focus_changed(has_focus: i32) -> (e: Event)
        ensures
            e == (if has_focus == 0 { Event::WindowLostFocus } else { Event::WindowHasFocus }),
    {
        if has_focus == 0 {
            Event::WindowLostFocus
        } else {
            Event::WindowHasFocus
        }
    }
}

/// Two events with the same code are the same event.
pub proof fn lemma_code_injective(a: Event, b: Event)
    requires
        a.code() == b.code(),
    ensures
        a == b,
{
}

} // verus!
