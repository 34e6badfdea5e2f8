//! Verified core of the Android `NativeActivity` glue: the registry of live
//! activities, the content rectangle, the lifecycle events and the byte
//! messages that carry them from Android's callbacks to the application's
//! looper thread.

use vstd::prelude::*;

pub mod activity;
pub mod event;
pub mod laws;
pub mod logging;
pub mod rect;
pub mod wire;

verus! {

/// The glue registers the reading end of its event pipe with the main looper
/// under this identifier.
pub const NDK_GLUE_LOOPER_EVENT_PIPE_IDENT: i32 = 0;

/// The first identifier under which an input queue is registered with the
/// main looper; later queues get the following identifiers.
pub const NDK_GLUE_LOOPER_INPUT_QUEUE_IDENT: i32 = 1;

} // verus!
