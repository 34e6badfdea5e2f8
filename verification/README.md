# ndk-glue

Integration layer for Android `NativeActivity` launches
(`ANativeActivity_onCreate()`), with its decisions verified by Verus.

- `src/` is the verified library:
  - `activity.rs`: the registry of live activities (their windows, input
    queues and content rectangles), how Android's callbacks change it, and the
    identifiers under which input queues are registered with the looper;
  - `event.rs`: the lifecycle events and the byte that stands for each;
  - `wire.rs`: the messages on the event pipe (event byte, then the
    activity's address in little-endian order) and their decoding;
  - `rect.rs`: the content rectangle;
  - `logging.rs`: which Android log priority each log level is written with;
  - `laws.rs`: properties that relate several operations (round trips of
    messages and event bytes, attach/detach and register/remove undoing each
    other, lookups after changes).
- `app/` holds what talks to Android and the operating system: the
  process-wide locks, the event pipe, the looper thread and the
  `extern "C"` callbacks.
- `tests/` exercises the library on concrete values.
