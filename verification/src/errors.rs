use vstd::prelude::*;

verus! {

/// The error taxonomy of the runtime core.
///
/// `DuplicateUnit` and `UnknownPlugin` are surfaced synchronously to the
/// caller of the offending operation; `ShutdownTimeout` marks a unit that
/// had to be force-cancelled; `BusClosed` is reported to senders after the
/// outbound bus has shut down; the config errors mark a failed load or
/// flush and are recovered from locally.
#[derive(Clone, Copy, Debug, PartialEq, Eq, Structural)]
pub enum CoreError {
    DuplicateUnit,
    UnknownPlugin,
    ShutdownTimeout,
    BusClosed,
    ConfigIo,
    ConfigParse,
}

} // verus!
