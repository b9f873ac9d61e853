use vstd::prelude::*;

verus! {

/// Where a live viewer connection stands.
#[derive(Clone, Copy, Debug, PartialEq, Eq, Structural)]
pub enum ViewerPhase {
    /// A snapshot is on its way to the peer.
    Sending,
    /// The connection waits for the next published tally.
    Waiting,
    /// The connection has ended and holds no subscription.
    Closed,
}

/// What happened to a live viewer connection.
#[derive(Clone, Copy, Debug, PartialEq, Eq, Structural)]
pub enum ViewerEvent {
    /// The snapshot reached the peer.
    Sent,
    /// The peer could not be reached.
    SendFailed,
    /// A new tally was published.
    Changed,
    /// No tally will be published any more.
    HubClosed,
}

/// What a live viewer connection does next.
#[derive(Clone, Copy, Debug, PartialEq, Eq, Structural)]
pub enum ViewerAction {
    /// Send the latest published tally, whichever it is by then.
    SendLatest,
    /// Wait for the next change of the published tally.
    AwaitChange,
    /// End the connection and release its subscription.
    Stop,
}

/// A connection that has just been accepted sends the current tally at once,
/// so that a new viewer does not wait for the next vote.
pub fn viewer_opened() -> (r: (ViewerPhase, ViewerAction))
    ensures
        r == (ViewerPhase::Sending, ViewerAction::SendLatest),
{
    (ViewerPhase::Sending, ViewerAction::SendLatest)
}

/// The next phase and action of a live viewer connection. A failed send ends
/// it, and so does a hub that publishes no more. A change sends the latest
/// tally, so intermediate ones may be skipped; a change that comes while a send
/// is in flight is answered with one more send, so the viewer never stays on a
/// tally older than the last one published.
pub fn viewer_step(phase: ViewerPhase, event: ViewerEvent) -> (r: (ViewerPhase, ViewerAction))
    ensures
        phase == ViewerPhase::Closed ==> r == (ViewerPhase::Closed, ViewerAction::Stop),
        phase != ViewerPhase::Closed && (event == ViewerEvent::SendFailed || event
            == ViewerEvent::HubClosed) ==> r == (ViewerPhase::Closed, ViewerAction::Stop),
        phase != ViewerPhase::Closed && event == ViewerEvent::Sent ==> r == (
            ViewerPhase::Waiting,
            ViewerAction::AwaitChange,
        ),
        phase == ViewerPhase::Waiting && event == ViewerEvent::Changed ==> r == (
            ViewerPhase::Sending,
            ViewerAction::SendLatest,
        ),
        phase == ViewerPhase::Sending && event == ViewerEvent::Changed ==> r == (
            ViewerPhase::Sending,
            ViewerAction::SendLatest,
        ),
{
    match phase {
        ViewerPhase::Closed => (ViewerPhase::Closed, ViewerAction::Stop),
        _ => match event {
            ViewerEvent::SendFailed => (ViewerPhase::Closed, ViewerAction::Stop),
            ViewerEvent::HubClosed => (ViewerPhase::Closed, ViewerAction::Stop),
            ViewerEvent::Sent => (ViewerPhase::Waiting, ViewerAction::AwaitChange),
            ViewerEvent::Changed => (ViewerPhase::Sending, ViewerAction::SendLatest),
        },
    }
}

} // verus!
