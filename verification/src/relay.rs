//! The relay engine's connection lifecycle and the streaming endpoint.
//!
//! The engine runs for the process lifetime: it polls for missed messages,
//! opens the stream, reads frames until the connection closes (an idle-read
//! timeout and a broken stream look alike and are treated alike), waits a
//! fixed delay, and starts over with the poll. The loop that performs the
//! waiting and the I/O feeds every observation back in as a [`RelayEvent`]
//! and performs the [`RelayWork`] the current phase asks for.

use vstd::prelude::*;
use vstd::string::{StrSliceExecFns, StringExecFns};
use crate::LoginFile;
use crate::text::str_starts_with;

verus! {

/// Fixed delay before reconnecting after a failed or closed connection, in
/// seconds.
pub const RECONNECT_DELAY_SECS: u64 = 10;

/// Idle-read timeout on the stream, in seconds: with no frame for this long
/// the connection counts as dead and is closed.
pub const IDLE_TIMEOUT_SECS: u64 = 50;

/// Interval between reconciliation ticks, in seconds.
pub const RECONCILE_INTERVAL_SECS: u64 = 120;

/// Where the relay engine stands in its connection lifecycle.
pub enum RelayPhase {
    /// Running the catch-up poll, on startup and before every (re)connect.
    CatchUp,
    /// Opening the stream connection.
    Connecting,
    /// Holding the open stream and processing frames.
    Streaming,
    /// Waiting the fixed delay after a failed or closed connection.
    Backoff,
}

/// What the loop observed while doing the current phase's work.
pub enum RelayEvent {
    /// The catch-up poll ran.
    PollFinished,
    /// The stream connection opened.
    Connected,
    /// The stream connection could not be opened.
    ConnectFailed,
    /// A frame arrived and was processed.
    FrameReceived,
    /// The stream closed, by idle-read timeout or by error; the two are not
    /// distinguishable and are treated alike.
    StreamClosed,
    /// The backoff delay elapsed.
    Waited,
}

/// What the loop must do in a phase.
pub enum RelayWork {
    /// Fetch pending messages and run the catch-up poll over them.
    RunCatchUp,
    /// Open the stream connection.
    OpenStream,
    /// Await the next frame, bounded by the idle-read timeout.
    ReadFrame,
    /// Sleep for the reconnect delay.
    Wait,
}

/// The connection lifecycle: poll, connect, stream until the connection
/// closes, back off, and poll again. An event that cannot arise in a phase
/// changes nothing.
pub open spec fn relay_transition(phase: RelayPhase, event: RelayEvent) -> RelayPhase {
    match (phase, event) {
        (RelayPhase::CatchUp, RelayEvent::PollFinished) => RelayPhase::Connecting,
        (RelayPhase::Connecting, RelayEvent::Connected) => RelayPhase::Streaming,
        (RelayPhase::Connecting, RelayEvent::ConnectFailed) => RelayPhase::Backoff,
        (RelayPhase::Streaming, RelayEvent::FrameReceived) => RelayPhase::Streaming,
        (RelayPhase::Streaming, RelayEvent::StreamClosed) => RelayPhase::Backoff,
        (RelayPhase::Backoff, RelayEvent::Waited) => RelayPhase::CatchUp,
        _ => phase,
    }
}

/// The phase the engine starts in: the catch-up poll runs before the first
/// connection attempt.
pub fn relay_initial() -> (r: RelayPhase)
    ensures
        r is CatchUp,
{
    RelayPhase::CatchUp
}

/// Advance the lifecycle by one observed event.
pub fn relay_step(phase: &RelayPhase, event: &RelayEvent) -> (next: RelayPhase)
    ensures
        next == relay_transition(*phase, *event),
{
    match (phase, event) {
        (RelayPhase::CatchUp, RelayEvent::PollFinished) => RelayPhase::Connecting,
        (RelayPhase::Connecting, RelayEvent::Connected) => RelayPhase::Streaming,
        (RelayPhase::Connecting, RelayEvent::ConnectFailed) => RelayPhase::Backoff,
        (RelayPhase::Streaming, RelayEvent::FrameReceived) => RelayPhase::Streaming,
        (RelayPhase::Streaming, RelayEvent::StreamClosed) => RelayPhase::Backoff,
        (RelayPhase::Backoff, RelayEvent::Waited) => RelayPhase::CatchUp,
        (RelayPhase::CatchUp, _) => RelayPhase::CatchUp,
        (RelayPhase::Connecting, _) => RelayPhase::Connecting,
        (RelayPhase::Streaming, _) => RelayPhase::Streaming,
        (RelayPhase::Backoff, _) => RelayPhase::Backoff,
    }
}

/// The work each phase asks of the loop.
pub fn relay_work(phase: &RelayPhase) -> (w: RelayWork)
    ensures
        match phase {
            RelayPhase::CatchUp => w is RunCatchUp,
            RelayPhase::Connecting => w is OpenStream,
            RelayPhase::Streaming => w is ReadFrame,
            RelayPhase::Backoff => w is Wait,
        },
{
    match phase {
        RelayPhase::CatchUp => RelayWork::RunCatchUp,
        RelayPhase::Connecting => RelayWork::OpenStream,
        RelayPhase::Streaming => RelayWork::ReadFrame,
        RelayPhase::Backoff => RelayWork::Wait,
    }
}

/// The streaming endpoint derived from the base URL: the scheme upgraded
/// (`http` to `ws`, `https` to `wss`), the path `/stream`, and the device
/// token as query parameter. Any other scheme is refused.
pub open spec fn stream_url_of(base: Seq<char>, device_token: Seq<char>) -> Option<Seq<char>> {
    if base.len() >= "https://"@.len() && base.subrange(0, "https://"@.len() as int)
        == "https://"@ {
        Some("wss://"@ + base.skip("https://"@.len() as int) + "/stream?token="@ + device_token)
    } else if base.len() >= "http://"@.len() && base.subrange(0, "http://"@.len() as int)
        == "http://"@ {
        Some("ws://"@ + base.skip("http://"@.len() as int) + "/stream?token="@ + device_token)
    } else {
        None
    }
}

/// Build the streaming endpoint URL for the configured server and device
/// token; a base URL that is neither `http` nor `https` yields nothing.
pub fn websocket_url(login: &LoginFile) -> (r: Option<String>)
    ensures
        match r {
            Some(url) => stream_url_of(login.gotify_base_url@, login.gotify_device_token@) == Some(
                url@,
            ),
            None => stream_url_of(login.gotify_base_url@, login.gotify_device_token@) is None,
        },
{
    let base = login.gotify_base_url.as_str();
    let n = base.unicode_len();
    if str_starts_with(base, "https://") {
        proof {
            reveal_strlit("https://");
        }
        let rest = base.substring_char(8, n);
        let mut url = String::from_str("wss://");
        url.append(rest);
        url.append("/stream?token=");
        url.append(login.gotify_device_token.as_str());
        proof {
            assert(url@ =~= stream_url_of(
                login.gotify_base_url@,
                login.gotify_device_token@,
            ).unwrap());
        }
        Some(url)
    } else if str_starts_with(base, "http://") {
        proof {
            reveal_strlit("http://");
        }
        let rest = base.substring_char(7, n);
        let mut url = String::from_str("ws://");
        url.append(rest);
        url.append("/stream?token=");
        url.append(login.gotify_device_token.as_str());
        proof {
            assert(url@ =~= stream_url_of(
                login.gotify_base_url@,
                login.gotify_device_token@,
            ).unwrap());
        }
        Some(url)
    } else {
        None
    }
}

} // verus!
