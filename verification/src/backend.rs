//! The backend's decisions: what each command from the UI does, and how a
//! connection that ended is retried.
//!
//! The backend runs the connections; these functions decide what it does
//! and say it as values for it to carry out.
use vstd::prelude::*;
use vstd::arithmetic::power2::{lemma2_to64, lemma_pow2_adds, lemma_pow2_pos, lemma_pow2_strictly_increases, pow2};
use crate::irc::{append_ev, append_event};
use crate::model::{events_view, BackendCmd, IrcConfig, IrcConfigV, UiEvent, UiEventV};
use crate::text::{chars_of, dec, extend, extend_str, string_of, u64_dec};

verus! {

/// Longest gap between reconnection attempts. Attempts back off 1, 2, 4, 8,
/// 16 seconds and then hold here, which is roughly two attempts a minute --
/// persistent enough to recover unattended, sparse enough not to hammer a
/// server that is refusing us.
pub const MAX_RECONNECT_DELAY: u64 = 30;

/// The doubling exponent for attempt `attempt`: one less than the attempt,
/// at most 16.
pub open spec fn backoff_shift(attempt: u32) -> nat {
    if attempt == 0 {
        0
    } else if attempt - 1 > 16 {
        16
    } else {
        (attempt - 1) as nat
    }
}

/// Seconds to wait before attempt `attempt`: `2^(attempt-1)`, capped.
pub open spec fn spec_reconnect_delay(attempt: u32) -> u64 {
    let d = pow2(backoff_shift(attempt));
    if d < MAX_RECONNECT_DELAY {
        d as u64
    } else {
        MAX_RECONNECT_DELAY
    }
}

/// Seconds to wait before attempt `n`: 1, 2, 4, 8, 16, then held at the cap.
pub fn reconnect_delay(attempt: u32) -> (r: u64)
    ensures
        r == spec_reconnect_delay(attempt),
{
    let shift: u32 = if attempt == 0 {
        0
    } else if attempt - 1 > 16 {
        16
    } else {
        attempt - 1
    };
    proof {
        lemma2_to64();
        if shift < 16 {
            lemma_pow2_strictly_increases(shift as nat, 16);
        }
        assert(1 * pow2(shift as nat) <= u64::MAX);
        vstd::bits::lemma_u64_shl_is_mul(1, shift as u64);
    }
    let d: u64 = 1u64 << (shift as u64);
    if d < MAX_RECONNECT_DELAY {
        d
    } else {
        MAX_RECONNECT_DELAY
    }
}

/// Every delay is at least a second and at most the cap.
pub proof fn reconnect_delay_is_bounded(attempt: u32)
    ensures
        1 <= spec_reconnect_delay(attempt) <= MAX_RECONNECT_DELAY,
{
    lemma_pow2_pos(backoff_shift(attempt));
}

/// Backoff never shrinks: a later attempt waits at least as long.
pub proof fn reconnect_delay_is_monotone(a: u32, b: u32)
    requires
        a <= b,
    ensures
        spec_reconnect_delay(a) <= spec_reconnect_delay(b),
{
    if backoff_shift(a) < backoff_shift(b) {
        lemma_pow2_strictly_increases(backoff_shift(a), backoff_shift(b));
    }
}

/// Each failure doubles the wait until it reaches the cap.
pub proof fn reconnect_delay_doubles_to_the_cap(a: u32)
    requires
        1 <= a < u32::MAX,
    ensures
        spec_reconnect_delay((a + 1) as u32) == (if 2 * spec_reconnect_delay(a) < MAX_RECONNECT_DELAY {
            2 * spec_reconnect_delay(a)
        } else {
            MAX_RECONNECT_DELAY as int
        }),
{
    lemma2_to64();
    let s = backoff_shift(a);
    if a - 1 < 16 {
        lemma_pow2_adds(s, 1);
        assert(backoff_shift((a + 1) as u32) == s + 1);
        assert(pow2(s + 1) == pow2(s) * 2);
    } else {
        lemma_pow2_strictly_increases(5, 16);
    }
}

// ---------------------------------------------------------------------------
// After a connection ends
// ---------------------------------------------------------------------------

/// The next attempt of a connection that ended on its own.
pub struct Retry {
    /// The attempt number, counting from 1.
    pub attempt: u32,
    /// Seconds to wait before it.
    pub delay: u64,
    /// What to tell the UI.
    pub events: Vec<UiEvent>,
}

/// Why a connection ended: the error, or the server closing it.
pub open spec fn end_reason(failure: Option<Seq<char>>) -> Seq<char> {
    match failure {
        Some(e) => e,
        None => "connection closed by server"@,
    }
}

/// What the UI is told before attempt `attempt` after a wait of `delay`.
pub open spec fn retry_events(
    conn_id: u64,
    reason: Seq<char>,
    attempt: u32,
    delay: u64,
    ts: Seq<char>,
) -> Seq<UiEventV> {
    seq![
        UiEventV::ConnectionDown { conn_id, reason },
        append_ev(
            conn_id,
            "Status"@,
            ts + " *** "@ + reason + ". Reconnecting in "@ + dec(delay as nat) + "s (attempt "@ + dec(
                attempt as nat,
            ) + ")…"@,
            true,
            false,
        ),
    ]
}

/// What follows the end of a connection's run, after `attempt` earlier
/// retries: nothing if the user asked to disconnect, otherwise the next
/// attempt, its backoff and the events that report it (stamped `ts`).
pub fn after_run_at(
    conn_id: u64,
    attempt: u32,
    quit: bool,
    failure: Option<&str>,
    ts: &str,
) -> (r: Option<Retry>)
    requires
        attempt < u32::MAX,
    ensures
        quit <==> r is None,
        r matches Some(retry) ==> {
            let reason = end_reason(
                match failure {
                    Some(e) => Some(e@),
                    None => None,
                },
            );
            &&& retry.attempt == attempt + 1
            &&& retry.delay == spec_reconnect_delay(retry.attempt)
            &&& events_view(retry.events@) == retry_events(
                conn_id,
                reason,
                retry.attempt,
                retry.delay,
                ts@,
            )
        },
{
    if quit {
        return None;
    }
    let reason = match failure {
        Some(e) => chars_of(e),
        None => chars_of("connection closed by server"),
    };
    let next = attempt + 1;
    let delay = reconnect_delay(next);
    let mut line = chars_of(ts);
    extend_str(&mut line, " *** ");
    extend(&mut line, &reason);
    extend_str(&mut line, ". Reconnecting in ");
    extend(&mut line, &u64_dec(delay));
    extend_str(&mut line, "s (attempt ");
    extend(&mut line, &u64_dec(next as u64));
    extend_str(&mut line, ")…");
    let mut events: Vec<UiEvent> = Vec::new();
    events.push(UiEvent::ConnectionDown { conn_id, reason: string_of(&reason) });
    events.push(append_event(conn_id, &chars_of("Status"), &line, true, false));
    let ghost fail = match failure {
        Some(e) => Some(e@),
        None => None,
    };
    assert(events_view(events@) =~= retry_events(conn_id, end_reason(fail), next, delay, ts@));
    Some(Retry { attempt: next, delay, events })
}

// ---------------------------------------------------------------------------
// Commands from the UI
// ---------------------------------------------------------------------------

/// Something for the backend to do.
pub enum BackendAction {
    /// Create the connection's quit flag, unset.
    Watch { conn_id: u64 },
    /// Start the connection's run-and-retry loop.
    Start { conn_id: u64, cfg: IrcConfig },
    /// Set the connection's quit flag, so it is not retried.
    MarkQuit { conn_id: u64 },
    /// Hand a line to the live connection.
    Forward { conn_id: u64, line: String },
    /// Drop the live connection's handle, after what was handed to it.
    Forget { conn_id: u64 },
    /// Post an event to the UI.
    Post(UiEvent),
}

pub enum BackendActionV {
    Watch { conn_id: u64 },
    Start { conn_id: u64, cfg: IrcConfigV },
    MarkQuit { conn_id: u64 },
    Forward { conn_id: u64, line: Seq<char> },
    Forget { conn_id: u64 },
    Post(UiEventV),
}

impl View for BackendAction {
    type V = BackendActionV;

    open spec fn view(&self) -> BackendActionV {
        match self {
            BackendAction::Watch { conn_id } => BackendActionV::Watch { conn_id: *conn_id },
            BackendAction::Start { conn_id, cfg } => BackendActionV::Start { conn_id: *conn_id, cfg: cfg@ },
            BackendAction::MarkQuit { conn_id } => BackendActionV::MarkQuit { conn_id: *conn_id },
            BackendAction::Forward { conn_id, line } => BackendActionV::Forward {
                conn_id: *conn_id,
                line: line@,
            },
            BackendAction::Forget { conn_id } => BackendActionV::Forget { conn_id: *conn_id },
            BackendAction::Post(e) => BackendActionV::Post(e@),
        }
    }
}

pub open spec fn backend_actions_view(v: Seq<BackendAction>) -> Seq<BackendActionV> {
    v.map_values(|a: BackendAction| a@)
}

/// What the backend does for `cmd`, `live` telling whether the connection
/// it names has a live handle, with `ts` the current timestamp.
pub open spec fn spec_handle_cmd(cmd: BackendCmd, live: bool, ts: Seq<char>) -> Seq<BackendActionV> {
    match cmd {
        BackendCmd::Connect { conn_id, cfg } => seq![
            BackendActionV::Watch { conn_id },
            BackendActionV::Post(
                UiEventV::ConnectionUp {
                    conn_id,
                    server: cfg@.server,
                    nick: cfg@.nick,
                    initial_channel: cfg@.initial_channel,
                },
            ),
            BackendActionV::Start { conn_id, cfg: cfg@ },
        ],
        BackendCmd::SendRaw { conn_id, line } => if live {
            seq![BackendActionV::Forward { conn_id, line: line@ }]
        } else {
            seq![
                BackendActionV::Post(
                    append_ev(
                        conn_id,
                        "Status"@,
                        ts + " *** Not connected (conn_id="@ + dec(conn_id as nat) + ")."@,
                        true,
                        false,
                    ),
                ),
            ]
        },
        BackendCmd::Disconnect { conn_id, reason } => seq![BackendActionV::MarkQuit { conn_id }] + (if live {
            seq![
                BackendActionV::Forward { conn_id, line: "QUIT :"@ + reason@ },
                BackendActionV::Forget { conn_id },
            ]
        } else {
            seq![]
        }) + seq![BackendActionV::Post(UiEventV::ConnectionDown { conn_id, reason: reason@ })],
    }
}

/// Decides what the backend does for one command from the UI.
pub fn handle_cmd(cmd: BackendCmd, live: bool, ts: &str) -> (r: Vec<BackendAction>)
    ensures
        backend_actions_view(r@) == spec_handle_cmd(cmd, live, ts@),
{
    let ghost c = cmd;
    let mut r: Vec<BackendAction> = Vec::new();
    match cmd {
        BackendCmd::Connect { conn_id, cfg } => {
            r.push(BackendAction::Watch { conn_id });
            r.push(
                BackendAction::Post(
                    UiEvent::ConnectionUp {
                        conn_id,
                        server: cfg.server.clone(),
                        nick: cfg.nick.clone(),
                        initial_channel: cfg.initial_channel.clone(),
                    },
                ),
            );
            r.push(BackendAction::Start { conn_id, cfg });
        },
        BackendCmd::SendRaw { conn_id, line } => {
            if live {
                r.push(BackendAction::Forward { conn_id, line });
            } else {
                let mut l = chars_of(ts);
                extend_str(&mut l, " *** Not connected (conn_id=");
                extend(&mut l, &u64_dec(conn_id));
                extend_str(&mut l, ").");
                r.push(BackendAction::Post(append_event(conn_id, &chars_of("Status"), &l, true, false)));
            }
        },
        BackendCmd::Disconnect { conn_id, reason } => {
            r.push(BackendAction::MarkQuit { conn_id });
            if live {
                let mut q = chars_of("QUIT :");
                extend_str(&mut q, reason.as_str());
                r.push(BackendAction::Forward { conn_id, line: string_of(&q) });
                r.push(BackendAction::Forget { conn_id });
            }
            r.push(BackendAction::Post(UiEvent::ConnectionDown { conn_id, reason }));
        },
    }
    assert(backend_actions_view(r@) =~= spec_handle_cmd(c, live, ts@));
    r
}

/// An error from handling a command, for the global Status buffer.
pub fn backend_error_at(error: &str, ts: &str) -> (r: UiEvent)
    ensures
        r@ == append_ev(0, "Status"@, ts@ + " *** backend error: "@ + error@, true, false),
{
    let mut l = chars_of(ts);
    extend_str(&mut l, " *** backend error: ");
    extend_str(&mut l, error);
    append_event(0, &chars_of("Status"), &l, true, false)
}

/// A disconnect is never undone: the user's quit is recorded before the
/// connection is told to go, and a run that ends once quit is set is not
/// retried.
pub proof fn disconnect_marks_quit_first(conn_id: u64, reason: String, live: bool, ts: Seq<char>)
    ensures
        spec_handle_cmd((BackendCmd::Disconnect { conn_id, reason }), live, ts)[0] == (
        BackendActionV::MarkQuit { conn_id }),
{
}

} // verus!
