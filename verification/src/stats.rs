//! Server statistics and the health verdict.

use vstd::prelude::*;
use vstd::string::*;
use crate::text::{push_char, spec_nat_str, u128_to_string};

verus! {

/// A snapshot of the server's lifetime counters.
#[derive(Debug, Clone, Copy, PartialEq, Eq, Structural)]
pub struct ServerStats {
    /// Connections accepted over the server's lifetime.
    pub total_connections: usize,
    /// Connections currently open.
    pub active_connections: usize,
    /// Messages successfully framed.
    pub total_messages: usize,
    /// How many operations failed, of whatever kind.
    pub total_errors: usize,
}

/// The counters as unbounded numbers, for stating laws about histories of
/// updates.
pub struct StatsModel {
    /// Connections accepted.
    pub total: nat,
    /// Connections currently open.
    pub active: nat,
    /// Messages framed.
    pub messages: nat,
    /// Errors counted.
    pub errors: nat,
}

/// One bookkeeping event a connection handler reports.
pub enum StatsEvent {
    /// A connection was accepted.
    Opened,
    /// A connection finished, however it ended.
    Closed,
    /// A message was framed.
    Message,
    /// An error occurred.
    Error,
}

/// How one event changes the counters. A close of an already-zero active
/// count leaves it at zero; the laws below show that in any history where
/// every close matches an earlier open, this case never arises.
pub open spec fn spec_step(s: StatsModel, e: StatsEvent) -> StatsModel {
    match e {
        StatsEvent::Opened => StatsModel {
            total: s.total + 1,
            active: s.active + 1,
            ..s
        },
        StatsEvent::Closed => StatsModel {
            active: if s.active > 0 {
                (s.active - 1) as nat
            } else {
                0
            },
            ..s
        },
        StatsEvent::Message => StatsModel { messages: s.messages + 1, ..s },
        StatsEvent::Error => StatsModel { errors: s.errors + 1, ..s },
    }
}

/// The counters after a history of events.
pub open spec fn spec_run(s: StatsModel, events: Seq<StatsEvent>) -> StatsModel
    decreases events.len(),
{
    if events.len() == 0 {
        s
    } else {
        spec_step(spec_run(s, events.drop_last()), events.last())
    }
}

/// How many events of a history opened a connection.
pub open spec fn count_opened(events: Seq<StatsEvent>) -> nat
    decreases events.len(),
{
    if events.len() == 0 {
        0
    } else {
        count_opened(events.drop_last()) + (if events.last() is Opened {
            1nat
        } else {
            0nat
        })
    }
}

/// How many events of a history closed a connection.
pub open spec fn count_closed(events: Seq<StatsEvent>) -> nat
    decreases events.len(),
{
    if events.len() == 0 {
        0
    } else {
        count_closed(events.drop_last()) + (if events.last() is Closed {
            1nat
        } else {
            0nat
        })
    }
}

/// A history is balanced when no prefix closes more connections than it has
/// opened: every close matches an earlier open.
pub open spec fn balanced_history(events: Seq<StatsEvent>) -> bool {
    forall|k: int|
        0 <= k <= events.len() ==> #[trigger] count_closed(events.take(k)) <= count_opened(
            events.take(k),
        )
}

/// Law: in any balanced history starting from fresh counters, the active
/// count is exactly opens minus closes — it never goes negative, never
/// saturates — and the total is exactly the number of opens.
pub proof fn lemma_stats_balance(s0: StatsModel, events: Seq<StatsEvent>)
    requires
        s0.active == 0,
        s0.total == 0,
        balanced_history(events),
    ensures
        spec_run(s0, events).active == count_opened(events) - count_closed(events),
        spec_run(s0, events).total == count_opened(events),
    decreases events.len(),
{
    assert(events.take(events.len() as int) =~= events);
    if events.len() == 0 {
    } else {
        let pre = events.drop_last();
        assert forall|k: int| 0 <= k <= pre.len() implies #[trigger] count_closed(pre.take(k))
            <= count_opened(pre.take(k)) by {
            assert(pre.take(k) =~= events.take(k));
            assert(count_closed(events.take(k)) <= count_opened(events.take(k)));
        }
        lemma_stats_balance(s0, pre);
        assert(pre =~= events.take(events.len() - 1));
        assert(count_closed(pre) <= count_opened(pre));
    }
}

/// Law: after a balanced history in which every opened connection has also
/// closed, the active count is zero and the total equals the number of
/// connections accepted.
pub proof fn lemma_all_connections_drained(s0: StatsModel, events: Seq<StatsEvent>)
    requires
        s0.active == 0,
        s0.total == 0,
        balanced_history(events),
        count_closed(events) == count_opened(events),
    ensures
        spec_run(s0, events).active == 0,
        spec_run(s0, events).total == count_opened(events),
{
    lemma_stats_balance(s0, events);
}

/// The health verdict for a statistics snapshot.
#[derive(Debug, Clone)]
pub enum HealthStatus {
    /// Error rate within bounds and connection count moderate.
    Healthy,
    /// Running, but under a heavy connection load.
    Degraded { reason: String },
    /// Too large a share of handled messages failed.
    Unhealthy { reason: String },
}

/// Two decimal digits, zero-padded on the left.
pub open spec fn spec_two_digits(n: nat) -> Seq<char> {
    if n < 10 {
        seq!['0'] + spec_nat_str(n)
    } else {
        spec_nat_str(n)
    }
}

/// The error rate as a percentage with two decimals, rounded down.
pub open spec fn spec_percent_text(errors: nat, messages: nat) -> Seq<char> {
    let p = errors * 10000 / messages;
    spec_nat_str(p / 100) + seq!['.'] + spec_two_digits(p % 100)
}

/// The reason text of an unhealthy verdict.
pub open spec fn spec_unhealthy_reason(errors: nat, messages: nat) -> Seq<char> {
    "error rate too high: "@ + spec_percent_text(errors, messages) + seq!['%']
}

/// The reason text of a degraded verdict.
pub open spec fn spec_degraded_reason(active: nat) -> Seq<char> {
    "too many active connections: "@ + spec_nat_str(active)
}

impl ServerStats {
    /// The counters as unbounded numbers.
    pub open spec fn model(self) -> StatsModel {
        StatsModel {
            total: self.total_connections as nat,
            active: self.active_connections as nat,
            messages: self.total_messages as nat,
            errors: self.total_errors as nat,
        }
    }

    /// Fresh counters, all zero.
    pub fn new() -> (r: ServerStats)
        ensures
            r.total_connections == 0,
            r.active_connections == 0,
            r.total_messages == 0,
            r.total_errors == 0,
    {
        ServerStats {
            total_connections: 0,
            active_connections: 0,
            total_messages: 0,
            total_errors: 0,
        }
    }

    /// A connection was accepted: the total and active counts both rise by
    /// one.
    pub fn record_connection_opened(&mut self)
        requires
            old(self).total_connections < usize::MAX,
            old(self).active_connections < usize::MAX,
        ensures
            final(self).model() == spec_step(old(self).model(), StatsEvent::Opened),
            final(self).total_connections == old(self).total_connections + 1,
            final(self).active_connections == old(self).active_connections + 1,
            final(self).total_messages == old(self).total_messages,
            final(self).total_errors == old(self).total_errors,
    {
        self.total_connections = self.total_connections + 1;
        self.active_connections = self.active_connections + 1;
    }

    /// A connection finished, however it ended: the active count falls by
    /// one, exactly once per accepted connection.
    pub fn record_connection_closed(&mut self)
        requires
            old(self).active_connections > 0,
        ensures
            final(self).model() == spec_step(old(self).model(), StatsEvent::Closed),
            final(self).active_connections == old(self).active_connections - 1,
            final(self).total_connections == old(self).total_connections,
            final(self).total_messages == old(self).total_messages,
            final(self).total_errors == old(self).total_errors,
    {
        self.active_connections = self.active_connections - 1;
    }

    /// A message was framed.
    pub fn record_message(&mut self)
        requires
            old(self).total_messages < usize::MAX,
        ensures
            final(self).model() == spec_step(old(self).model(), StatsEvent::Message),
            final(self).total_messages == old(self).total_messages + 1,
            final(self).total_connections == old(self).total_connections,
            final(self).active_connections == old(self).active_connections,
            final(self).total_errors == old(self).total_errors,
    {
        self.total_messages = self.total_messages + 1;
    }

    /// Some operation failed and the failure is counted.
    pub fn record_error(&mut self)
        requires
            old(self).total_errors < usize::MAX,
        ensures
            final(self).model() == spec_step(old(self).model(), StatsEvent::Error),
            final(self).total_errors == old(self).total_errors + 1,
            final(self).total_connections == old(self).total_connections,
            final(self).active_connections == old(self).active_connections,
            final(self).total_messages == old(self).total_messages,
    {
        self.total_errors = self.total_errors + 1;
    }

    /// The health verdict for this snapshot: unhealthy when more than a
    /// tenth of the handled messages failed (none handled counts as a rate
    /// of zero), else degraded when over 1000 connections are open, else
    /// healthy. It only reports; nothing here acts on it.
    pub fn health_check(&self) -> (r: HealthStatus)
        ensures
            self.total_messages > 0 && 10 * self.total_errors as int > self.total_messages as int
                ==> (r matches HealthStatus::Unhealthy { reason } && reason@
                == spec_unhealthy_reason(self.total_errors as nat, self.total_messages as nat)),
            !(self.total_messages > 0 && 10 * self.total_errors as int > self.total_messages as int)
                && self.active_connections > 1000 ==> (r matches HealthStatus::Degraded { reason }
                && reason@ == spec_degraded_reason(self.active_connections as nat)),
            !(self.total_messages > 0 && 10 * self.total_errors as int > self.total_messages as int)
                && self.active_connections <= 1000 ==> r is Healthy,
    {
        let errors: u128 = self.total_errors as u128;
        let messages: u128 = self.total_messages as u128;
        if messages > 0 && errors * 10 > messages {
            let p: u128 = errors * 10000 / messages;
            let whole: u128 = p / 100;
            let frac: u128 = p % 100;
            proof {
                let e = self.total_errors as nat;
                let m = self.total_messages as nat;
                assert(errors as nat == e);
                assert(messages as nat == m);
                assert(p as nat == e * 10000 / m);
                assert(whole as nat == (e * 10000 / m) / 100);
                assert(frac as nat == (e * 10000 / m) % 100);
            }
            let mut reason = String::from_str("error rate too high: ");
            let whole_text = u128_to_string(whole);
            reason.append(whole_text.as_str());
            push_char(&mut reason, '.');
            proof {
                assert(reason@ =~= "error rate too high: "@ + spec_nat_str(whole as nat)
                    + seq!['.']);
            }
            if frac < 10 {
                push_char(&mut reason, '0');
            }
            let frac_text = u128_to_string(frac);
            reason.append(frac_text.as_str());
            proof {
                assert(reason@ =~= "error rate too high: "@ + spec_nat_str(whole as nat)
                    + seq!['.'] + spec_two_digits(frac as nat));
                assert(spec_percent_text(self.total_errors as nat, self.total_messages as nat)
                    == spec_nat_str(whole as nat) + seq!['.'] + spec_two_digits(frac as nat));
            }
            push_char(&mut reason, '%');
            proof {
                assert(reason@ =~= spec_unhealthy_reason(
                    self.total_errors as nat,
                    self.total_messages as nat,
                ));
            }
            HealthStatus::Unhealthy { reason }
        } else if self.active_connections > 1000 {
            let mut reason = String::from_str("too many active connections: ");
            let count_text = u128_to_string(self.active_connections as u128);
            reason.append(count_text.as_str());
            proof {
                assert(reason@ =~= spec_degraded_reason(self.active_connections as nat));
            }
            HealthStatus::Degraded { reason }
        } else {
            HealthStatus::Healthy
        }
    }
}

/// What the drain phase of a shutdown does next, given the active-connection
/// count and how many times it has already polled.
pub enum DrainAction {
    /// Every connection has finished: declare the server stopped.
    Stop,
    /// The poll budget is exhausted with connections still active: proceed
    /// anyway, noting the forced close.
    ForcedStop,
    /// Connections remain and polls are left: sleep and poll again.
    Wait,
}

/// How many times the drain phase polls before giving up.
pub const DRAIN_POLL_LIMIT: u32 = 30;

/// Decide the next drain step: stop once no connection is active, force a
/// stop after the poll budget is spent, and otherwise keep waiting.
pub fn drain_action(active_connections: usize, polls: u32) -> (r: DrainAction)
    ensures
        active_connections == 0 ==> r is Stop,
        active_connections > 0 && polls >= DRAIN_POLL_LIMIT ==> r is ForcedStop,
        active_connections > 0 && polls < DRAIN_POLL_LIMIT ==> r is Wait,
{
    if active_connections == 0 {
        DrainAction::Stop
    } else if polls >= DRAIN_POLL_LIMIT {
        DrainAction::ForcedStop
    } else {
        DrainAction::Wait
    }
}

/// Whether a drain poll should announce the wait: every fifth poll does.
pub fn drain_should_announce(polls: u32) -> (r: bool)
    ensures
        r == (polls % 5 == 0),
{
    polls % 5 == 0
}

} // verus!
