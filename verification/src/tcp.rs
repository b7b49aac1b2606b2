//! The established TCP connection: the FIN shutdown state machine, window
//! validation, the retransmission-timeout estimator, the sender's
//! segmentation, and the receiver's in-order byte stream.
//!
//! The coroutines that drive a live connection perform I/O and sleeps; the
//! decisions they take are the functions here, each a step from state and
//! event to next state and action.

use vstd::prelude::*;

use crate::fail::{Fail, EBADF, EINVAL};
use crate::net::SocketAddress;

verus! {

/// The largest receive window without window scaling.
pub const MAX_WINDOW_SIZE_WITHOUT_SCALING: u32 = 65535;

/// The largest receive window with window scaling.
pub const MAX_WINDOW_SIZE_WITH_SCALING: u32 = 1073741824;

/// Connection state of an established socket's shutdown machine.
#[derive(Clone, Copy, PartialEq, Eq, Structural, Hash, Debug)]
pub enum State {
    Established,
    FinWait1,
    FinWait2,
    Closing,
    CloseWait,
    LastAck,
    TimeWait,
    Closed,
}

/// An event driving the shutdown machine: a local close, a received FIN, a
/// received acknowledgment of our FIN, or the expiry of the 2-MSL timer.
#[derive(Clone, Copy, PartialEq, Eq, Structural, Hash, Debug)]
pub enum TcpEvent {
    LocalClose,
    RecvFin,
    RecvAckOfFin,
    MslTimerExpired,
}

/// What a shutdown transition asks the connection to do.
#[derive(Clone, Copy, PartialEq, Eq, Structural, Hash, Debug)]
pub enum TcpAction {
    /// Send a FIN segment.
    SendFin,
    /// Acknowledge the peer's FIN and signal end-of-file to the receiver.
    AckAndSignalEof,
    /// Acknowledge the peer's FIN.
    Ack,
    /// Acknowledge the peer's FIN and start the 2-MSL timer.
    AckStartMslTimer,
    /// Start the 2-MSL timer.
    StartMslTimer,
    /// Nothing to transmit.
    DoNothing,
}

/// One step of the shutdown state machine.  Exactly the transitions of the
/// close protocol are accepted; any other event in a given state is refused
/// with `EBADF` and the state does not change.
pub fn transition(state: State, event: TcpEvent) -> (r: Result<(State, TcpAction), Fail>)
    ensures
        state is Established && event is LocalClose ==> r == Ok::<(State, TcpAction), Fail>(
            (State::FinWait1, TcpAction::SendFin),
        ),
        state is Established && event is RecvFin ==> r == Ok::<(State, TcpAction), Fail>(
            (State::CloseWait, TcpAction::AckAndSignalEof),
        ),
        state is FinWait1 && event is RecvAckOfFin ==> r == Ok::<(State, TcpAction), Fail>(
            (State::FinWait2, TcpAction::DoNothing),
        ),
        state is FinWait1 && event is RecvFin ==> r == Ok::<(State, TcpAction), Fail>(
            (State::Closing, TcpAction::Ack),
        ),
        state is FinWait2 && event is RecvFin ==> r == Ok::<(State, TcpAction), Fail>(
            (State::TimeWait, TcpAction::AckStartMslTimer),
        ),
        state is Closing && event is RecvAckOfFin ==> r == Ok::<(State, TcpAction), Fail>(
            (State::TimeWait, TcpAction::StartMslTimer),
        ),
        state is CloseWait && event is LocalClose ==> r == Ok::<(State, TcpAction), Fail>(
            (State::LastAck, TcpAction::SendFin),
        ),
        state is LastAck && event is RecvAckOfFin ==> r == Ok::<(State, TcpAction), Fail>(
            (State::Closed, TcpAction::DoNothing),
        ),
        state is TimeWait && event is MslTimerExpired ==> r == Ok::<(State, TcpAction), Fail>(
            (State::Closed, TcpAction::DoNothing),
        ),
        r is Ok <==> transition_spec(state, event) is Some,
        r is Ok ==> r.unwrap().0 == transition_spec(state, event).unwrap(),
        r is Err ==> r.unwrap_err().errno == EBADF,
{
    match (state, event) {
        (State::Established, TcpEvent::LocalClose) => Ok((State::FinWait1, TcpAction::SendFin)),
        (State::Established, TcpEvent::RecvFin) => Ok(
            (State::CloseWait, TcpAction::AckAndSignalEof),
        ),
        (State::FinWait1, TcpEvent::RecvAckOfFin) => Ok((State::FinWait2, TcpAction::DoNothing)),
        (State::FinWait1, TcpEvent::RecvFin) => Ok((State::Closing, TcpAction::Ack)),
        (State::FinWait2, TcpEvent::RecvFin) => Ok((State::TimeWait, TcpAction::AckStartMslTimer)),
        (State::Closing, TcpEvent::RecvAckOfFin) => Ok((State::TimeWait, TcpAction::StartMslTimer)),
        (State::CloseWait, TcpEvent::LocalClose) => Ok((State::LastAck, TcpAction::SendFin)),
        (State::LastAck, TcpEvent::RecvAckOfFin) => Ok((State::Closed, TcpAction::DoNothing)),
        (State::TimeWait, TcpEvent::MslTimerExpired) => Ok((State::Closed, TcpAction::DoNothing)),
        _ => Err(Fail::new(EBADF, "socket is already closing")),
    }
}

/// The transition relation, at the specification level.
pub open spec fn transition_spec(state: State, event: TcpEvent) -> Option<State> {
    match (state, event) {
        (State::Established, TcpEvent::LocalClose) => Some(State::FinWait1),
        (State::Established, TcpEvent::RecvFin) => Some(State::CloseWait),
        (State::FinWait1, TcpEvent::RecvAckOfFin) => Some(State::FinWait2),
        (State::FinWait1, TcpEvent::RecvFin) => Some(State::Closing),
        (State::FinWait2, TcpEvent::RecvFin) => Some(State::TimeWait),
        (State::Closing, TcpEvent::RecvAckOfFin) => Some(State::TimeWait),
        (State::CloseWait, TcpEvent::LocalClose) => Some(State::LastAck),
        (State::LastAck, TcpEvent::RecvAckOfFin) => Some(State::Closed),
        (State::TimeWait, TcpEvent::MslTimerExpired) => Some(State::Closed),
        _ => None,
    }
}

/// Law: graceful shutdown reaches `Closed`.  Whichever side closes first,
/// the close protocol's event sequences end in `Closed`: the active path
/// through FinWait1, FinWait2 and TimeWait once the 2-MSL timer expires,
/// the simultaneous-close path through Closing, and the passive path
/// through CloseWait and LastAck.
pub proof fn lemma_close_reaches_closed()
    ensures
        transition_spec(State::Established, TcpEvent::LocalClose) == Some(State::FinWait1),
        transition_spec(State::FinWait1, TcpEvent::RecvAckOfFin) == Some(State::FinWait2),
        transition_spec(State::FinWait2, TcpEvent::RecvFin) == Some(State::TimeWait),
        transition_spec(State::FinWait1, TcpEvent::RecvFin) == Some(State::Closing),
        transition_spec(State::Closing, TcpEvent::RecvAckOfFin) == Some(State::TimeWait),
        transition_spec(State::TimeWait, TcpEvent::MslTimerExpired) == Some(State::Closed),
        transition_spec(State::Established, TcpEvent::RecvFin) == Some(State::CloseWait),
        transition_spec(State::CloseWait, TcpEvent::LocalClose) == Some(State::LastAck),
        transition_spec(State::LastAck, TcpEvent::RecvAckOfFin) == Some(State::Closed),
{
}

/// Law: once closed, always closed — no event leaves the `Closed` state.
pub proof fn lemma_closed_is_terminal(event: TcpEvent)
    ensures
        transition_spec(State::Closed, event) is None,
{
}

/// Validates a window size against its scale: without scaling the window
/// must fit 16 bits, with scaling it may reach 1 GiB.
pub fn validate_window(window_size_bytes: u32, window_scale_bits: u8) -> (r: Result<(), Fail>)
    ensures
        r is Ok <==> ((window_scale_bits == 0 ==> window_size_bytes
            <= MAX_WINDOW_SIZE_WITHOUT_SCALING) && window_size_bytes
            <= MAX_WINDOW_SIZE_WITH_SCALING),
        r is Err ==> r.unwrap_err().errno == EINVAL,
{
    if window_scale_bits == 0 && window_size_bytes > MAX_WINDOW_SIZE_WITHOUT_SCALING {
        return Err(Fail::new(EINVAL, "window too large without scaling"));
    }
    if window_size_bytes > MAX_WINDOW_SIZE_WITH_SCALING {
        return Err(Fail::new(EINVAL, "window too large"));
    }
    Ok(())
}

/// Smallest retransmission timeout, in microseconds.
pub const RTO_MIN_USEC: u64 = 1000000;

/// Largest retransmission timeout, in microseconds.
pub const RTO_MAX_USEC: u64 = 60000000;

/// The retransmission-timeout estimator, per Jacobson/Karn: a smoothed
/// round-trip time, a variance estimate, and exponential backoff on loss.
/// All times are in microseconds.
#[derive(Debug)]
pub struct RtoCalculator {
    srtt: u64,
    rttvar: u64,
    rto: u64,
}

/// Clamps `x` into the legal timeout range.
pub open spec fn clamp_rto(x: int) -> int {
    if x < RTO_MIN_USEC {
        RTO_MIN_USEC as int
    } else if x > RTO_MAX_USEC {
        RTO_MAX_USEC as int
    } else {
        x
    }
}

impl RtoCalculator {
    /// The smoothed round-trip time.
    pub closed spec fn srtt_spec(self) -> u64 {
        self.srtt
    }

    /// The round-trip variance estimate.
    pub closed spec fn rttvar_spec(self) -> u64 {
        self.rttvar
    }

    /// The current retransmission timeout.
    pub closed spec fn rto_spec(self) -> u64 {
        self.rto
    }

    /// The estimator always stays inside the legal timeout range.
    pub open spec fn wf(self) -> bool {
        RTO_MIN_USEC <= self.rto_spec() <= RTO_MAX_USEC
    }

    /// Creates an estimator with no sample yet: one second of smoothed
    /// round-trip time and three seconds of timeout, clamped into range.
    pub fn new() -> (r: Self)
        ensures
            r.wf(),
            r.srtt_spec() == 1000000,
            r.rttvar_spec() == 500000,
            r.rto_spec() == 3000000,
    {
        RtoCalculator { srtt: 1000000, rttvar: 500000, rto: 3000000 }
    }

    /// Folds a round-trip `sample` into the estimate:
    /// `srtt <- (7 srtt + sample) / 8`, `rttvar <- (3 rttvar + |srtt - sample|) / 4`,
    /// `rto <- srtt + 4 rttvar`, clamped into the legal range.
    pub fn add_sample(&mut self, sample: u64)
        requires
            sample < 0x1000_0000_0000_0000,
            old(self).srtt_spec() < 0x1000_0000_0000_0000,
            old(self).rttvar_spec() < 0x1000_0000_0000_0000,
        ensures
            final(self).wf(),
            final(self).rttvar_spec() == (3 * old(self).rttvar_spec() + (if old(self).srtt_spec()
                >= sample {
                old(self).srtt_spec() - sample
            } else {
                sample - old(self).srtt_spec()
            })) / 4,
            final(self).srtt_spec() == (7 * old(self).srtt_spec() + sample) / 8,
            final(self).rto_spec() == clamp_rto(
                final(self).srtt_spec() + 4 * final(self).rttvar_spec(),
            ),
    {
        let err: u64 = if self.srtt >= sample {
            self.srtt - sample
        } else {
            sample - self.srtt
        };
        self.rttvar = (3 * self.rttvar + err) / 4;
        self.srtt = (7 * self.srtt + sample) / 8;
        let raw: u64 = self.srtt + 4 * self.rttvar;
        self.rto = if raw < RTO_MIN_USEC {
            RTO_MIN_USEC
        } else if raw > RTO_MAX_USEC {
            RTO_MAX_USEC
        } else {
            raw
        };
    }

    /// Backs off after a retransmission timeout: the timeout doubles, up to
    /// the maximum.
    pub fn on_timeout(&mut self)
        requires
            old(self).wf(),
        ensures
            final(self).wf(),
            final(self).rto_spec() == (if 2 * old(self).rto_spec() > RTO_MAX_USEC {
                RTO_MAX_USEC as int
            } else {
                2 * old(self).rto_spec()
            }),
            final(self).srtt_spec() == old(self).srtt_spec(),
            final(self).rttvar_spec() == old(self).rttvar_spec(),
    {
        self.rto = if self.rto > RTO_MAX_USEC / 2 {
            RTO_MAX_USEC
        } else {
            2 * self.rto
        };
    }

    /// The current timeout.
    pub fn rto(&self) -> (r: u64)
        ensures
            r == self.rto_spec(),
    {
        self.rto
    }
}

/// The timeout after `k` consecutive losses, starting from `rto0`.
pub open spec fn backoff_rto(rto0: u64, k: nat) -> int
    decreases k,
{
    if k == 0 {
        rto0 as int
    } else {
        let prev = backoff_rto(rto0, (k - 1) as nat);
        if 2 * prev > RTO_MAX_USEC {
            RTO_MAX_USEC as int
        } else {
            2 * prev
        }
    }
}

/// Law: retransmission backoff is bounded.  After `k` consecutive
/// timeouts the timeout is the doubled initial value capped at the
/// maximum — never more than `min(rto0 * 2^k, RTO_MAX_USEC)` and never
/// below the minimum, so a dropped segment is retransmitted within that
/// bound.
pub proof fn lemma_backoff_bounded(rto0: u64, k: nat)
    requires
        RTO_MIN_USEC <= rto0 <= RTO_MAX_USEC,
    ensures
        RTO_MIN_USEC <= backoff_rto(rto0, k) <= RTO_MAX_USEC,
        backoff_rto(rto0, k) <= rto0 * vstd::arithmetic::power2::pow2(k),
    decreases k,
{
    vstd::arithmetic::power2::lemma_pow2_pos(k);
    if k == 0 {
        vstd::arithmetic::power2::lemma2_to64();
    }
    if k > 0 {
        lemma_backoff_bounded(rto0, (k - 1) as nat);
        vstd::arithmetic::power2::lemma_pow2_pos((k - 1) as nat);
        vstd::arithmetic::power2::lemma_pow2_unfold(k);
        assert(rto0 * vstd::arithmetic::power2::pow2(k) == 2 * (rto0 * vstd::arithmetic::power2::pow2((k - 1) as nat)))
            by (nonlinear_arith)
            requires
                vstd::arithmetic::power2::pow2(k) == 2 * vstd::arithmetic::power2::pow2((k - 1) as nat),
        ;
    }
}

/// The sender half of an established connection: unsent bytes queue here
/// and leave as segments of at most one MSS.
#[derive(Debug)]
pub struct Sender {
    /// Sequence number of the oldest unacknowledged byte.
    snd_una: u32,
    /// Sequence number the next fresh segment is assigned.
    snd_nxt: u32,
    /// The peer's advertised receive window, in bytes.
    snd_wnd: u32,
    /// Bytes sent and not yet acknowledged.
    inflight: u32,
    /// Segments sent and not yet acknowledged, oldest first, each with its
    /// sequence number; the retransmitter resends from the front.
    unacked: Vec<(u32, Vec<u8>)>,
    /// Bytes accepted from the application and not yet segmented.
    unsent: Vec<u8>,
    /// The maximum payload of one segment.
    mss: usize,
}

impl Sender {
    /// Bytes accepted and not yet segmented.
    pub closed spec fn unsent_spec(self) -> Seq<u8> {
        self.unsent@
    }

    /// The maximum segment size.
    pub closed spec fn mss_spec(self) -> int {
        self.mss as int
    }

    /// Sequence number of the oldest unacknowledged byte.
    pub closed spec fn snd_una_spec(self) -> u32 {
        self.snd_una
    }

    /// Sequence number the next fresh segment is assigned.
    pub closed spec fn snd_nxt_spec(self) -> u32 {
        self.snd_nxt
    }

    /// The peer's advertised receive window.
    pub closed spec fn snd_wnd_spec(self) -> u32 {
        self.snd_wnd
    }

    /// Bytes sent and not yet acknowledged.
    pub closed spec fn inflight_spec(self) -> u32 {
        self.inflight
    }

    /// The unacknowledged segments, oldest first.
    pub closed spec fn unacked_spec(self) -> Seq<(u32, Vec<u8>)> {
        self.unacked@
    }

    /// Creates a sender with an empty queue, sending from `seq_no` into a
    /// `window`-byte peer window.
    pub fn new(seq_no: u32, window: u32, mss: usize) -> (r: Self)
        requires
            mss > 0,
        ensures
            r.unsent_spec() == Seq::<u8>::empty(),
            r.unacked_spec() == Seq::<(u32, Vec<u8>)>::empty(),
            r.mss_spec() == mss,
            r.snd_una_spec() == seq_no,
            r.snd_nxt_spec() == seq_no,
            r.snd_wnd_spec() == window,
            r.inflight_spec() == 0,
    {
        Sender {
            snd_una: seq_no,
            snd_nxt: seq_no,
            snd_wnd: window,
            inflight: 0,
            unacked: Vec::new(),
            unsent: Vec::new(),
            mss,
        }
    }

    /// How many more bytes the sender may put on the wire: the tighter of
    /// the congestion window and the peer's window, less what is already in
    /// flight — the background sender transmits only within this allowance.
    pub fn send_allowance(&self, cwnd: u32) -> (r: u32)
        ensures
            r == (if vstd::math::min(cwnd as int, self.snd_wnd_spec() as int)
                >= self.inflight_spec() {
                vstd::math::min(cwnd as int, self.snd_wnd_spec() as int)
                    - self.inflight_spec() as int
            } else {
                0int
            }),
    {
        let window: u32 = if cwnd < self.snd_wnd {
            cwnd
        } else {
            self.snd_wnd
        };
        if window >= self.inflight {
            window - self.inflight
        } else {
            0
        }
    }

    /// Records the peer's newly advertised receive window.
    pub fn set_send_window(&mut self, window: u32)
        ensures
            final(self).snd_wnd_spec() == window,
            final(self).unsent_spec() == old(self).unsent_spec(),
            final(self).unacked_spec() == old(self).unacked_spec(),
            final(self).inflight_spec() == old(self).inflight_spec(),
            final(self).mss_spec() == old(self).mss_spec(),
            final(self).snd_una_spec() == old(self).snd_una_spec(),
            final(self).snd_nxt_spec() == old(self).snd_nxt_spec(),
    {
        self.snd_wnd = window;
    }

    /// Handles an acknowledgment of `acked` inflight bytes: the oldest
    /// unacknowledged point advances, and exactly the leading segments the
    /// acknowledgment covers in full leave the retransmit queue; a segment
    /// only partly covered stays, to be resent whole.
    pub fn process_ack(&mut self, acked: u32)
        requires
            acked <= old(self).inflight_spec(),
        ensures
            final(self).inflight_spec() == old(self).inflight_spec() - acked,
            final(self).snd_una_spec() == wrap_add32(old(self).snd_una_spec(), acked),
            final(self).snd_nxt_spec() == old(self).snd_nxt_spec(),
            final(self).snd_wnd_spec() == old(self).snd_wnd_spec(),
            final(self).unsent_spec() == old(self).unsent_spec(),
            final(self).mss_spec() == old(self).mss_spec(),
            final(self).unacked_spec() == old(self).unacked_spec().skip(
                segments_covered(old(self).unacked_spec(), acked as int),
            ),
    {
        self.snd_una = wrapping_add32(self.snd_una, acked);
        self.inflight = self.inflight - acked;
        let mut remaining: u64 = acked as u64;
        let ghost q0 = old(self).unacked@;
        let ghost covered_total = segments_covered(old(self).unacked@, acked as int);
        proof {
            assert(q0.skip(0) =~= q0);
            assert(self.unacked@ == q0.skip(0));
        }
        while self.unacked.len() > 0 && remaining >= self.unacked[0].1.len() as u64
            invariant
                self.snd_una == wrap_add32(old(self).snd_una_spec(), acked),
                self.inflight == old(self).inflight_spec() - acked,
                self.snd_nxt == old(self).snd_nxt_spec(),
                self.snd_wnd == old(self).snd_wnd_spec(),
                self.unsent == old(self).unsent,
                self.mss == old(self).mss,
                q0 == old(self).unacked@,
                covered_total == segments_covered(q0, acked as int),
                exists|j: int|
                    {
                        &&& 0 <= j <= q0.len()
                        &&& self.unacked@ == #[trigger] q0.skip(j)
                        &&& remaining <= acked
                        &&& covered_total == j + segments_covered(
                            self.unacked@,
                            remaining as int,
                        )
                    },
            decreases self.unacked@.len(),
        {
            let ghost j = choose|j: int|
                {
                    &&& 0 <= j <= q0.len()
                    &&& self.unacked@ == #[trigger] q0.skip(j)
                    &&& remaining <= acked
                    &&& covered_total == j + segments_covered(self.unacked@, remaining as int)
                };
            let ghost pre = self.unacked@;
            let ghost pre_remaining = remaining as int;
            let (_, segment) = self.unacked.remove(0);
            remaining = remaining - segment.len() as u64;
            proof {
                assert(self.unacked@ =~= pre.skip(1));
                assert(self.unacked@ =~= q0.skip(j + 1));
                assert(segments_covered(pre, pre_remaining) == 1 + segments_covered(
                    self.unacked@,
                    remaining as int,
                ));
            }
        }
        proof {
            let j = choose|j: int|
                {
                    &&& 0 <= j <= q0.len()
                    &&& self.unacked@ == #[trigger] q0.skip(j)
                    &&& remaining <= acked
                    &&& covered_total == j + segments_covered(self.unacked@, remaining as int)
                };
            assert(segments_covered(self.unacked@, remaining as int) == 0);
            assert(self.unacked@ == q0.skip(covered_total));
        }
    }

    /// The oldest unacknowledged segment, for the retransmitter to resend
    /// after a timeout; `None` when everything sent is acknowledged.
    pub fn oldest_unacked(&self) -> (r: Option<&(u32, Vec<u8>)>)
        ensures
            self.unacked_spec().len() == 0 ==> r is None,
            self.unacked_spec().len() > 0 ==> r == Some(&self.unacked_spec()[0]),
    {
        if self.unacked.len() > 0 {
            Some(&self.unacked[0])
        } else {
            None
        }
    }

    /// Accepts `data` from the application: it queues behind the bytes
    /// already waiting, nothing lost, nothing reordered.
    pub fn push(&mut self, data: &[u8])
        ensures
            final(self).unsent_spec() == old(self).unsent_spec() + data@,
            final(self).mss_spec() == old(self).mss_spec(),
            final(self).snd_una_spec() == old(self).snd_una_spec(),
            final(self).snd_nxt_spec() == old(self).snd_nxt_spec(),
            final(self).snd_wnd_spec() == old(self).snd_wnd_spec(),
            final(self).inflight_spec() == old(self).inflight_spec(),
            final(self).unacked_spec() == old(self).unacked_spec(),
    {
        let mut i: usize = 0;
        while i < data.len()
            invariant
                i <= data@.len(),
                self.unsent@ =~= old(self).unsent_spec() + data@.take(i as int),
                self.mss == old(self).mss,
                self.snd_una == old(self).snd_una,
                self.snd_nxt == old(self).snd_nxt,
                self.snd_wnd == old(self).snd_wnd,
                self.inflight == old(self).inflight,
                self.unacked == old(self).unacked,
            decreases data@.len() - i,
        {
            self.unsent.push(data[i]);
            i = i + 1;
        }
        proof {
            assert(self.unsent@ =~= old(self).unsent_spec() + data@);
        }
    }

    /// Takes the next segment to transmit: the oldest queued bytes, at most
    /// one MSS of them, stamped with the next sequence number and entered
    /// into the retransmit queue; `None` when nothing waits.
    pub fn next_segment(&mut self) -> (r: Option<(u32, Vec<u8>)>)
        requires
            old(self).mss_spec() > 0,
            old(self).inflight_spec() + old(self).mss_spec() <= u32::MAX,
        ensures
            final(self).mss_spec() == old(self).mss_spec(),
            final(self).snd_una_spec() == old(self).snd_una_spec(),
            final(self).snd_wnd_spec() == old(self).snd_wnd_spec(),
            old(self).unsent_spec().len() == 0 ==> r is None && *final(self) == *old(self),
            old(self).unsent_spec().len() > 0 ==> {
                let take = vstd::math::min(old(self).unsent_spec().len() as int, old(self).mss_spec());
                &&& r is Some
                &&& r.unwrap().0 == old(self).snd_nxt_spec()
                &&& r.unwrap().1@ == old(self).unsent_spec().take(take)
                &&& final(self).unsent_spec() == old(self).unsent_spec().skip(take)
                &&& r.unwrap().1@.len() <= old(self).mss_spec()
                &&& r.unwrap().1@.len() > 0
                &&& final(self).snd_nxt_spec() == wrap_add32(
                    old(self).snd_nxt_spec(),
                    r.unwrap().1@.len() as u32,
                )
                &&& final(self).inflight_spec() == old(self).inflight_spec()
                    + r.unwrap().1@.len()
                &&& final(self).unacked_spec().len() == old(self).unacked_spec().len() + 1
                &&& final(self).unacked_spec().last().0 == old(self).snd_nxt_spec()
                &&& final(self).unacked_spec().last().1@ == r.unwrap().1@
                &&& final(self).unacked_spec().take(old(self).unacked_spec().len() as int)
                    == old(self).unacked_spec()
            },
    {
        if self.unsent.len() == 0 {
            return None;
        }
        let take: usize = if self.unsent.len() < self.mss {
            self.unsent.len()
        } else {
            self.mss
        };
        let mut segment: Vec<u8> = Vec::new();
        let mut i: usize = 0;
        while i < take
            invariant
                i <= take,
                take <= old(self).unsent_spec().len(),
                take <= old(self).mss,
                self.unsent@ =~= old(self).unsent_spec().skip(i as int),
                self.mss == old(self).mss,
                self.snd_una == old(self).snd_una,
                self.snd_nxt == old(self).snd_nxt,
                self.snd_wnd == old(self).snd_wnd,
                self.inflight == old(self).inflight,
                self.unacked == old(self).unacked,
                old(self).inflight_spec() + old(self).mss_spec() <= u32::MAX,
                segment@ =~= old(self).unsent_spec().take(i as int),
            decreases take - i,
        {
            let byte: u8 = self.unsent.remove(0);
            segment.push(byte);
            i = i + 1;
        }
        let seq: u32 = self.snd_nxt;
        self.snd_nxt = wrapping_add32(self.snd_nxt, take as u32);
        self.inflight = self.inflight + take as u32;
        self.unacked.push((seq, clone_bytes(&segment)));
        proof {
            assert(self.unacked@.take(old(self).unacked@.len() as int) =~= old(self).unacked@);
        }
        Some((seq, segment))
    }
}

/// How many of the queue's leading segments an acknowledgment of `acked`
/// bytes covers in full; a partly covered segment is not counted and stays
/// queued, to be resent whole.
pub open spec fn segments_covered(q: Seq<(u32, Vec<u8>)>, acked: int) -> int
    decreases q.len(),
{
    if q.len() == 0 || acked < q[0].1@.len() {
        0
    } else {
        1 + segments_covered(q.skip(1), acked - q[0].1@.len())
    }
}

/// `a + b` in 32-bit sequence-number space, wrapping.
pub open spec fn wrap_add32(a: u32, b: u32) -> u32 {
    if a + b <= u32::MAX {
        (a + b) as u32
    } else {
        (a + b - 0x100000000) as u32
    }
}

/// Adds in 32-bit sequence-number space, wrapping.
pub fn wrapping_add32(a: u32, b: u32) -> (r: u32)
    ensures
        r == wrap_add32(a, b),
{
    if b <= u32::MAX - a {
        a + b
    } else {
        b - (u32::MAX - a) - 1
    }
}

/// Copies a byte vector.
fn clone_bytes(v: &Vec<u8>) -> (r: Vec<u8>)
    ensures
        r@ == v@,
{
    let mut r: Vec<u8> = Vec::new();
    let mut i: usize = 0;
    while i < v.len()
        invariant
            i <= v@.len(),
            r@ =~= v@.take(i as int),
        decreases v@.len() - i,
    {
        r.push(v[i]);
        i = i + 1;
    }
    proof {
        assert(r@ =~= v@);
    }
    r
}

/// The receiver half of an established connection: segments arriving in
/// order extend the ready byte stream, which `pop` drains in order.
#[derive(Debug)]
pub struct Receiver {
    /// The sequence number expected next.
    rcv_nxt: u32,
    /// Bytes received in order and not yet popped.
    ready: Vec<u8>,
}

impl Receiver {
    /// The sequence number expected next.
    pub closed spec fn rcv_nxt_spec(self) -> u32 {
        self.rcv_nxt
    }

    /// Bytes received in order and not yet popped.
    pub closed spec fn ready_spec(self) -> Seq<u8> {
        self.ready@
    }

    /// Creates a receiver expecting sequence number `rcv_nxt`.
    pub fn new(rcv_nxt: u32) -> (r: Self)
        ensures
            r.rcv_nxt_spec() == rcv_nxt,
            r.ready_spec() == Seq::<u8>::empty(),
    {
        Receiver { rcv_nxt, ready: Vec::new() }
    }

    /// Accepts a data segment starting at sequence number `seq`.
    ///
    /// Law: byte-stream preservation.  A segment is accepted exactly when
    /// it starts at the expected sequence number; an accepted segment's
    /// bytes extend the ready stream in order and advance the expectation
    /// by its length; anything else — a duplicate or a gap — changes
    /// nothing, so the ready stream is always the exact concatenation of
    /// the accepted segments in sequence order.
    pub fn receive_segment(&mut self, seq: u32, data: &[u8]) -> (accepted: bool)
        requires
            data@.len() <= u32::MAX,
        ensures
            accepted == (seq == old(self).rcv_nxt_spec()),
            accepted ==> {
                &&& final(self).ready_spec() == old(self).ready_spec() + data@
                &&& final(self).rcv_nxt_spec() == (if old(self).rcv_nxt_spec() + data@.len()
                    <= u32::MAX {
                    old(self).rcv_nxt_spec() + data@.len()
                } else {
                    old(self).rcv_nxt_spec() + data@.len() - 0x100000000
                })
            },
            !accepted ==> *final(self) == *old(self),
    {
        if seq != self.rcv_nxt {
            return false;
        }
        let mut i: usize = 0;
        let n: usize = data.len();
        while i < n
            invariant
                i <= n,
                n == data@.len(),
                self.ready@ =~= old(self).ready_spec() + data@.take(i as int),
                self.rcv_nxt == old(self).rcv_nxt_spec(),
            decreases n - i,
        {
            self.ready.push(data[i]);
            i = i + 1;
        }
        proof {
            assert(self.ready@ =~= old(self).ready_spec() + data@);
        }
        self.rcv_nxt = if (n as u32) <= u32::MAX - self.rcv_nxt {
            self.rcv_nxt + (n as u32)
        } else {
            (n as u32) - (u32::MAX - self.rcv_nxt) - 1
        };
        true
    }

    /// Drains up to `size` bytes from the front of the ready stream, in
    /// order; `None` when nothing is ready, upon which the caller suspends.
    pub fn pop(&mut self, size: usize) -> (r: Option<Vec<u8>>)
        ensures
            final(self).rcv_nxt_spec() == old(self).rcv_nxt_spec(),
            old(self).ready_spec().len() == 0 ==> r is None && *final(self) == *old(self),
            old(self).ready_spec().len() > 0 ==> {
                let take = vstd::math::min(old(self).ready_spec().len() as int, size as int);
                &&& r is Some
                &&& r.unwrap()@ == old(self).ready_spec().take(take)
                &&& final(self).ready_spec() == old(self).ready_spec().skip(take)
            },
    {
        if self.ready.len() == 0 {
            return None;
        }
        let take: usize = if self.ready.len() < size {
            self.ready.len()
        } else {
            size
        };
        let mut out: Vec<u8> = Vec::new();
        let mut i: usize = 0;
        while i < take
            invariant
                i <= take,
                take <= old(self).ready_spec().len(),
                self.ready@ =~= old(self).ready_spec().skip(i as int),
                self.rcv_nxt == old(self).rcv_nxt_spec(),
                out@ =~= old(self).ready_spec().take(i as int),
            decreases take - i,
        {
            let byte: u8 = self.ready.remove(0);
            out.push(byte);
            i = i + 1;
        }
        Some(out)
    }
}

} // verus!

verus! {

/// An established TCP connection: endpoints, shutdown state, the sender,
/// the receiver, and the retransmission estimator.  The three background
/// coroutines — acknowledger, retransmitter, sender — and the close
/// protocol take their decisions through the step functions here.
#[derive(Debug)]
pub struct SharedEstablishedSocket {
    /// The local endpoint.
    local: SocketAddress,
    /// The remote endpoint.
    remote: SocketAddress,
    /// Where the connection stands in the shutdown machine.
    state: State,
    /// The sender half.
    sender: Sender,
    /// The receiver half.
    receiver: Receiver,
    /// The retransmission-timeout estimator.
    rto: RtoCalculator,
}

impl SharedEstablishedSocket {
    /// The shutdown state.
    pub closed spec fn state_spec(self) -> State {
        self.state
    }

    /// The local endpoint.
    pub closed spec fn local_spec(self) -> SocketAddress {
        self.local
    }

    /// The remote endpoint.
    pub closed spec fn remote_spec(self) -> SocketAddress {
        self.remote
    }

    /// The sender half.
    pub closed spec fn sender_spec(self) -> Sender {
        self.sender
    }

    /// The receiver half.
    pub closed spec fn receiver_spec(self) -> Receiver {
        self.receiver
    }

    /// The retransmission estimator.
    pub closed spec fn rto_estimator_spec(self) -> RtoCalculator {
        self.rto
    }

    /// Validity: the MSS is positive and the estimator is in range.
    pub open spec fn wf(self) -> bool {
        self.sender_spec().mss_spec() > 0 && self.rto_estimator_spec().wf()
    }

    /// Builds an established socket after the handshake.  Succeeds exactly
    /// when both windows respect their scaling bounds; the connection then
    /// starts in `Established` with empty sender and receiver queues.
    pub fn new(
        local: SocketAddress,
        remote: SocketAddress,
        receiver_seq_no: u32,
        receiver_window_size_bytes: u32,
        receiver_window_scale_bits: u8,
        sender_seq_no: u32,
        sender_window_size_bytes: u32,
        sender_window_scale_bits: u8,
        sender_mss: usize,
    ) -> (r: Result<Self, Fail>)
        requires
            sender_mss > 0,
        ensures
            r is Ok <==> ((sender_window_scale_bits == 0 ==> sender_window_size_bytes
                <= MAX_WINDOW_SIZE_WITHOUT_SCALING) && sender_window_size_bytes
                <= MAX_WINDOW_SIZE_WITH_SCALING && (receiver_window_scale_bits == 0
                ==> receiver_window_size_bytes <= MAX_WINDOW_SIZE_WITHOUT_SCALING)
                && receiver_window_size_bytes <= MAX_WINDOW_SIZE_WITH_SCALING),
            r is Err ==> r->Err_0.errno == EINVAL,
            r is Ok ==> {
                let s = r->Ok_0;
                &&& s.state_spec() is Established
                &&& s.local_spec() == local
                &&& s.remote_spec() == remote
                &&& s.sender_spec().unsent_spec() == Seq::<u8>::empty()
                &&& s.sender_spec().mss_spec() == sender_mss
                &&& s.sender_spec().snd_una_spec() == sender_seq_no
                &&& s.sender_spec().snd_nxt_spec() == sender_seq_no
                &&& s.sender_spec().snd_wnd_spec() == sender_window_size_bytes
                &&& s.receiver_spec().rcv_nxt_spec() == receiver_seq_no
                &&& s.receiver_spec().ready_spec() == Seq::<u8>::empty()
                &&& s.wf()
            },
    {
        // Check that the send window size is not too large.
        match validate_window(sender_window_size_bytes, sender_window_scale_bits) {
            Ok(()) => (),
            Err(e) => {
                return Err(e);
            },
        }
        // Check that the receive window size is not too large.
        match validate_window(receiver_window_size_bytes, receiver_window_scale_bits) {
            Ok(()) => (),
            Err(e) => {
                return Err(e);
            },
        }
        Ok(
            SharedEstablishedSocket {
                local,
                remote,
                state: State::Established,
                sender: Sender::new(sender_seq_no, sender_window_size_bytes, sender_mss),
                receiver: Receiver::new(receiver_seq_no),
                rto: RtoCalculator::new(),
            },
        )
    }

    /// The connection's endpoints.
    pub fn endpoints(&self) -> (r: (SocketAddress, SocketAddress))
        ensures
            r.0 == self.local_spec(),
            r.1 == self.remote_spec(),
    {
        (self.local, self.remote)
    }

    /// The shutdown state.
    pub fn state(&self) -> (r: State)
        ensures
            r == self.state_spec(),
    {
        self.state
    }

    /// Begins the close protocol.  From `Established` the connection moves
    /// to `FinWait1`, from `CloseWait` — the peer already closed — to
    /// `LastAck`; either way a FIN must be sent.  A close in any other
    /// state is refused with `EBADF` and changes nothing.
    pub fn close(&mut self) -> (r: Result<TcpAction, Fail>)
        ensures
            old(self).state_spec() is Established ==> r == Ok::<TcpAction, Fail>(
                TcpAction::SendFin,
            ) && final(self).state_spec() is FinWait1,
            old(self).state_spec() is CloseWait ==> r == Ok::<TcpAction, Fail>(TcpAction::SendFin)
                && final(self).state_spec() is LastAck,
            !(old(self).state_spec() is Established || old(self).state_spec() is CloseWait) ==> r
                is Err && r.unwrap_err().errno == EBADF && *final(self) == *old(self),
            final(self).local_spec() == old(self).local_spec(),
            final(self).remote_spec() == old(self).remote_spec(),
            final(self).sender_spec() == old(self).sender_spec(),
            final(self).receiver_spec() == old(self).receiver_spec(),
    {
        match self.state {
            State::Established => self.process_event(TcpEvent::LocalClose),
            State::CloseWait => self.process_event(TcpEvent::LocalClose),
            _ => Err(Fail::new(EBADF, "socket is already closing")),
        }
    }

    /// Applies one shutdown event to the connection's state and returns the
    /// action it demands, per the transition table; an event the current
    /// state does not expect is refused with `EBADF` and changes nothing.
    pub fn process_event(&mut self, event: TcpEvent) -> (r: Result<TcpAction, Fail>)
        ensures
            transition_spec(old(self).state_spec(), event) is Some ==> r is Ok && final(self).state_spec() == transition_spec(old(self).state_spec(), event).unwrap(),
            transition_spec(old(self).state_spec(), event) is None ==> r is Err
                && r.unwrap_err().errno == EBADF && *final(self) == *old(self),
            final(self).local_spec() == old(self).local_spec(),
            final(self).remote_spec() == old(self).remote_spec(),
            final(self).sender_spec() == old(self).sender_spec(),
            final(self).receiver_spec() == old(self).receiver_spec(),
            old(self).state_spec() is Established && event is LocalClose ==> r == Ok::<
                TcpAction,
                Fail,
            >(TcpAction::SendFin),
            old(self).state_spec() is CloseWait && event is LocalClose ==> r == Ok::<
                TcpAction,
                Fail,
            >(TcpAction::SendFin),
    {
        match transition(self.state, event) {
            Ok((next, action)) => {
                self.state = next;
                Ok(action)
            },
            Err(e) => Err(e),
        }
    }

    /// Queues application bytes for transmission; the rest of the sender —
    /// windows, inflight bytes, and the retransmit queue — is untouched.
    pub fn push(&mut self, data: &[u8])
        requires
            old(self).wf(),
        ensures
            final(self).wf(),
            final(self).sender_spec().unsent_spec() == old(self).sender_spec().unsent_spec()
                + data@,
            final(self).sender_spec().mss_spec() == old(self).sender_spec().mss_spec(),
            final(self).sender_spec().snd_una_spec() == old(self).sender_spec().snd_una_spec(),
            final(self).sender_spec().snd_nxt_spec() == old(self).sender_spec().snd_nxt_spec(),
            final(self).sender_spec().snd_wnd_spec() == old(self).sender_spec().snd_wnd_spec(),
            final(self).sender_spec().inflight_spec() == old(self).sender_spec().inflight_spec(),
            final(self).sender_spec().unacked_spec() == old(self).sender_spec().unacked_spec(),
            final(self).state_spec() == old(self).state_spec(),
            final(self).receiver_spec() == old(self).receiver_spec(),
    {
        self.sender.push(data);
    }

    /// Takes the next segment to transmit, at most one MSS, stamped with
    /// its sequence number.
    pub fn next_segment(&mut self) -> (r: Option<(u32, Vec<u8>)>)
        requires
            old(self).wf(),
            old(self).sender_spec().inflight_spec() + old(self).sender_spec().mss_spec()
                <= u32::MAX,
        ensures
            final(self).wf(),
            final(self).state_spec() == old(self).state_spec(),
            final(self).receiver_spec() == old(self).receiver_spec(),
            old(self).sender_spec().unsent_spec().len() == 0 ==> r is None,
            old(self).sender_spec().unsent_spec().len() > 0 ==> r is Some && r.unwrap().0 == old(self).sender_spec().snd_nxt_spec() && r.unwrap().1@ == old(self).sender_spec().unsent_spec().take(
                vstd::math::min(
                    old(self).sender_spec().unsent_spec().len() as int,
                    old(self).sender_spec().mss_spec(),
                ),
            ),
    {
        self.sender.next_segment()
    }

    /// Accepts an ingress data segment; accepted exactly when in order, in
    /// which case the expectation advances by its length so the next
    /// segment chains on.  A rejected segment changes nothing.
    pub fn receive(&mut self, seq: u32, data: &[u8]) -> (accepted: bool)
        requires
            data@.len() <= u32::MAX,
        ensures
            accepted == (seq == old(self).receiver_spec().rcv_nxt_spec()),
            accepted ==> {
                &&& final(self).receiver_spec().ready_spec() == old(self).receiver_spec().ready_spec() + data@
                &&& final(self).receiver_spec().rcv_nxt_spec() == (if old(self).receiver_spec().rcv_nxt_spec() + data@.len() <= u32::MAX {
                    old(self).receiver_spec().rcv_nxt_spec() + data@.len()
                } else {
                    old(self).receiver_spec().rcv_nxt_spec() + data@.len() - 0x100000000
                })
            },
            !accepted ==> final(self).receiver_spec() == old(self).receiver_spec(),
            final(self).state_spec() == old(self).state_spec(),
            final(self).sender_spec() == old(self).sender_spec(),
    {
        self.receiver.receive_segment(seq, data)
    }

    /// Hands up to `size` received bytes to the application, in order; the
    /// bytes handed out leave the ready stream, so consecutive pops drain
    /// it front to back.
    pub fn pop(&mut self, size: usize) -> (r: Option<Vec<u8>>)
        ensures
            final(self).state_spec() == old(self).state_spec(),
            final(self).sender_spec() == old(self).sender_spec(),
            final(self).receiver_spec().rcv_nxt_spec() == old(self).receiver_spec().rcv_nxt_spec(),
            old(self).receiver_spec().ready_spec().len() == 0 ==> r is None && final(self).receiver_spec() == old(self).receiver_spec(),
            old(self).receiver_spec().ready_spec().len() > 0 ==> {
                let take = vstd::math::min(
                    old(self).receiver_spec().ready_spec().len() as int,
                    size as int,
                );
                &&& r is Some
                &&& r.unwrap()@ == old(self).receiver_spec().ready_spec().take(take)
                &&& final(self).receiver_spec().ready_spec() == old(self).receiver_spec().ready_spec().skip(take)
            },
    {
        self.receiver.pop(size)
    }

    /// Folds a round-trip sample into the retransmission estimator.
    pub fn add_rto_sample(&mut self, sample: u64)
        requires
            old(self).wf(),
            sample < 0x1000_0000_0000_0000,
            old(self).rto_estimator_spec().srtt_spec() < 0x1000_0000_0000_0000,
            old(self).rto_estimator_spec().rttvar_spec() < 0x1000_0000_0000_0000,
        ensures
            final(self).wf(),
            final(self).state_spec() == old(self).state_spec(),
    {
        self.rto.add_sample(sample);
    }

    /// Backs off the retransmission timeout after a loss.
    pub fn on_retransmit_timeout(&mut self) -> (r: u64)
        requires
            old(self).wf(),
        ensures
            final(self).wf(),
            final(self).rto_estimator_spec().wf(),
            r == final(self).rto_estimator_spec().rto_spec(),
            final(self).rto_estimator_spec().rto_spec() == (if 2 * old(self).rto_estimator_spec().rto_spec() > RTO_MAX_USEC {
                RTO_MAX_USEC as int
            } else {
                2 * old(self).rto_estimator_spec().rto_spec()
            }),
            final(self).state_spec() == old(self).state_spec(),
    {
        self.rto.on_timeout();
        self.rto.rto()
    }
}

} // verus!
