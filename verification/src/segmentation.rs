//! Reassembly decisions for segmented ConfirmedRequests received by the
//! server (Clause 5.4.5).
//!
//! The dispatch loop owns the sessions, the saved segment payloads and the
//! I/O; for each segment it asks [`plan_segment`] what to do, saves the
//! payload when told to, and hands the outcome to [`accept_segment`], which
//! advances the session's window and decides whether to acknowledge and
//! whether the request is complete.

use vstd::prelude::*;

verus! {

/// Why a segment is answered with an Abort.
#[derive(Clone, Copy, Debug, PartialEq, Eq, Structural)]
pub enum SegmentAbort {
    /// This device does not receive segmented requests.
    SegmentationNotSupported,
    /// The reassembly capacity is exceeded or a segment cannot be saved.
    BufferOverflow,
    /// The proposed window size is outside 1..=127.
    WindowSizeOutOfRange,
    /// A non-initial segment arrived without a session.
    InvalidApduInThisState,
    /// New sessions are refused (global capacity or peer quota), with the
    /// abort reason the admission rule chose.
    Refused(u8),
}

/// Reassembly state of one segmented request.
#[derive(Clone, Copy, Debug)]
pub struct SegmentSession {
    expected_seq: u8,
    initial_sequence_number: u8,
    duplicate_count: u32,
    last_acked_seq: u8,
    window_pos: u8,
    actual_window_size: u8,
    accepted_segments: usize,
}

/// A SegmentAck the server sends.
#[derive(Clone, Copy, Debug, PartialEq, Eq, Structural)]
pub struct SegmentAckPlan {
    /// Sequence number acknowledged.
    pub sequence_number: u8,
    /// Window size granted.
    pub actual_window_size: u8,
}

/// What to do with a received segment before its payload is saved.
#[derive(Clone, Copy, Debug, PartialEq, Eq, Structural)]
pub enum SegmentPlan {
    /// Answer with an Abort; drop the live session when `drop_session`.
    Abort {
        /// Abort reason.
        reason: SegmentAbort,
        /// Whether the live session ends.
        drop_session: bool,
    },
    /// A duplicate or out-of-order segment of the live session.
    OutOfOrder,
    /// Save the segment as the next one of its session (a new session when
    /// there is none), then call [`accept_segment`].
    Save,
}

/// Outcome of an in-order segment.
#[derive(Clone, Copy, Debug, PartialEq, Eq, Structural)]
pub enum SegmentOutcome {
    /// The segment could not be saved; abort and drop the session.
    Abort(SegmentAbort),
    /// Accepted; acknowledge when `ack` is given; the request is complete
    /// with `complete` segments when given, and its session then ends.
    Accepted {
        /// Acknowledgement to send.
        ack: Option<SegmentAckPlan>,
        /// Total segment count of a completed request.
        complete: Option<usize>,
    },
}

impl SegmentSession {
    /// Sequence number expected next.
    pub closed spec fn expected_view(&self) -> u8 {
        self.expected_seq
    }

    /// Segments accepted so far.
    pub closed spec fn accepted_view(&self) -> nat {
        self.accepted_segments as nat
    }

    /// Position within the current window.
    pub closed spec fn window_pos_view(&self) -> u8 {
        self.window_pos
    }

    /// Window size granted to the sender.
    pub closed spec fn window_view(&self) -> u8 {
        self.actual_window_size
    }

    /// Last sequence number acknowledged.
    pub closed spec fn last_acked_view(&self) -> u8 {
        self.last_acked_seq
    }

    /// Duplicates seen since the last acknowledgement.
    pub closed spec fn duplicates_view(&self) -> u32 {
        self.duplicate_count
    }

    /// First sequence number of the current window.
    pub closed spec fn window_start_view(&self) -> u8 {
        self.initial_sequence_number
    }

    #[verifier::type_invariant]
    closed spec fn inv(&self) -> bool {
        &&& 1 <= self.actual_window_size <= 127
        &&& self.window_pos < self.actual_window_size
        &&& self.accepted_segments >= 1
        &&& self.expected_seq == self.accepted_segments % 256
    }

    /// Sequence number expected next.
    pub fn expected_seq(&self) -> (r: u8)
        ensures
            r == self.expected_view(),
            r == self.accepted_view() % 256,
    {
        proof {
            use_type_invariant(self);
        }
        self.expected_seq
    }

    /// Segments accepted so far.
    pub fn accepted_segments(&self) -> (r: usize)
        ensures
            r == self.accepted_view(),
            r >= 1,
    {
        proof {
            use_type_invariant(self);
        }
        self.accepted_segments
    }

    /// Window size granted to the sender.
    pub fn actual_window_size(&self) -> (r: u8)
        ensures
            r == self.window_view(),
            1 <= r <= 127,
            self.window_pos_view() < r,
    {
        proof {
            use_type_invariant(self);
        }
        self.actual_window_size
    }

    /// Position within the current window.
    pub fn window_pos(&self) -> (r: u8)
        ensures
            r == self.window_pos_view(),
    {
        self.window_pos
    }

    /// Records a duplicate segment.
    pub fn note_duplicate(&mut self)
        ensures
            final(self).duplicates_view() == (if old(self).duplicates_view() == u32::MAX {
                u32::MAX
            } else {
                (old(self).duplicates_view() + 1) as u32
            }),
            final(self).expected_view() == old(self).expected_view(),
            final(self).accepted_view() == old(self).accepted_view(),
            final(self).window_pos_view() == old(self).window_pos_view(),
            final(self).window_view() == old(self).window_view(),
            final(self).last_acked_view() == old(self).last_acked_view(),
            final(self).window_start_view() == old(self).window_start_view(),
    {
        proof {
            use_type_invariant(&*self);
        }
        self.duplicate_count = self.duplicate_count.saturating_add(1);
    }
}

/// Whether a proposed window size is allowed.
pub open spec fn window_size_valid(w: Option<u8>) -> bool {
    w matches Some(x) && 1 <= x <= 127
}

/// Plan for a segment with sequence number `seq`: `live` is the session of
/// its transaction, `refusal` the admission rule's answer to a new session.
pub open spec fn segment_plan(
    live: Option<SegmentSession>,
    receives_segments: bool,
    seq: u8,
    proposed_window_size: Option<u8>,
    max_segments: usize,
    refusal: Option<u8>,
) -> SegmentPlan {
    if !receives_segments {
        SegmentPlan::Abort { reason: SegmentAbort::SegmentationNotSupported, drop_session: false }
    } else {
        match live {
            Some(s) => if seq != s.expected_view() {
                SegmentPlan::OutOfOrder
            } else if s.accepted_view() >= max_segments {
                SegmentPlan::Abort { reason: SegmentAbort::BufferOverflow, drop_session: true }
            } else {
                SegmentPlan::Save
            },
            None => if seq != 0 {
                SegmentPlan::Abort { reason: SegmentAbort::InvalidApduInThisState, drop_session: false }
            } else if !window_size_valid(proposed_window_size) {
                SegmentPlan::Abort { reason: SegmentAbort::WindowSizeOutOfRange, drop_session: false }
            } else {
                match refusal {
                    Some(r) => SegmentPlan::Abort { reason: SegmentAbort::Refused(r), drop_session: false },
                    None => SegmentPlan::Save,
                }
            },
        }
    }
}

/// The first segment of a request opens reassembly exactly when segmented
/// requests are received, its sequence number is 0, its proposed window is
/// 1..=127 segments and the admission rule has no objection; a window
/// outside 1..=127 is answered with a window-size abort.
pub proof fn lemma_initial_segment_admission(
    receives_segments: bool,
    seq: u8,
    proposed_window_size: Option<u8>,
    max_segments: usize,
    refusal: Option<u8>,
)
    ensures
        (segment_plan(None, receives_segments, seq, proposed_window_size, max_segments, refusal) == SegmentPlan::Save)
            <==> (receives_segments && seq == 0 && (proposed_window_size matches Some(w) && 1 <= w && w <= 127)
            && refusal is None),
        receives_segments && seq == 0 && !(proposed_window_size matches Some(w) && 1 <= w && w <= 127) ==> segment_plan(
            None,
            receives_segments,
            seq,
            proposed_window_size,
            max_segments,
            refusal,
        ) == (SegmentPlan::Abort { reason: SegmentAbort::WindowSizeOutOfRange, drop_session: false }),
{
}

/// Decides what to do with a segment of a segmented request.
pub fn plan_segment(
    live: Option<&SegmentSession>,
    receives_segments: bool,
    seq: u8,
    proposed_window_size: Option<u8>,
    max_segments: usize,
    refusal: Option<u8>,
) -> (r: SegmentPlan)
    ensures
        r == segment_plan(
            match live {
                Some(s) => Some(*s),
                None => None,
            },
            receives_segments,
            seq,
            proposed_window_size,
            max_segments,
            refusal,
        ),
{
    if !receives_segments {
        return SegmentPlan::Abort { reason: SegmentAbort::SegmentationNotSupported, drop_session: false };
    }
    match live {
        Some(s) => {
            if seq != s.expected_seq {
                SegmentPlan::OutOfOrder
            } else if s.accepted_segments >= max_segments {
                SegmentPlan::Abort { reason: SegmentAbort::BufferOverflow, drop_session: true }
            } else {
                SegmentPlan::Save
            }
        },
        None => {
            if seq != 0 {
                SegmentPlan::Abort { reason: SegmentAbort::InvalidApduInThisState, drop_session: false }
            } else {
                match proposed_window_size {
                    Some(w) if 1 <= w && w <= 127 => match refusal {
                        Some(r) => SegmentPlan::Abort { reason: SegmentAbort::Refused(r), drop_session: false },
                        None => SegmentPlan::Save,
                    },
                    _ => SegmentPlan::Abort { reason: SegmentAbort::WindowSizeOutOfRange, drop_session: false },
                }
            }
        },
    }
}

/// Whether an accepted segment is acknowledged: the last one, or the one
/// that fills the window.
pub open spec fn acks(more_follows: bool, window_pos: int, window: int) -> bool {
    !more_follows || window_pos >= window
}

/// Advances reassembly by the in-order segment `seq` that [`plan_segment`]
/// said to save; `saved` tells whether saving it succeeded. `live` is the
/// session (`None` for the initial segment, which opens a session with the
/// proposed window `window`). Returns the session that lives on (none once
/// the request is complete or aborted) and the outcome.
pub fn accept_segment(
    live: Option<SegmentSession>,
    seq: u8,
    more_follows: bool,
    window: u8,
    saved: bool,
) -> (r: (Option<SegmentSession>, SegmentOutcome))
    requires
        live is None ==> seq == 0 && 1 <= window <= 127,
        live matches Some(s) ==> seq == s.expected_view() && s.accepted_view() < usize::MAX,
    ensures
        !saved ==> r == (None::<SegmentSession>, SegmentOutcome::Abort(SegmentAbort::BufferOverflow)),
        saved ==> ({
            let accepted = match live {
                Some(s) => s.accepted_view() + 1,
                None => 1,
            };
            let win = match live {
                Some(s) => s.window_view() as int,
                None => window as int,
            };
            let pos = match live {
                Some(s) => s.window_pos_view() + 1,
                None => 1,
            };
            &&& r.1 matches SegmentOutcome::Accepted { ack, complete }
            &&& (ack is Some <==> acks(more_follows, pos, win))
            &&& (ack matches Some(a) ==> a.sequence_number == seq && a.actual_window_size == win)
            &&& (complete is Some <==> !more_follows)
            &&& (complete matches Some(n) ==> n == accepted)
            &&& (more_follows <==> r.0 is Some)
            &&& (r.0 matches Some(s2) ==> {
                &&& s2.accepted_view() == accepted
                &&& s2.expected_view() == accepted % 256
                &&& s2.last_acked_view() == seq
                &&& s2.window_view() == win
                &&& s2.window_pos_view() == (if acks(more_follows, pos, win) {
                    0
                } else {
                    pos
                })
            })
        }),
{
    if !saved {
        return (None, SegmentOutcome::Abort(SegmentAbort::BufferOverflow));
    }
    let (accepted0, pos0, win, isn, dup): (usize, u8, u8, u8, u32) = match live {
        Some(s) => {
            proof {
                use_type_invariant(&s);
                assert(seq as nat == s.accepted_segments % 256);
            }
            (s.accepted_segments, s.window_pos, s.actual_window_size, s.initial_sequence_number, s.duplicate_count)
        },
        None => (0, 0, window, 0, 0),
    };
    let accepted = accepted0 + 1;
    let pos = pos0 + 1;
    let expected = seq.wrapping_add(1);
    proof {
        assert(seq as nat == accepted0 % 256);
        assert(expected == accepted % 256);
    }
    let should_ack = !more_follows || pos >= win;
    let ack = if should_ack {
        Some(SegmentAckPlan { sequence_number: seq, actual_window_size: win })
    } else {
        None
    };
    let complete = if more_follows {
        None
    } else {
        Some(accepted)
    };
    let next = if more_follows {
        Some(SegmentSession {
            expected_seq: expected,
            initial_sequence_number: if should_ack {
                seq
            } else {
                isn
            },
            duplicate_count: if should_ack {
                0
            } else {
                dup
            },
            last_acked_seq: seq,
            window_pos: if should_ack {
                0
            } else {
                pos
            },
            actual_window_size: win,
            accepted_segments: accepted,
        })
    } else {
        None
    };
    (next, SegmentOutcome::Accepted { ack, complete })
}

} // verus!
