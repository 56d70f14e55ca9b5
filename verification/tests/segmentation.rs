use bacnet_stack::segmentation::{
    accept_segment, plan_segment, SegmentAbort, SegmentAckPlan, SegmentOutcome, SegmentPlan,
};

#[test]
fn device_without_segmented_reception_aborts() {
    assert_eq!(
        plan_segment(None, false, 0, Some(4), 32, None),
        SegmentPlan::Abort { reason: SegmentAbort::SegmentationNotSupported, drop_session: false }
    );
}

#[test]
fn initial_segment_checks_window_and_admission() {
    assert_eq!(
        plan_segment(None, true, 0, Some(0), 32, None),
        SegmentPlan::Abort { reason: SegmentAbort::WindowSizeOutOfRange, drop_session: false }
    );
    assert_eq!(
        plan_segment(None, true, 0, Some(128), 32, None),
        SegmentPlan::Abort { reason: SegmentAbort::WindowSizeOutOfRange, drop_session: false }
    );
    assert_eq!(
        plan_segment(None, true, 0, Some(4), 32, Some(9)),
        SegmentPlan::Abort { reason: SegmentAbort::Refused(9), drop_session: false }
    );
    assert_eq!(plan_segment(None, true, 0, Some(4), 32, None), SegmentPlan::Save);
    assert_eq!(
        plan_segment(None, true, 3, Some(4), 32, None),
        SegmentPlan::Abort { reason: SegmentAbort::InvalidApduInThisState, drop_session: false }
    );
}

#[test]
fn three_segment_request_with_window_two() {
    let (session, outcome) = accept_segment(None, 0, true, 2, true);
    assert_eq!(outcome, SegmentOutcome::Accepted { ack: None, complete: None });
    let session = session.unwrap();
    assert_eq!(session.expected_seq(), 1);
    assert_eq!(plan_segment(Some(&session), true, 1, None, 32, None), SegmentPlan::Save);
    assert_eq!(plan_segment(Some(&session), true, 0, None, 32, None), SegmentPlan::OutOfOrder);

    let (session, outcome) = accept_segment(Some(session), 1, true, 0, true);
    assert_eq!(
        outcome,
        SegmentOutcome::Accepted {
            ack: Some(SegmentAckPlan { sequence_number: 1, actual_window_size: 2 }),
            complete: None
        }
    );
    let session = session.unwrap();
    assert_eq!(session.window_pos(), 0);
    assert_eq!(session.accepted_segments(), 2);

    let (session, outcome) = accept_segment(Some(session), 2, false, 0, true);
    assert!(session.is_none());
    assert_eq!(
        outcome,
        SegmentOutcome::Accepted {
            ack: Some(SegmentAckPlan { sequence_number: 2, actual_window_size: 2 }),
            complete: Some(3)
        }
    );
}

#[test]
fn capacity_and_unsaveable_segments_abort() {
    let (session, _) = accept_segment(None, 0, true, 1, true);
    let session = session.unwrap();
    assert_eq!(
        plan_segment(Some(&session), true, 1, None, 1, None),
        SegmentPlan::Abort { reason: SegmentAbort::BufferOverflow, drop_session: true }
    );
    let (session, outcome) = accept_segment(Some(session), 1, true, 0, false);
    assert!(session.is_none());
    assert_eq!(outcome, SegmentOutcome::Abort(SegmentAbort::BufferOverflow));
}

#[test]
fn sequence_numbers_wrap_after_256_segments() {
    let (mut session, _) = accept_segment(None, 0, true, 127, true);
    for seq in 1..=256u32 {
        let s = session.unwrap();
        let seq = (seq % 256) as u8;
        assert_eq!(s.expected_seq(), seq);
        let (next, _) = accept_segment(Some(s), seq, true, 0, true);
        session = next;
    }
    let s = session.unwrap();
    assert_eq!(s.accepted_segments(), 257);
    assert_eq!(s.expected_seq(), 1);
}

#[test]
fn single_segment_request_completes_at_once() {
    let (session, outcome) = accept_segment(None, 0, false, 4, true);
    assert!(session.is_none());
    assert_eq!(
        outcome,
        SegmentOutcome::Accepted {
            ack: Some(SegmentAckPlan { sequence_number: 0, actual_window_size: 4 }),
            complete: Some(1)
        }
    );
}
