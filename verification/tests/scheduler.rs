use bacnet_stack::error::ErrorCode;
use bacnet_stack::scheduler::{Dispatch, WorkPriority, WorkScheduler};

const NOW: u64 = 50_000;

#[test]
fn bounded_queue_reports_backpressure_and_supports_cancellation() {
    let now = NOW;
    let mut scheduler = WorkScheduler::new(2, 2).unwrap();
    let first = scheduler
        .enqueue(WorkPriority::Background, now + 1_000, 1)
        .unwrap();
    scheduler
        .enqueue(WorkPriority::Foreground, now + 1_000, 2)
        .unwrap();
    assert_eq!(
        scheduler
            .enqueue(WorkPriority::Poll, now + 1_000, 3)
            .unwrap_err()
            .code,
        ErrorCode::Backpressure
    );
    assert_eq!(scheduler.cancel(first).unwrap().payload, 1);
    assert!(scheduler.cancel(first).is_none());
}

#[test]
fn foreground_preempts_but_cannot_starve_lower_lanes() {
    let now = NOW;
    let deadline = now + 1_000;
    let mut scheduler = WorkScheduler::new(8, 2).unwrap();
    scheduler
        .enqueue(WorkPriority::Background, deadline, "background")
        .unwrap();
    for _ in 0..4 {
        scheduler
            .enqueue(WorkPriority::Foreground, deadline, "foreground")
            .unwrap();
    }
    let payloads = (0..3)
        .map(|_| match scheduler.next(now).unwrap() {
            Dispatch::Ready(item) => item.payload,
            Dispatch::Expired(_) => panic!("unexpected expiry"),
        })
        .collect::<Vec<_>>();
    assert_eq!(payloads, vec!["foreground", "foreground", "background"]);
}

#[test]
fn elapsed_deadline_is_returned_expired_without_execution() {
    let now = NOW;
    let mut scheduler = WorkScheduler::new(1, 1).unwrap();
    scheduler.enqueue(WorkPriority::Poll, now - 1, 7).unwrap();
    assert!(matches!(scheduler.next(now), Some(Dispatch::Expired(item)) if item.payload == 7));
    assert!(scheduler.is_empty());
}

#[test]
fn zero_capacity_or_burst_is_invalid_config() {
    assert_eq!(
        WorkScheduler::<u8>::new(0, 1).err().unwrap().code,
        ErrorCode::InvalidConfig
    );
    assert_eq!(
        WorkScheduler::<u8>::new(1, 0).err().unwrap().code,
        ErrorCode::InvalidConfig
    );
}

#[test]
fn lanes_dispatch_in_priority_order_after_burst_resets() {
    let mut scheduler = WorkScheduler::new(8, 1).unwrap();
    scheduler.enqueue(WorkPriority::Discovery, NOW + 10, "discovery").unwrap();
    scheduler.enqueue(WorkPriority::Poll, NOW + 10, "poll").unwrap();
    scheduler.enqueue(WorkPriority::Foreground, NOW + 10, "fg1").unwrap();
    scheduler.enqueue(WorkPriority::Foreground, NOW + 10, "fg2").unwrap();
    let mut order = Vec::new();
    while let Some(Dispatch::Ready(item)) = scheduler.next(NOW) {
        order.push(item.payload);
    }
    assert_eq!(order, vec!["fg1", "poll", "fg2", "discovery"]);
    assert_eq!(scheduler.len(), 0);
}

#[test]
fn deadline_equal_to_now_counts_as_expired() {
    let mut scheduler = WorkScheduler::new(2, 1).unwrap();
    scheduler.enqueue(WorkPriority::Background, NOW, 1).unwrap();
    assert!(matches!(scheduler.next(NOW), Some(Dispatch::Expired(item)) if item.payload == 1));
}

#[test]
fn drain_returns_everything_in_lane_order() {
    let mut scheduler = WorkScheduler::new(4, 2).unwrap();
    scheduler.enqueue(WorkPriority::Background, NOW + 1, 4).unwrap();
    scheduler.enqueue(WorkPriority::Foreground, NOW + 1, 1).unwrap();
    scheduler.enqueue(WorkPriority::Poll, NOW + 1, 2).unwrap();
    let drained: Vec<i32> = scheduler.drain().into_iter().map(|item| item.payload).collect();
    assert_eq!(drained, vec![1, 2, 4]);
    assert!(scheduler.is_empty());
}

#[test]
fn full_scheduler_names_its_capacity() {
    let mut scheduler = WorkScheduler::new(1, 1).unwrap();
    scheduler.enqueue(WorkPriority::Poll, NOW, 1).unwrap();
    let error = scheduler.enqueue(WorkPriority::Poll, NOW, 2).unwrap_err();
    assert_eq!(error.message, "runtime scheduler capacity 1 is full");
    assert!(error.retryable);
}

#[test]
fn length_counts_accepted_less_removed_items() {
    let mut scheduler = WorkScheduler::new(3, 2).unwrap();
    let a = scheduler.enqueue(WorkPriority::Poll, NOW + 10, 1u8).unwrap();
    scheduler.enqueue(WorkPriority::Foreground, NOW + 10, 2u8).unwrap();
    scheduler.enqueue(WorkPriority::Background, NOW + 10, 3u8).unwrap();
    assert!(scheduler.enqueue(WorkPriority::Poll, NOW + 10, 4u8).is_err());
    assert_eq!(scheduler.len(), 3);
    assert!(scheduler.cancel(a).is_some());
    assert!(scheduler.cancel(a).is_none());
    assert_eq!(scheduler.len(), 2);
    assert!(scheduler.next(NOW).is_some());
    assert_eq!(scheduler.len(), 1);
    assert_eq!(scheduler.drain().len(), 1);
    assert_eq!(scheduler.len(), 0);
    assert!(scheduler.next(NOW).is_none());
}
