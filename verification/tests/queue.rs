use state_manager::messages::{Request, RequestOrResponse, Response};
use state_manager::queue::input::InputQueue;
use state_manager::queue::{QueueWithReservation, StateError};
use std::sync::Arc;

fn request(payment: u128) -> RequestOrResponse {
    RequestOrResponse::Request(Arc::new(Request {
        receiver: 1,
        sender: 2,
        sender_reply_callback: 3,
        payment,
        method_name: "m".to_string(),
        method_payload: vec![1, 2, 3],
    }))
}

fn response(refund: u128) -> RequestOrResponse {
    RequestOrResponse::Response(Arc::new(Response {
        originator: 2,
        respondent: 1,
        originator_reply_callback: 3,
        refund,
        response_payload: vec![4, 5],
    }))
}

#[test]
fn queue_with_reservation_is_bounded() {
    let mut q: QueueWithReservation<u32> = QueueWithReservation::new(2);
    assert_eq!(q.available_slots(), 2);
    assert_eq!(q.check_has_slot(), Ok(()));
    assert!(!q.has_used_slots());
    assert_eq!(q.push(1), Ok(()));
    assert_eq!(q.reserve_slot(), Ok(()));
    assert_eq!(q.available_slots(), 0);
    assert_eq!(q.reserved_slots(), 1);
    assert!(q.has_used_slots());
    assert_eq!(q.check_has_slot(), Err(StateError::QueueFull { capacity: 2 }));
    assert_eq!(q.push(2), Err((StateError::QueueFull { capacity: 2 }, 2)));
    assert_eq!(q.reserve_slot(), Err(StateError::QueueFull { capacity: 2 }));
    assert_eq!(q.push_into_reserved_slot(3), Ok(()));
    assert_eq!(q.reserved_slots(), 0);
    assert_eq!(q.push_into_reserved_slot(4), Err((StateError::QueueFull { capacity: 0 }, 4)));
    assert_eq!(q.peek(), Some(&1));
    assert_eq!(q.calculate_stat_sum(|x| *x as usize * 10), 40);
    assert_eq!(q.pop(), Some(1));
    assert_eq!(q.pop(), Some(3));
    assert_eq!(q.pop(), None);
    assert_eq!(q.peek(), None);
    assert_eq!(q.available_slots(), 2);
    assert_eq!(q.calculate_stat_sum(|x| *x as usize), 0);
    assert_eq!(q.capacity(), 2);
    assert_eq!(q.num_items(), 0);
}

#[test]
fn queue_of_capacity_zero_takes_nothing() {
    let mut q: QueueWithReservation<u32> = QueueWithReservation::new(0);
    assert_eq!(q.push(1), Err((StateError::QueueFull { capacity: 0 }, 1)));
    assert_eq!(q.reserve_slot(), Err(StateError::QueueFull { capacity: 0 }));
    assert_eq!(q.available_slots(), 0);
}

#[test]
fn input_queue_takes_responses_only_into_reserved_slots() {
    let mut q = InputQueue::new(2);
    assert_eq!(q.push(response(1)), Err((StateError::QueueFull { capacity: 0 }, response(1))));
    assert_eq!(q.reserve_slot(), Ok(()));
    assert_eq!(q.push(request(10)), Ok(()));
    assert_eq!(q.push(request(20)), Err((StateError::QueueFull { capacity: 2 }, request(20))));
    assert_eq!(q.check_has_slot(), Err(StateError::QueueFull { capacity: 2 }));
    assert_eq!(q.push(response(5)), Ok(()));
    assert_eq!(q.num_messages(), 2);
    assert_eq!(q.reserved_slots(), 0);
    assert_eq!(q.available_slots(), 0);
    assert!(q.has_used_slots());
    assert_eq!(q.cycles_in_queue(), 15);
    assert_eq!(q.calculate_stat_sum(|m| if m.is_request() { 1 } else { 100 }), 101);
    assert_eq!(q.peek(), Some(&request(10)));
    assert_eq!(q.pop(), Some(request(10)));
    assert_eq!(q.pop(), Some(response(5)));
    assert_eq!(q.pop(), None);
    assert_eq!(q.cycles_in_queue(), 0);
}

#[test]
fn cycles_in_queue_do_not_overflow() {
    let mut q = InputQueue::new(3);
    assert_eq!(q.push(request(u128::MAX - 1)), Ok(()));
    assert_eq!(q.push(request(5)), Ok(()));
    assert_eq!(q.cycles_in_queue(), u128::MAX);
    assert_eq!(request(7).cycles(), 7);
    assert_eq!(response(8).cycles(), 8);
}

use state_manager::queue::ingress::IngressQueue;
use state_manager::queue::output::OutputQueue;

fn req(payment: u128) -> Arc<Request> {
    Arc::new(Request {
        receiver: 1,
        sender: 2,
        sender_reply_callback: 3,
        payment,
        method_name: "m".to_string(),
        method_payload: vec![],
    })
}

fn resp(refund: u128) -> Arc<Response> {
    Arc::new(Response {
        originator: 2,
        respondent: 1,
        originator_reply_callback: 3,
        refund,
        response_payload: vec![],
    })
}

#[test]
fn output_queue_pops_in_order() {
    let mut q = OutputQueue::new(4);
    assert_eq!(q.pop(), None);
    assert_eq!(q.peek(), None);
    assert_eq!(q.push_request(req(1), 10), Ok(()));
    assert_eq!(q.reserve_slot(), Ok(()));
    q.push_response(resp(2));
    assert_eq!(q.push_request(req(3), 20), Ok(()));
    assert_eq!(q.num_messages(), 3);
    assert_eq!(q.available_slots(), 1);
    assert_eq!(q.cycles_in_queue(), 6);
    assert_eq!(q.calculate_stat_sum(|m| m.cycles() as usize * 2), 12);
    assert_eq!(q.peek(), Some(&RequestOrResponse::Request(req(1))));
    assert_eq!(q.pop(), Some(RequestOrResponse::Request(req(1))));
    assert_eq!(q.pop(), Some(RequestOrResponse::Response(resp(2))));
    assert_eq!(q.pop(), Some(RequestOrResponse::Request(req(3))));
    assert_eq!(q.pop(), None);
    assert_eq!(q.num_messages(), 0);
    assert!(!q.has_used_slots());
    assert!(!q.has_expired_deadlines(u64::MAX));
}

#[test]
fn output_queue_is_bounded() {
    let mut q = OutputQueue::new(1);
    assert_eq!(q.push_request(req(1), 10), Ok(()));
    assert_eq!(q.push_request(req(2), 10), Err((StateError::QueueFull { capacity: 1 }, req(2))));
    assert_eq!(q.check_has_slot(), Err(StateError::QueueFull { capacity: 1 }));
    assert_eq!(q.reserve_slot(), Err(StateError::QueueFull { capacity: 1 }));
    assert_eq!(q.reserved_slots(), 0);
}

#[test]
fn output_queue_times_out_requests_in_order() {
    let mut q = OutputQueue::new(10);
    assert_eq!(q.push_request(req(1), 10), Ok(()));
    assert_eq!(q.reserve_slot(), Ok(()));
    q.push_response(resp(2));
    assert_eq!(q.push_request(req(3), 10), Ok(()));
    assert_eq!(q.push_request(req(4), 20), Ok(()));
    assert_eq!(q.push_request(req(5), 30), Ok(()));
    assert!(!q.has_expired_deadlines(9));
    assert_eq!(q.time_out_next_request(9), None);
    assert!(q.has_expired_deadlines(10));
    // The first request times out: the response gets to the front.
    assert_eq!(q.time_out_next_request(25), Some(req(1)));
    assert_eq!(q.peek(), Some(&RequestOrResponse::Response(resp(2))));
    assert_eq!(q.num_messages(), 4);
    assert_eq!(q.time_out_next_request(25), Some(req(3)));
    assert_eq!(q.time_out_next_request(25), Some(req(4)));
    assert_eq!(q.time_out_next_request(25), None);
    assert!(!q.has_expired_deadlines(25));
    assert_eq!(q.num_messages(), 2);
    assert_eq!(q.cycles_in_queue(), 7);
    // The empty slots leave with the message before them.
    assert_eq!(q.pop(), Some(RequestOrResponse::Response(resp(2))));
    assert_eq!(q.peek(), Some(&RequestOrResponse::Request(req(5))));
    assert_eq!(q.available_slots(), 9);
    assert_eq!(q.time_out_next_request(30), Some(req(5)));
    assert_eq!(q.pop(), None);
    assert_eq!(q.num_messages(), 0);
    assert_eq!(q.available_slots(), 10);
}

#[test]
fn output_queue_keeps_the_later_deadline_of_a_range() {
    let mut q = OutputQueue::new(10);
    assert_eq!(q.push_request(req(1), 20), Ok(()));
    // A request with an earlier deadline joins the range of the one before.
    assert_eq!(q.push_request(req(2), 10), Ok(()));
    assert_eq!(q.time_out_next_request(15), None);
    assert_eq!(q.time_out_next_request(20), Some(req(1)));
    assert_eq!(q.time_out_next_request(20), Some(req(2)));
    assert_eq!(q.time_out_next_request(20), None);
    assert_eq!(q.num_messages(), 0);
}

#[test]
fn output_queue_does_not_time_out_what_was_popped() {
    let mut q = OutputQueue::new(10);
    assert_eq!(q.push_request(req(1), 10), Ok(()));
    assert_eq!(q.push_request(req(2), 10), Ok(()));
    assert_eq!(q.pop(), Some(RequestOrResponse::Request(req(1))));
    assert_eq!(q.time_out_next_request(10), Some(req(2)));
    assert_eq!(q.time_out_next_request(10), None);
    assert_eq!(q.pop(), None);
}

#[test]
fn ingress_queue_keeps_its_size() {
    let mut q: IngressQueue<&str> = IngressQueue::new();
    assert!(q.is_empty());
    assert_eq!(q.count_bytes(), 0);
    q.push("a", 10);
    q.push("bb", 20);
    q.push("ccc", 30);
    assert_eq!(q.size(), 3);
    assert_eq!(q.count_bytes(), 60);
    assert_eq!(q.peek(), Some(&"a"));
    q.filter_messages(|m| m.len() != 2);
    assert_eq!(q.size(), 2);
    assert_eq!(q.count_bytes(), 40);
    assert_eq!(q.pop(), Some("a"));
    assert_eq!(q.count_bytes(), 30);
    assert_eq!(q.pop(), Some("ccc"));
    assert_eq!(q.pop(), None);
    assert_eq!(q.count_bytes(), 0);
    assert!(q.is_empty());
}

use state_manager::queue::output::OutputQueueViolation;
use state_manager::queue::{check_size, QueueDecodeError};
use std::collections::VecDeque;

#[test]
fn queue_size_is_checked_when_a_queue_is_read() {
    assert_eq!(check_size(500, 3, 4, 500), Ok(()));
    assert_eq!(check_size(500, 496, 4, 500), Ok(()));
    assert_eq!(
        check_size(500, 497, 4, 500),
        Err(QueueDecodeError::OverCapacity { message_count: 497, reserved_slots: 4, capacity: 500 })
    );
    assert_eq!(
        check_size(7, 0, 0, 500),
        Err(QueueDecodeError::WrongCapacity { capacity: 7, expected: 500 })
    );
    assert_eq!(
        check_size(500, 1, u64::MAX, 500),
        Err(QueueDecodeError::OverCapacity {
            message_count: 1,
            reserved_slots: u64::MAX,
            capacity: 500
        })
    );
    let q = QueueWithReservation::from_parts(VecDeque::from(vec![1u8, 2]), 5, 1, 5).unwrap();
    assert_eq!((q.num_items(), q.reserved_slots(), q.available_slots()), (2, 1, 2));
    assert!(QueueWithReservation::from_parts(VecDeque::from(vec![1u8, 2]), 5, 4, 5).is_err());
}

#[test]
fn input_queue_is_read_without_deadlines() {
    let messages = VecDeque::from(vec![request(1), response(2)]);
    let q = InputQueue::from_parts(messages.clone(), 4, 1, 0, 0, 4).unwrap();
    assert_eq!((q.num_messages(), q.reserved_slots(), q.capacity()), (2, 1, 4));
    assert_eq!(q.message(1), &response(2));
    assert_eq!(
        InputQueue::from_parts(messages.clone(), 4, 1, 1, 0, 4).err(),
        Some(QueueDecodeError::DeadlinesOnInputQueue)
    );
    assert_eq!(
        InputQueue::from_parts(messages.clone(), 4, 1, 0, 7, 4).err(),
        Some(QueueDecodeError::DeadlinesOnInputQueue)
    );
    assert_eq!(
        InputQueue::from_parts(messages, 4, 3, 0, 0, 4).err(),
        Some(QueueDecodeError::OverCapacity { message_count: 2, reserved_slots: 3, capacity: 4 })
    );
}

fn slots() -> VecDeque<Option<RequestOrResponse>> {
    VecDeque::from(vec![Some(response(1)), None, Some(request(2)), Some(request(3))])
}

fn invalid(violation: OutputQueueViolation) -> Option<QueueDecodeError> {
    Some(QueueDecodeError::InvalidOutputQueue(violation))
}

#[test]
fn output_queue_is_read_back_as_it_was() {
    let deadlines = VecDeque::from(vec![(10, 13), (20, 14)]);
    let mut q = OutputQueue::from_parts(slots(), 8, 1, 10, deadlines, 12, 8).unwrap();
    assert_eq!((q.begin(), q.timeout_index(), q.num_slots(), q.num_messages()), (10, 12, 4, 3));
    assert_eq!((q.capacity(), q.reserved_slots(), q.available_slots()), (8, 1, 3));
    assert_eq!(q.num_deadline_ranges(), 2);
    assert_eq!(q.deadline_range(1), (20, 14));
    assert_eq!(q.slot(1), &None);
    assert_eq!(q.slot(2), &Some(request(2)));
    assert_eq!(q.time_out_next_request(10).map(RequestOrResponse::Request), Some(request(2)));
    assert_eq!(q.time_out_next_request(10), None);
    assert_eq!(q.timeout_index(), 13);
    assert_eq!(q.pop(), Some(response(1)));
    // The empty slots of the timed out request and before it are gone.
    assert_eq!(q.begin(), 13);
    assert_eq!(q.peek(), Some(&request(3)));
}

#[test]
fn output_queue_parts_that_do_not_fit_are_refused() {
    let ok = || VecDeque::from(vec![(10u64, 13usize), (20, 14)]);
    let read = |slots, begin, deadlines, timeout_index| {
        OutputQueue::from_parts(slots, 8, 1, begin, deadlines, timeout_index, 8).err()
    };
    let mut empty_front = slots();
    empty_front[0] = None;
    assert_eq!(read(empty_front, 10, ok(), 12), invalid(OutputQueueViolation::NoneAtFront));
    assert_eq!(
        read(slots(), 10, VecDeque::from(vec![(10, 13), (10, 14)]), 12),
        invalid(OutputQueueViolation::DeadlinesNotSorted)
    );
    assert_eq!(
        read(slots(), 10, VecDeque::from(vec![(10, 14), (20, 13)]), 12),
        invalid(OutputQueueViolation::DeadlinesNotSorted)
    );
    assert_eq!(
        read(slots(), usize::MAX - 2, ok(), 12),
        invalid(OutputQueueViolation::EndOverflow)
    );
    assert_eq!(
        read(slots(), 13, ok(), 12),
        invalid(OutputQueueViolation::DeadlineRangeEndBeforeBegin)
    );
    assert_eq!(
        read(slots(), 10, ok(), 13),
        invalid(OutputQueueViolation::DeadlineRangeEndBeforeTimeoutIndex)
    );
    assert_eq!(
        read(slots(), 10, VecDeque::from(vec![(10, 13), (20, 15)]), 12),
        invalid(OutputQueueViolation::DeadlineRangeEndAfterEnd)
    );
    assert_eq!(
        read(slots(), 10, VecDeque::new(), 15),
        invalid(OutputQueueViolation::TimeoutIndexAfterEnd)
    );
    assert_eq!(
        read(slots(), 10, VecDeque::new(), 13),
        invalid(OutputQueueViolation::RequestBeforeTimeoutIndex)
    );
    assert_eq!(
        read(slots(), 10, VecDeque::new(), 12).map(|_| ()),
        None
    );
    assert_eq!(
        OutputQueue::from_parts(slots(), 8, 5, 10, ok(), 12, 8).err(),
        Some(QueueDecodeError::OverCapacity { message_count: 4, reserved_slots: 5, capacity: 8 })
    );
    assert_eq!(
        OutputQueueViolation::NoneAtFront.message(),
        "`None` at the beginning of the queue."
    );
    assert_eq!(OutputQueueViolation::DeadlinesNotSorted.message(), "Deadline ranges not sorted.");
}
