use canal::kernel::{launch, Kernel};
use canal::repl::{mock_execute, ReplError};
use canal::{KernelRequest, KernelResponse};

fn execute(id: u32, code: &str) -> KernelRequest {
    KernelRequest::Execute { message_id: id, code: code.to_string() }
}

/// Drives one dispatcher round: pulls the queue head, runs the mock REPL on
/// it, and labels it with the outcome.  Returns the bytes the REPL streamed.
/// `interrupted` says whether the per-request interrupt fires while the
/// execution is suspended.
fn dispatch_one(kernel: &mut Kernel, interrupted: bool) -> Vec<u8> {
    let item = kernel.begin_exec().expect("a work item should be queued");
    let (output, outcome) = mock_execute(item.code.as_bytes(), interrupted);
    kernel.finish_exec(outcome);
    output
}

/// Drives the watcher and the dispatcher's drain branch once each.
fn drain(kernel: &mut Kernel) -> usize {
    let info = kernel.watch_cancellation();
    assert!(info.is_some(), "cancellation should be pending");
    kernel.drain_cancelled()
}

#[test]
fn kernel_processes_a_message_succesfully() {
    let mut kernel = launch(10);
    kernel.process_request(execute(1, "1"));

    let output = dispatch_one(&mut kernel, false);

    assert_eq!(output, b"1".to_vec());
    assert_eq!(kernel.responses, vec![KernelResponse::Success(1)]);
}

#[test]
fn kernel_processes_multiple_messages_succesfully() {
    let mut kernel = launch(10);
    kernel.process_request(execute(1, "1"));
    kernel.process_request(execute(2, "2"));

    let output1 = dispatch_one(&mut kernel, false);
    let output2 = dispatch_one(&mut kernel, false);

    assert_eq!(output1, b"1".to_vec());
    assert_eq!(output2, b"2".to_vec());
    assert_eq!(kernel.responses, vec![KernelResponse::Success(1), KernelResponse::Success(2)]);
}

#[test]
fn kernel_returns_an_error_when_interupted() {
    let mut kernel = launch(10);
    kernel.process_request(execute(99, "expensive"));

    // The request is already in flight when the interrupt arrives, so the
    // per-request cancellation wins the race inside the REPL.
    let item = kernel.begin_exec().expect("the request should be queued");
    kernel.process_request(KernelRequest::Interrupt);
    let (output, outcome) = mock_execute(item.code.as_bytes(), true);
    kernel.finish_exec(outcome);

    assert_eq!(output, b"partial...".to_vec());
    assert_eq!(kernel.responses, vec![KernelResponse::Cancelled(99)]);
}

#[test]
fn kernel_drops_all_exec_message_in_queue_when_interupted() {
    let mut kernel = launch(10);
    kernel.process_request(execute(99, "expensive"));
    kernel.process_request(execute(2, "2"));
    kernel.process_request(execute(3, "3"));

    let item = kernel.begin_exec().expect("the first request should be queued");
    kernel.process_request(KernelRequest::Interrupt);
    let (output, outcome) = mock_execute(item.code.as_bytes(), true);
    kernel.finish_exec(outcome);
    let drained = drain(&mut kernel);

    assert_eq!(output, b"partial...".to_vec());
    assert_eq!(drained, 2);
    assert_eq!(
        kernel.responses,
        vec![
            KernelResponse::Cancelled(99),
            KernelResponse::Cancelled(2),
            KernelResponse::Cancelled(3),
        ]
    );
}

#[test]
fn kernel_returns_an_error_when_the_code_is_buggy() {
    let mut kernel = launch(10);
    kernel.process_request(execute(99, "buggy"));

    let output = dispatch_one(&mut kernel, false);

    assert_eq!(output, b"error".to_vec());
    assert_eq!(kernel.responses, vec![KernelResponse::Failed(99)]);
}

#[test]
fn kernel_drops_all_exec_message_in_queue_when_the_code_is_buggy() {
    let mut kernel = launch(10);
    kernel.process_request(execute(99, "buggy"));
    kernel.process_request(execute(2, "2"));
    kernel.process_request(execute(3, "3"));

    let output = dispatch_one(&mut kernel, false);
    let drained = drain(&mut kernel);

    assert_eq!(output, b"error".to_vec());
    assert_eq!(drained, 2);
    assert_eq!(
        kernel.responses,
        vec![
            KernelResponse::Failed(99),
            KernelResponse::Cancelled(2),
            KernelResponse::Cancelled(3),
        ]
    );
}

#[test]
fn kernel_applies_backpressure_at_capacity() {
    let mut kernel = launch(2);
    assert!(kernel.can_admit());
    kernel.process_request(execute(1, "1"));
    kernel.process_request(execute(2, "2"));

    // Two requests are live: a third submission must wait.
    assert!(!kernel.can_admit());
    assert_eq!(kernel.live_count(), 2);

    // Admission stays blocked while the first request is merely in flight,
    // and reopens once its response is emitted.
    let item = kernel.begin_exec().expect("the first request should be queued");
    assert!(!kernel.can_admit());
    let (_, outcome) = mock_execute(item.code.as_bytes(), false);
    kernel.finish_exec(outcome);
    assert!(kernel.can_admit());
    kernel.process_request(execute(3, "3"));
    assert_eq!(kernel.live_count(), 2);
}

#[test]
fn kernel_cancels_requests_admitted_after_an_interrupt() {
    let mut kernel = launch(10);
    kernel.process_request(KernelRequest::Interrupt);
    kernel.process_request(execute(7, "7"));

    let drained = drain(&mut kernel);

    assert_eq!(drained, 1);
    assert_eq!(kernel.responses, vec![KernelResponse::Cancelled(7)]);
}

#[test]
fn kernel_watcher_publishes_once_per_notice() {
    let mut kernel = launch(10);
    kernel.process_request(execute(1, "1"));
    kernel.process_request(KernelRequest::Interrupt);

    // The notification slot holds one count until the dispatcher drains.
    assert_eq!(kernel.watch_cancellation(), Some(1));
    assert_eq!(kernel.watch_cancellation(), None);
    assert_eq!(kernel.drain_cancelled(), 1);

    // After the drain the watcher may publish again; nothing is live.
    assert_eq!(kernel.watch_cancellation(), Some(0));
    assert_eq!(kernel.drain_cancelled(), 0);
    assert_eq!(kernel.responses, vec![KernelResponse::Cancelled(1)]);
}

#[test]
fn kernel_success_is_reported_only_for_completed_work() {
    let mut kernel = launch(10);
    kernel.process_request(execute(5, "print"));

    // The REPL finished this one before any interrupt: Success is owed.
    let item = kernel.begin_exec().expect("the request should be queued");
    let (output, outcome) = mock_execute(item.code.as_bytes(), false);
    assert_eq!(outcome, Ok(()));
    kernel.finish_exec(outcome);
    assert_eq!(output, b"print".to_vec());
    assert_eq!(kernel.responses, vec![KernelResponse::Success(5)]);
    assert_eq!(kernel.responses[0].id(), 5);
}

#[test]
fn repl_error_descriptions() {
    assert_eq!(ReplError::Failed.describe(), "Execution failed");
    assert_eq!(ReplError::Interrupted.describe(), "Execution was interrupted");
}
