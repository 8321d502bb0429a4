use std::sync::mpsc;
use std::time::Duration;

use cc_panes::model_capacity_retry::{
    ModelCapacityRetryController, MODEL_CAPACITY_RETRY_DELAY_SECS,
};

/// What the worker of an accepted retry does once its delay has passed.
fn run_worker<F: FnOnce() -> bool>(controller: &mut ModelCapacityRetryController, retry: F) {
    let due = controller.wake();
    if controller.begins_retry(due) {
        let written = retry();
        controller.finish_retry(written);
    }
}

#[test]
fn controller_deduplicates_pending_retry_and_rearms_after_write() {
    let mut controller = ModelCapacityRetryController::new();
    let (tx, rx) = mpsc::channel();

    assert!(controller.schedule());
    assert!(!controller.schedule());
    run_worker(&mut controller, || {
        tx.send(()).expect("first retry");
        true
    });
    rx.try_recv().expect("scheduled retry");

    assert!(controller.schedule());
    run_worker(&mut controller, || {
        tx.send(()).expect("rearmed retry");
        true
    });
    rx.try_recv().expect("rearmed scheduled retry");
    controller.cancel();
}

#[test]
fn controller_cancels_delayed_retry_and_rejects_new_work() {
    let mut controller = ModelCapacityRetryController::new();
    let (tx, rx) = mpsc::channel();

    assert!(controller.schedule());
    assert!(controller.keeps_waiting());
    controller.cancel();
    assert!(!controller.keeps_waiting());
    run_worker(&mut controller, move || {
        tx.send(()).expect("cancelled retry");
        true
    });

    assert!(rx.try_recv().is_err());
    assert!(!controller.schedule());
}

#[test]
fn controller_cancels_after_retry_failure() {
    let mut controller = ModelCapacityRetryController::new();
    let (tx, rx) = mpsc::channel();

    assert!(controller.schedule());
    run_worker(&mut controller, move || {
        tx.send(()).expect("failed retry");
        false
    });
    rx.try_recv().expect("failed retry callback");

    assert!(controller.is_cancelled());
    assert!(!controller.schedule());
}

#[test]
fn production_retry_delay_is_thirty_seconds() {
    assert_eq!(
        Duration::from_secs(MODEL_CAPACITY_RETRY_DELAY_SECS),
        Duration::from_secs(30)
    );
}

#[test]
fn new_controller_is_live() {
    let controller = ModelCapacityRetryController::new();
    assert!(!controller.is_cancelled());
    assert!(controller.keeps_waiting());
}

#[test]
fn cancellation_between_wake_and_check_stops_the_retry() {
    let mut controller = ModelCapacityRetryController::new();
    assert!(controller.schedule());
    let due = controller.wake();
    assert!(due);
    assert!(controller.begins_retry(due));
    assert!(!controller.begins_retry(false));
    controller.cancel();
    assert!(!controller.begins_retry(due));
    controller.finish_retry(true);
    assert!(controller.is_cancelled());
    assert!(!controller.schedule());
}

#[test]
fn retry_can_be_scheduled_while_the_last_one_is_being_made() {
    let mut controller = ModelCapacityRetryController::new();
    assert!(controller.schedule());
    assert!(controller.wake());
    assert!(controller.schedule());
    controller.finish_retry(true);
    assert!(!controller.schedule());
    assert!(controller.wake());
}
