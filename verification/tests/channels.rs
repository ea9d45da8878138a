use crossbeam_channel::{unbounded, Receiver};
use xcp::channel::{delivered_or_broken, StatSender};
use xcp::control::{on_message, replay, Control, Summary};
use xcp::drivers::{load_driver, report_failure, Driver};
use xcp::errors::XcpError;
use xcp::operations::{CopyOperation, OpKind, StatusUpdate};
use xcp::options::{DriverKind, Opts};
use xcp::transfer::{CloneOutcome, Step};
use xcp::run::{Phase, Run, RunEvent};

fn status_channel() -> (StatSender, Receiver<StatusUpdate>) {
    let (tx, rx) = unbounded();
    (StatSender::new(tx), rx)
}

#[test]
fn updates_arrive_in_the_order_they_were_sent() {
    let (mut tx, rx) = status_channel();
    assert_eq!(tx.send(StatusUpdate::Size(21)), Ok(()));
    assert_eq!(tx.send(StatusUpdate::Copied(8)), Ok(()));
    assert_eq!(tx.send(StatusUpdate::Copied(13)), Ok(()));
    assert_eq!(rx.recv(), Ok(StatusUpdate::Size(21)));
    assert_eq!(rx.recv(), Ok(StatusUpdate::Copied(8)));
    assert_eq!(rx.recv(), Ok(StatusUpdate::Copied(13)));
    assert!(rx.try_recv().is_err());
}

#[test]
fn the_channel_closes_when_the_last_sender_is_dropped() {
    let (mut tx, rx) = status_channel();
    let mut second = tx.clone();
    assert_eq!(tx.send(StatusUpdate::Copied(1)), Ok(()));
    drop(tx);
    assert_eq!(second.send(StatusUpdate::Copied(2)), Ok(()));
    drop(second);
    assert_eq!(on_message(rx.recv().ok()), Control::Increment(1));
    assert_eq!(on_message(rx.recv().ok()), Control::Increment(2));
    assert_eq!(on_message(rx.recv().ok()), Control::Finish);
}

#[test]
fn sending_without_a_consumer_is_a_channel_error() {
    let (mut tx, rx) = status_channel();
    drop(rx);
    assert_eq!(tx.send(StatusUpdate::Copied(1)), Err(XcpError::Channel));
}

#[test]
fn a_full_channel_refuses_at_once() {
    let (raw, rx) = crossbeam_channel::bounded(1);
    let mut tx = StatSender::new(raw);
    assert_eq!(tx.send(StatusUpdate::Copied(1)), Ok(()));
    assert_eq!(tx.send(StatusUpdate::Copied(2)), Err(XcpError::Channel));
    assert_eq!(rx.recv(), Ok(StatusUpdate::Copied(1)));
    assert_eq!(tx.send(StatusUpdate::Copied(3)), Ok(()));
    assert_eq!(rx.recv(), Ok(StatusUpdate::Copied(3)));
}

#[test]
fn a_channel_without_capacity_refuses_at_once() {
    let (raw, rx) = crossbeam_channel::bounded(0);
    let mut tx = StatSender::new(raw);
    assert_eq!(tx.send(StatusUpdate::Size(1)), Err(XcpError::Channel));
    assert!(rx.try_recv().is_err());
}

#[test]
fn a_wrapped_sender_feeds_its_own_channel() {
    let (raw, rx) = crossbeam_channel::unbounded();
    let mut tx = StatSender::new(raw);
    assert_eq!(tx.send(StatusUpdate::Error(XcpError::Channel)), Ok(()));
    assert_eq!(rx.recv(), Ok(StatusUpdate::Error(XcpError::Channel)));
}

#[test]
fn a_send_that_was_not_delivered_is_a_broken_channel() {
    assert_eq!(delivered_or_broken(true), Ok(()));
    assert_eq!(delivered_or_broken(false), Err(XcpError::Channel));
}

#[test]
fn each_message_has_its_reaction() {
    assert_eq!(on_message(Some(StatusUpdate::Copied(5))), Control::Increment(5));
    assert_eq!(on_message(Some(StatusUpdate::Size(9))), Control::IncrementTotal(9));
    assert_eq!(
        on_message(Some(StatusUpdate::Error(XcpError::Io("broken".to_string())))),
        Control::Abort(XcpError::Io("broken".to_string()))
    );
    assert_eq!(on_message(None), Control::Finish);
}

#[test]
fn a_clean_run_is_read_to_the_end() {
    let messages = vec![
        StatusUpdate::Size(21),
        StatusUpdate::Copied(8),
        StatusUpdate::Size(4),
        StatusUpdate::Copied(13),
        StatusUpdate::Copied(4),
    ];
    assert_eq!(
        replay(&messages),
        Summary { read: 5, copied: 25, announced: 25, failure: None }
    );
    assert_eq!(replay(&vec![]), Summary { read: 0, copied: 0, announced: 0, failure: None });
}

#[test]
fn the_first_error_ends_the_reading() {
    let messages = vec![
        StatusUpdate::Size(21),
        StatusUpdate::Copied(8),
        StatusUpdate::Error(XcpError::Io("first".to_string())),
        StatusUpdate::Copied(13),
        StatusUpdate::Error(XcpError::Io("second".to_string())),
    ];
    assert_eq!(
        replay(&messages),
        Summary {
            read: 2,
            copied: 8,
            announced: 21,
            failure: Some(XcpError::Io("first".to_string())),
        }
    );
}

#[test]
fn totals_do_not_overflow() {
    let messages = vec![
        StatusUpdate::Copied(u64::MAX),
        StatusUpdate::Copied(u64::MAX),
        StatusUpdate::Size(u64::MAX),
        StatusUpdate::Size(1),
    ];
    let summary = replay(&messages);
    assert_eq!(summary.copied, 2 * (u64::MAX as u128));
    assert_eq!(summary.announced, (u64::MAX as u128) + 1);
    assert_eq!(summary.read, 4);
}

#[test]
fn a_run_completes_after_every_success_and_the_release() {
    let mut run = Run::new();
    assert_eq!(run.phase(), Phase::Planning);
    run.record(RunEvent::Planned(2));
    assert_eq!(run.phase(), Phase::Executing);
    assert_eq!(run.pending(), 2);
    run.record(RunEvent::Succeeded);
    assert_eq!(run.pending(), 1);
    run.record(RunEvent::Succeeded);
    assert_eq!(run.pending(), 0);
    assert_eq!(run.phase(), Phase::Executing);
    run.record(RunEvent::Released);
    assert_eq!(run.phase(), Phase::Completed);
    run.record(RunEvent::Failed);
    assert_eq!(run.phase(), Phase::Completed);
}

#[test]
fn a_run_with_an_empty_plan_completes_on_release() {
    let mut run = Run::new();
    run.record(RunEvent::Planned(0));
    run.record(RunEvent::Released);
    assert_eq!(run.phase(), Phase::Completed);
}

#[test]
fn a_failure_fails_the_run_for_good() {
    let mut run = Run::new();
    run.record(RunEvent::Planned(3));
    run.record(RunEvent::Succeeded);
    run.record(RunEvent::Failed);
    assert_eq!(run.phase(), Phase::Failed);
    run.record(RunEvent::Succeeded);
    run.record(RunEvent::Released);
    assert_eq!(run.phase(), Phase::Failed);
    assert_eq!(run.pending(), 2);
}

#[test]
fn a_run_can_fail_while_planning() {
    let mut run = Run::new();
    run.record(RunEvent::Failed);
    assert_eq!(run.phase(), Phase::Failed);
    run.record(RunEvent::Planned(4));
    assert_eq!(run.phase(), Phase::Failed);
    assert_eq!(run.pending(), 0);
}

#[test]
fn a_release_before_the_last_success_fails_the_run() {
    let mut run = Run::new();
    run.record(RunEvent::Planned(2));
    run.record(RunEvent::Succeeded);
    run.record(RunEvent::Released);
    assert_eq!(run.phase(), Phase::Failed);
}

#[test]
fn events_that_do_not_fit_the_phase_change_nothing() {
    let mut run = Run::new();
    run.record(RunEvent::Succeeded);
    run.record(RunEvent::Released);
    assert_eq!(run.phase(), Phase::Planning);
    run.record(RunEvent::Planned(1));
    run.record(RunEvent::Planned(9));
    assert_eq!(run.pending(), 1);
    run.record(RunEvent::Succeeded);
    run.record(RunEvent::Succeeded);
    assert_eq!(run.pending(), 0);
    assert_eq!(run.phase(), Phase::Executing);
}

fn file(size: u64) -> CopyOperation {
    CopyOperation {
        kind: OpKind::File { size },
        source_path: "/s/a.txt".to_string(),
        relative_path: vec!["a.txt".to_string()],
    }
}

fn driver(kind: DriverKind, block_size: u64) -> Driver {
    let mut opts = Opts::new(vec![]);
    opts.driver = kind;
    opts.block_size = block_size;
    load_driver(&opts, 4).unwrap()
}

fn pending(rx: &Receiver<StatusUpdate>) -> Vec<StatusUpdate> {
    rx.try_iter().collect()
}

#[test]
fn a_file_copy_reports_its_size_and_then_its_progress() {
    let (mut tx, rx) = status_channel();
    let d = driver(DriverKind::Sequential, 8);
    let mut copy = d.announce_file(&file(21), false, &mut tx).unwrap().unwrap();
    assert_eq!(pending(&rx), vec![StatusUpdate::Size(21)]);
    while let Step::Copy(n) = copy.next_step() {
        assert_eq!(copy.report_write(n, &mut tx), Ok(()));
    }
    assert!(copy.is_complete());
    let sent = pending(&rx);
    assert_eq!(
        sent,
        vec![StatusUpdate::Copied(8), StatusUpdate::Copied(8), StatusUpdate::Copied(5)]
    );
    let summary = replay(&vec![
        StatusUpdate::Size(21),
        StatusUpdate::Copied(8),
        StatusUpdate::Copied(8),
        StatusUpdate::Copied(5),
    ]);
    assert_eq!(summary.copied, summary.announced);
    assert_eq!(summary.copied, 21);
}

#[test]
fn a_refused_report_sends_nothing() {
    let (mut tx, rx) = status_channel();
    let d = driver(DriverKind::Sequential, 8);
    let mut copy = d.announce_file(&file(5), false, &mut tx).unwrap().unwrap();
    assert_eq!(pending(&rx), vec![StatusUpdate::Size(5)]);
    let miscount = Err(XcpError::Io("Unexpected number of bytes copied.".to_string()));
    assert_eq!(copy.report_write(0, &mut tx), miscount);
    assert_eq!(copy.report_write(6, &mut tx), miscount);
    assert_eq!(pending(&rx), vec![]);
    assert_eq!(copy.copied(), 0);
}

#[test]
fn a_clone_reports_the_whole_file_at_once() {
    let (mut tx, rx) = status_channel();
    let d = driver(DriverKind::Parallel, 8);
    let mut copy = d.announce_file(&file(21), true, &mut tx).unwrap().unwrap();
    assert_eq!(copy.next_step(), Step::Reflink);
    assert_eq!(copy.report_reflink(CloneOutcome::Cloned, &mut tx), Ok(()));
    assert_eq!(pending(&rx), vec![StatusUpdate::Size(21), StatusUpdate::Copied(21)]);
    assert!(copy.is_complete());
}

#[test]
fn a_clone_that_did_not_work_reports_nothing() {
    let (mut tx, rx) = status_channel();
    let d = driver(DriverKind::Parallel, 8);
    let mut copy = d.announce_file(&file(21), true, &mut tx).unwrap().unwrap();
    assert_eq!(copy.report_reflink(CloneOutcome::Unsupported, &mut tx), Ok(()));
    assert_eq!(pending(&rx), vec![StatusUpdate::Size(21)]);
    assert_eq!(copy.next_step(), Step::Copy(8));
    assert_eq!(copy.report_reflink(CloneOutcome::Cloned, &mut tx), Ok(()));
    assert_eq!(pending(&rx), vec![]);
    assert_eq!(copy.copied(), 0);
}

#[test]
fn only_files_are_announced() {
    let (mut tx, rx) = status_channel();
    let d = driver(DriverKind::Sequential, 8);
    let directory = CopyOperation {
        kind: OpKind::Directory,
        source_path: "/s/d".to_string(),
        relative_path: vec!["d".to_string()],
    };
    assert!(d.announce_file(&directory, false, &mut tx).unwrap().is_none());
    assert_eq!(pending(&rx), vec![]);
}

#[test]
fn reports_fail_with_the_channel() {
    let (mut tx, rx) = status_channel();
    let d = driver(DriverKind::Parallel, 8);
    let mut copy = d.announce_file(&file(21), true, &mut tx).unwrap().unwrap();
    drop(rx);
    assert_eq!(copy.report_reflink(CloneOutcome::Failed, &mut tx), Ok(()));
    assert_eq!(copy.report_write(8, &mut tx), Err(XcpError::Channel));
    assert_eq!(copy.copied(), 8);
    assert_eq!(report_failure(&file(21), "gone", &mut tx), Err(XcpError::Channel));
    match d.announce_file(&file(1), false, &mut tx) {
        Err(e) => assert_eq!(e, XcpError::Channel),
        Ok(_) => panic!("announced into a closed channel"),
    }
}

#[test]
fn a_failure_is_reported_once_with_path_and_cause() {
    let (mut tx, rx) = status_channel();
    assert_eq!(report_failure(&file(21), "No space left on device (os error 28)", &mut tx), Ok(()));
    assert_eq!(
        pending(&rx),
        vec![StatusUpdate::Error(XcpError::Io(
            "/s/a.txt: No space left on device (os error 28)".to_string()
        ))]
    );
}
