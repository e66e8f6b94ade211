use llama_orchestrator::models::{ProcessStatus, ProcessOutput};
use llama_orchestrator::registry::{ProcessRegistry, StreamSource, LOG_RETENTION};

fn fresh() -> ProcessRegistry<u32> {
    ProcessRegistry::new()
}

fn launch(reg: &mut ProcessRegistry<u32>, handle: u32) -> u64 {
    reg.register(
        "/models/a.gguf".to_string(),
        "a".to_string(),
        "127.0.0.1".to_string(),
        9001,
        vec!["llama-server".to_string()],
        handle,
    )
}

#[test]
fn register_issues_fresh_increasing_ids() {
    let mut reg = fresh();
    let a = launch(&mut reg, 1);
    let b = launch(&mut reg, 2);
    let c = launch(&mut reg, 3);
    assert!(a < b && b < c);
    reg.terminate(b);
    let d = launch(&mut reg, 4);
    assert!(d > c, "an identifier, once issued, is never reused");
}

#[test]
fn register_starts_in_starting_status() {
    let mut reg = fresh();
    let id = launch(&mut reg, 7);
    let rec = reg.find_record(id).expect("the record must be queryable");
    assert!(matches!(rec.status, ProcessStatus::Starting));
    assert_eq!(rec.model_name, "a");
    assert_eq!(rec.port, 9001);
    assert_eq!(rec.output.len(), 0);
    assert!(rec.created_at >= 0, "the clock reads after the epoch");
}

#[test]
fn lifecycle_starting_running_stopped() {
    let mut reg = fresh();
    let id = launch(&mut reg, 7);
    reg.mark_running(id);
    let rec = reg.find_record(id).expect("record");
    assert!(matches!(rec.status, ProcessStatus::Running));

    // The pump detaches the handle, awaits the exit, then marks it.
    let h = reg.detach_handle(id);
    assert_eq!(h, Some(7));
    reg.mark_exited(id, 0);
    let rec = reg.find_record(id).expect("metadata remains queryable");
    assert!(matches!(rec.status, ProcessStatus::Stopped));
    assert_eq!(reg.detach_handle(id), None, "no live handle remains");
}

#[test]
fn mark_running_only_leaves_starting() {
    let mut reg = fresh();
    let id = launch(&mut reg, 7);
    reg.detach_handle(id);
    reg.mark_exited(id, 0);
    reg.mark_running(id);
    let rec = reg.find_record(id).expect("record");
    assert!(
        matches!(rec.status, ProcessStatus::Stopped),
        "a terminal status is never left"
    );
}

#[test]
fn exit_appends_synthetic_line_with_code() {
    let mut reg = fresh();
    let id = launch(&mut reg, 7);
    reg.detach_handle(id);
    reg.mark_exited(id, -1);
    let rec = reg.find_record(id).expect("record");
    assert_eq!(rec.output.last().map(String::as_str), Some("Process exited with code: -1"));
}

#[test]
fn stream_lines_are_tagged_by_origin() {
    let mut reg = fresh();
    let id = launch(&mut reg, 7);
    reg.append_stream_line(id, StreamSource::Stdout, "listening".to_string());
    reg.append_stream_line(id, StreamSource::Stderr, "warming up".to_string());
    let rec = reg.find_record(id).expect("record");
    assert_eq!(rec.output[0], "[OUT] listening");
    assert_eq!(rec.output[1], "[INFO] warming up");
}

#[test]
fn log_retention_keeps_most_recent_thousand() {
    let mut reg = fresh();
    let id = launch(&mut reg, 7);
    for n in 0..1500 {
        reg.append_output(id, format!("line {}", n));
    }
    let rec = reg.find_record(id).expect("record");
    assert_eq!(rec.output.len(), LOG_RETENTION);
    for (k, line) in rec.output.iter().enumerate() {
        assert_eq!(line, &format!("line {}", 500 + k), "retained in original order");
    }
}

#[test]
fn polling_returns_only_new_lines_and_is_idempotent() {
    let mut reg = fresh();
    let id = launch(&mut reg, 7);
    reg.append_output(id, "one".to_string());
    reg.append_output(id, "two".to_string());

    let first: ProcessOutput = reg.get_output(id).expect("record");
    assert_eq!(first.output, vec!["one".to_string(), "two".to_string()]);
    assert!(first.is_running, "a starting process counts as live");
    assert_eq!(first.return_code, None);

    let second = reg.get_output(id).expect("record");
    assert_eq!(second.output, Vec::<String>::new(), "nothing new since the last poll");

    reg.append_output(id, "three".to_string());
    let third = reg.get_output(id).expect("record");
    assert_eq!(third.output, vec!["three".to_string()]);
}

#[test]
fn polling_survives_log_trimming() {
    let mut reg = fresh();
    let id = launch(&mut reg, 7);
    for n in 0..LOG_RETENTION {
        reg.append_output(id, format!("old {}", n));
    }
    let drained = reg.get_output(id).expect("record");
    assert_eq!(drained.output.len(), LOG_RETENTION);

    // The log is full: each new line discards the oldest retained one,
    // and the cursor slides so the new lines are still all delivered.
    for n in 0..5 {
        reg.append_output(id, format!("new {}", n));
    }
    let polled = reg.get_output(id).expect("record");
    let expected: Vec<String> = (0..5).map(|n| format!("new {}", n)).collect();
    assert_eq!(polled.output, expected);
}

#[test]
fn polling_unknown_identifier_yields_nothing() {
    let mut reg = fresh();
    assert!(reg.get_output(42).is_none());
}

#[test]
fn poll_reports_stopped_process_as_not_running() {
    let mut reg = fresh();
    let id = launch(&mut reg, 7);
    reg.detach_handle(id);
    reg.mark_exited(id, 0);
    let polled = reg.get_output(id).expect("record");
    assert!(!polled.is_running);
}

#[test]
fn terminate_twice_is_safe() {
    let mut reg = fresh();
    let id = launch(&mut reg, 7);
    let first = reg.terminate(id);
    assert_eq!(first, Some(7), "the first call yields the handle to kill");
    assert!(reg.find_record(id).is_none(), "the record is removed");

    let second = reg.terminate(id);
    assert_eq!(second, None, "the second call observes nothing to do");
    assert!(reg.find_record(id).is_none());
}

#[test]
fn terminate_leaves_other_processes_alone() {
    let mut reg = fresh();
    let a = launch(&mut reg, 1);
    let b = launch(&mut reg, 2);
    reg.terminate(a);
    assert!(reg.find_record(a).is_none());
    let rec = reg.find_record(b).expect("the other record stays");
    assert_eq!(rec.id, b);
    assert_eq!(reg.detach_handle(b), Some(2));
}

#[test]
fn whole_registry_teardown() {
    let mut reg = fresh();
    let a = launch(&mut reg, 1);
    let b = launch(&mut reg, 2);
    let handles = reg.take_all_handles();
    assert_eq!(handles, vec![(a, 1), (b, 2)]);
    reg.clear_records();
    assert!(reg.find_record(a).is_none());
    assert!(reg.find_record(b).is_none());
    let c = launch(&mut reg, 3);
    assert!(c > b, "teardown does not recycle identifiers");
}
