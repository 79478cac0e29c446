use hive_core::agents::{
    assemble_record, filter_live_agents, liveness_verdict, lock_files, parse_agent_record,
    AgentRecord, WorkerStatus,
};
use hive_core::default_task;
use hive_core::worker::{check_identity, is_prompt_file, next_prompt, task_file_name, worker_outcome};

fn record(id: &str, taskname: &str, pid: u32) -> AgentRecord {
    AgentRecord {
        id: id.to_string(),
        status: WorkerStatus {
            status: "running".to_string(),
            timestamp: "2024-01-01T00:00:00".to_string(),
            last_activity: "boot".to_string(),
            task: taskname.to_string(),
            pid,
        },
    }
}

#[test]
fn default_task_is_idle() {
    assert_eq!(default_task(), "idle");
}

#[test]
fn next_prompt_is_fifo_by_name() {
    let files = vec![
        "b.prompt".to_string(),
        "a.prompt".to_string(),
        "notes.txt".to_string(),
        "c.prompt".to_string(),
    ];
    assert_eq!(next_prompt(&files), Some("a.prompt".to_string()));
    let none: Vec<String> = vec!["readme.md".to_string()];
    assert_eq!(next_prompt(&none), None);
    assert_eq!(next_prompt(&Vec::new()), None);
}

#[test]
fn prompt_extension_must_match() {
    assert!(is_prompt_file(&"a.prompt".to_string()));
    assert!(!is_prompt_file(&".prompt".to_string()));
    assert!(!is_prompt_file(&"a.prompts".to_string()));
    assert!(!is_prompt_file(&"aprompt".to_string()));
    assert!(is_prompt_file(&"a.b.prompt".to_string()));
}

#[test]
fn worker_loop_drains_queue_in_order() {
    // The queue directory holds a.prompt and b.prompt; the execution step
    // echoes its input. The loop must take a before b, complete a before
    // touching b, and leave the queue empty.
    let mut queue = vec!["b.prompt".to_string(), "a.prompt".to_string()];
    let mut done_markers: Vec<String> = Vec::new();
    let mut processed: Vec<String> = Vec::new();
    let mut task_count: u32 = 0;
    while let Some(next) = next_prompt(&queue) {
        task_count += 1;
        let echoed = format!("echo:{}", next);
        let actions = worker_outcome(true, echoed.is_empty(), true);
        assert!(actions.mark_done && actions.delete_prompt && actions.save_latest);
        if actions.mark_done {
            done_markers.push(task_file_name(task_count, ".done"));
        }
        if actions.delete_prompt {
            queue.retain(|f| *f != next);
        }
        processed.push(next);
    }
    assert_eq!(processed, vec!["a.prompt".to_string(), "b.prompt".to_string()]);
    assert_eq!(done_markers, vec!["task_1.done".to_string(), "task_2.done".to_string()]);
    assert!(queue.is_empty());
}

#[test]
fn failed_execution_keeps_the_prompt() {
    let actions = worker_outcome(false, false, false);
    assert!(!actions.delete_prompt && !actions.mark_done && !actions.save_latest);
    assert!(actions.save_stderr);
    let actions = worker_outcome(true, true, true);
    assert!(!actions.delete_prompt);
    assert!(!actions.save_stderr);
}

#[test]
fn task_file_names_carry_the_count() {
    assert_eq!(task_file_name(1, ".txt"), "task_1.txt");
    assert_eq!(task_file_name(207, ".stderr"), "task_207.stderr");
    assert_eq!(task_file_name(0, ".done"), "task_0.done");
}

#[test]
fn identity_requires_all_fields() {
    let good = r#"{"name":"x","mission":"m","vision":"v","tone":"t","restrictions":[]}"#;
    assert!(check_identity(&Some(good.to_string())));
    let missing = r#"{"name":"x","mission":"m","vision":"v","tone":"t"}"#;
    assert!(!check_identity(&Some(missing.to_string())));
    assert!(!check_identity(&None));
}

#[test]
fn agent_record_parses_from_json() {
    let json = r#"{"status":"running","timestamp":"2024-01-01T10:00:00","last_activity":"init","task":"fix.md","pid":4242}"#;
    let w = parse_agent_record(json).expect("record should parse");
    assert_eq!(w.status, "running");
    assert_eq!(w.timestamp, "2024-01-01T10:00:00");
    assert_eq!(w.last_activity, "init");
    assert_eq!(w.task, "fix.md");
    assert_eq!(w.pid, 4242);
}

#[test]
fn agent_record_defaults_and_rejections() {
    let json = r#"{"status":"idle","timestamp":"t","last_activity":"a"}"#;
    let w = parse_agent_record(json).expect("defaults should apply");
    assert_eq!(w.task, "idle");
    assert_eq!(w.pid, 0);

    assert!(parse_agent_record("not json").is_none());
    assert!(parse_agent_record(r#"{"timestamp":"t","last_activity":"a"}"#).is_none());
    assert!(parse_agent_record(r#"{"status":"s","timestamp":"t","last_activity":"a","pid":"x"}"#)
        .is_none());
    assert!(parse_agent_record(r#"{"status":"s","timestamp":"t","last_activity":"a","pid":5000000000}"#)
        .is_none());
}

#[test]
fn assemble_record_contract_cases() {
    let r = assemble_record(
        Some("s".to_string()),
        Some("t".to_string()),
        Some("a".to_string()),
        None,
        None,
    )
    .unwrap();
    assert_eq!(r.task, "idle");
    assert_eq!(r.pid, 0);
    assert!(assemble_record(None, Some("t".to_string()), Some("a".to_string()), None, None)
        .is_none());
    assert!(assemble_record(
        Some("s".to_string()),
        Some("t".to_string()),
        Some("a".to_string()),
        Some(None),
        None
    )
    .is_none());
}

#[test]
fn liveness_needs_pid_and_probe_evidence() {
    assert!(!liveness_verdict(0, Some("0 everywhere 0".to_string())));
    assert!(!liveness_verdict(1234, None));
    assert!(liveness_verdict(1234, Some("proc.exe    1234 Console".to_string())));
    assert!(!liveness_verdict(1234, Some("no such process".to_string())));
}

#[test]
fn registry_splits_live_from_stale() {
    let records = vec![record("a", "a.md", 1), record("b", "b.md", 2), record("c", "idle", 3)];
    let alive = vec![true, false, true];
    let (live, stale) = filter_live_agents(records, &alive);
    assert_eq!(live.len(), 2);
    assert_eq!(live[0].id, "a");
    assert_eq!(live[1].id, "c");
    assert_eq!(stale, vec!["b".to_string()]);
    let locks = lock_files(&live);
    assert_eq!(locks, vec!["a.md".to_string(), "idle".to_string()]);
}
