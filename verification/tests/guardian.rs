use hive_core::dispatch::{available_slots, select_dispatch};
use hive_core::genesis::{genesis_content, genesis_decide, genesis_status, GenesisAction};
use hive_core::mirror::mirror_queues;
use hive_core::queues::{get_all_tasks_classified, surfaced_completed};
use hive_core::sanitize::sanitize_worker_id;
use hive_core::task::{classify, parse_task, TaskClass, TaskInfo};

fn task(title: &str, filename: &str, status: &str, sub: &str, modified: u64) -> TaskInfo {
    TaskInfo {
        title: title.to_string(),
        filename: filename.to_string(),
        status: status.to_string(),
        sub_status: sub.to_string(),
        revisions: 0,
        modified,
    }
}

#[test]
fn test_sanitize_simple() {
    assert_eq!(sanitize_worker_id("Story: Test"), "Story_Test");
    assert_eq!(sanitize_worker_id("File?* Name"), "File_Name");
}

#[test]
fn sanitize_strips_every_forbidden_character() {
    let cases = [
        "",
        "a b?c:d*e\"f<g>h|i/j\\k",
        "???",
        "unicode Évolução ços",
        " \\//||<> ",
    ];
    let forbidden = [' ', '?', ':', '*', '"', '<', '>', '|', '/', '\\'];
    for s in cases {
        let out = sanitize_worker_id(s);
        for c in forbidden {
            assert!(!out.contains(c), "forbidden {:?} in {:?}", c, out);
        }
    }
    assert_eq!(sanitize_worker_id("a b"), "a_b");
}

#[test]
fn classify_error_wins_over_any_sub_status() {
    for sub in ["PENDING_WORKER", "WORKING", "ACCEPTED", "NONE", "anything"] {
        let t = task("t", "t.md", "ERROR", sub, 0);
        assert_eq!(classify(&t), TaskClass::Errored);
    }
    let t = task("t", "t.md", "TODO ERROR", "PENDING_WORKER", 0);
    assert_eq!(classify(&t), TaskClass::Errored);
}

#[test]
fn classify_precedence_on_todo() {
    let t = task("t", "t.md", "TODO", "PENDING_WORKER", 0);
    assert_eq!(classify(&t), TaskClass::Pending);
    let t = task("t", "t.md", "TODO", "WORKING", 0);
    assert_eq!(classify(&t), TaskClass::Running);
    let t = task("t", "t.md", "TODO", "ACCEPTED", 0);
    assert_eq!(classify(&t), TaskClass::Running);
    let t = task("t", "t.md", "TODO", "NONE", 0);
    assert_eq!(classify(&t), TaskClass::Pending);
}

#[test]
fn classify_remaining_buckets() {
    assert_eq!(classify(&task("t", "f", "WAITING_REVIEW", "NONE", 0)), TaskClass::Review);
    assert_eq!(classify(&task("t", "f", "IN_PROGRESS", "NONE", 0)), TaskClass::Running);
    assert_eq!(classify(&task("t", "f", "COMPLETED", "NONE", 0)), TaskClass::Completed);
    assert_eq!(classify(&task("t", "f", "DONE", "NONE", 0)), TaskClass::Completed);
    assert_eq!(classify(&task("t", "f", "SOMETHING ELSE", "NONE", 0)), TaskClass::Dropped);
}

#[test]
fn parse_task_reads_tags_case_insensitively() {
    let content = "# Story: Fix the door\nstatus: todo\nSubStatus: pending_worker\nRevisions: 3\nbody text\n";
    let t = parse_task(content, "fix.md".to_string(), 7);
    assert_eq!(t.title, "Fix the door");
    assert_eq!(t.status, "TODO");
    assert_eq!(t.sub_status, "PENDING_WORKER");
    assert_eq!(t.revisions, 3);
    assert_eq!(t.filename, "fix.md");
    assert_eq!(t.modified, 7);
}

#[test]
fn parse_task_defaults_and_emphasis() {
    let t = parse_task("no tags here\n", "x.md".to_string(), 0);
    assert_eq!(t.title, "Sem Título");
    assert_eq!(t.status, "NONE");
    assert_eq!(t.sub_status, "NONE");
    assert_eq!(t.revisions, 0);

    let t = parse_task("Status: **TODO**\n", "x.md".to_string(), 0);
    assert_eq!(t.status, "TODO");

    let t = parse_task("Revisions: not-a-number\n", "x.md".to_string(), 0);
    assert_eq!(t.revisions, 0);

    let t = parse_task("Revisions: 4294967295\n", "x.md".to_string(), 0);
    assert_eq!(t.revisions, u32::MAX);

    let t = parse_task("Revisions: 99999999999\n", "x.md".to_string(), 0);
    assert_eq!(t.revisions, 0);
}

#[test]
fn completed_queue_sorted_descending_and_capped() {
    let mut active = Vec::new();
    for i in 0..25u64 {
        active.push(task(&format!("t{}", i), &format!("t{}.md", i), "COMPLETED", "NONE", i));
    }
    let archived = vec![task("old", "old.md", "DONE", "NONE", 100)];
    let (pending, running, review, completed, errors) = get_all_tasks_classified(active, archived);
    assert!(pending.is_empty() && running.is_empty() && review.is_empty() && errors.is_empty());
    assert_eq!(completed.len(), 26);
    assert_eq!(completed[0].modified, 100);
    for w in completed.windows(2) {
        assert!(w[0].modified >= w[1].modified);
    }
    let surfaced = surfaced_completed(completed);
    assert_eq!(surfaced.len(), 20);
    assert_eq!(surfaced[0].modified, 100);
    assert_eq!(surfaced[19].modified, 6);
}

#[test]
fn classifier_fills_all_queues() {
    let active = vec![
        task("p", "p.md", "TODO", "PENDING_WORKER", 1),
        task("r", "r.md", "IN_PROGRESS", "NONE", 2),
        task("v", "v.md", "WAITING_REVIEW", "NONE", 3),
        task("c", "c.md", "DONE", "NONE", 4),
        task("e", "e.md", "ERROR", "NONE", 5),
        task("d", "d.md", "UNKNOWN", "NONE", 6),
    ];
    let (pending, running, review, completed, errors) = get_all_tasks_classified(active, vec![]);
    assert_eq!(pending.len(), 1);
    assert_eq!(pending[0].filename, "p.md");
    assert_eq!(running.len(), 1);
    assert_eq!(review.len(), 1);
    assert_eq!(completed.len(), 1);
    assert_eq!(errors.len(), 1);
}

#[test]
fn dispatcher_respects_locks_slots_and_priority() {
    let review = vec![task("rv", "rv.md", "WAITING_REVIEW", "NONE", 0)];
    let running = vec![
        task("locked", "locked.md", "IN_PROGRESS", "NONE", 0),
        task("run", "run.md", "IN_PROGRESS", "NONE", 0),
    ];
    let pending = vec![task("pend", "pend.md", "TODO", "PENDING_WORKER", 0)];
    let locks = vec!["locked.md".to_string()];
    let picks = select_dispatch(&review, &running, &pending, locks, 2);
    assert_eq!(picks.len(), 2);
    assert_eq!(picks[0].mission, "rv.md");
    assert!(picks[0].observer);
    assert_eq!(picks[1].mission, "run.md");
    assert!(!picks[1].observer);
    for p in &picks {
        assert_ne!(p.mission, "locked.md");
    }
}

#[test]
fn dispatcher_never_exceeds_free_slots() {
    let pending: Vec<TaskInfo> = (0..10)
        .map(|i| task(&format!("t{}", i), &format!("t{}.md", i), "TODO", "PENDING_WORKER", 0))
        .collect();
    let picks = select_dispatch(&vec![], &vec![], &pending, vec![], 3);
    assert_eq!(picks.len(), 3);
    let picks = select_dispatch(&vec![], &vec![], &pending, vec![], 0);
    assert!(picks.is_empty());
    assert_eq!(available_slots(5, 3), 2);
    assert_eq!(available_slots(3, 5), 0);
    assert_eq!(available_slots(4, 4), 0);
}

#[test]
fn dispatcher_never_picks_one_file_twice() {
    let running = vec![
        task("same title", "same.md", "IN_PROGRESS", "NONE", 0),
        task("same title", "same.md", "IN_PROGRESS", "NONE", 0),
    ];
    let picks = select_dispatch(&vec![], &running, &vec![], vec![], 5);
    assert_eq!(picks.len(), 1);
    assert_eq!(picks[0].worker_id, "same_title");
}

#[test]
fn mirror_moves_matching_pending_task() {
    let mut pending = vec![
        task("Fix gate", "fix.md", "TODO", "PENDING_WORKER", 0),
        task("Other", "other.md", "TODO", "PENDING_WORKER", 0),
    ];
    let mut running = Vec::new();
    let mut review = Vec::new();
    let ids = vec!["Fix_gate".to_string()];
    mirror_queues(&mut pending, &mut running, &mut review, &ids);
    assert_eq!(pending.len(), 1);
    assert_eq!(pending[0].filename, "other.md");
    assert!(running.is_empty());
    assert_eq!(review.len(), 1);
    assert_eq!(review[0].filename, "fix.md");
}

#[test]
fn mirror_promotes_privileged_ids_to_running() {
    let mut pending = vec![task("Ativar Genesis", "g.md", "TODO", "PENDING_WORKER", 0)];
    let mut running = Vec::new();
    let mut review = Vec::new();
    let ids = vec!["Ativar_Genesis".to_string()];
    mirror_queues(&mut pending, &mut running, &mut review, &ids);
    assert!(pending.is_empty());
    assert_eq!(running.len(), 1);
    assert!(review.is_empty());
}

#[test]
fn mirror_leaves_tasks_already_listed() {
    let mut pending = vec![task("Job", "job.md", "TODO", "PENDING_WORKER", 0)];
    let mut running = vec![task("Job", "job2.md", "IN_PROGRESS", "NONE", 0)];
    let mut review = Vec::new();
    let ids = vec!["Job".to_string()];
    mirror_queues(&mut pending, &mut running, &mut review, &ids);
    assert_eq!(pending.len(), 1);
    assert_eq!(running.len(), 1);
    assert!(review.is_empty());
}

#[test]
fn genesis_injection_is_idempotent() {
    let content = genesis_content();
    assert_eq!(genesis_decide(false, &Some(content.clone())), GenesisAction::Leave);
    assert_eq!(genesis_decide(false, &Some(content.clone())), GenesisAction::Leave);
    assert_eq!(genesis_decide(false, &None), GenesisAction::Write);
    assert_eq!(genesis_decide(true, &None), GenesisAction::Leave);
    assert_eq!(
        genesis_decide(false, &Some("Status: DONE\nsubStatus: accepted\n".to_string())),
        GenesisAction::Write
    );
}

#[test]
fn genesis_status_reads_sub_status_line() {
    let c = Some("# Story: x\nsubStatus: working\n".to_string());
    assert_eq!(genesis_status(&c), "WORKING");
    assert_eq!(genesis_status(&None), "INATIVO");
    let c = Some("no tags\n".to_string());
    assert_eq!(genesis_status(&c), "INATIVO");
}
