//! Task records: line-oriented parsing of task description files and the
//! classification rule that assigns every task to exactly one queue.
//!
//! Tag matching and the stored status tags fold case for ASCII letters only:
//! a non-ASCII letter in a tag is kept as written and never matched
//! case-insensitively.

use vstd::prelude::*;
use crate::text::{
    contains_seq, contains_vec, eq_vec, match_at, parse_u32, parse_u32_spec, remove_all, remove_all_spec,
    segment_after, segment_after_exec, split_lines, split_lines_spec, starts_with_vec,
    str_to_chars, chars_to_string, trim_spec, trim_vec, upper_seq, upper_vec,
};

verus! {

/// A parsed task description.
pub struct TaskInfo {
    /// Free-text title, taken from the story line.
    pub title: String,
    /// Name of the file the task was read from.
    pub filename: String,
    /// Status tag, ASCII-upper-cased, with emphasis marks removed.
    pub status: String,
    /// Sub-status tag, ASCII-upper-cased, with emphasis marks removed.
    pub sub_status: String,
    /// Revision count.
    pub revisions: u32,
    /// Last-modified instant, as a monotone tick count.
    pub modified: u64,
}

/// Mathematical image of a task record.
pub ghost struct TaskSpec {
    pub title: Seq<char>,
    pub filename: Seq<char>,
    pub status: Seq<char>,
    pub sub_status: Seq<char>,
    pub revisions: u32,
    pub modified: u64,
}

impl View for TaskInfo {
    type V = TaskSpec;

    open spec fn view(&self) -> TaskSpec {
        TaskSpec {
            title: self.title@,
            filename: self.filename@,
            status: self.status@,
            sub_status: self.sub_status@,
            revisions: self.revisions,
            modified: self.modified,
        }
    }
}

/// The views of a sequence of task records.
pub open spec fn views(s: Seq<TaskInfo>) -> Seq<TaskSpec> {
    s.map_values(|t: TaskInfo| t@)
}

/// Intermediate state of the line scan.
pub ghost struct ParseAcc {
    pub title: Seq<char>,
    pub status: Seq<char>,
    pub sub_status: Seq<char>,
    pub revisions: u32,
}

/// The scan's effect of one line on the accumulated fields: each recognised
/// tag overwrites its field, later lines win.
pub open spec fn apply_line(acc: ParseAcc, line: Seq<char>) -> ParseAcc {
    let l = upper_seq(line);
    ParseAcc {
        title: if match_at(l, "# STORY:"@, 0) {
            trim_spec(remove_all_spec(remove_all_spec(line, "# Story:"@), "# Story :"@))
        } else {
            acc.title
        },
        status: if contains_seq(l, "STATUS:"@) && !contains_seq(l, "SUBSTATUS:"@) {
            trim_spec(remove_all_spec(segment_after(l, "STATUS:"@), "*"@))
        } else {
            acc.status
        },
        sub_status: if contains_seq(l, "SUBSTATUS:"@) {
            trim_spec(remove_all_spec(segment_after(l, "SUBSTATUS:"@), "*"@))
        } else {
            acc.sub_status
        },
        revisions: if contains_seq(l, "REVISIONS:"@) {
            parse_u32_spec(trim_spec(segment_after(l, "REVISIONS:"@)))
        } else {
            acc.revisions
        },
    }
}

/// The scan folded over a sequence of lines.
pub open spec fn scan_lines(acc: ParseAcc, lines: Seq<Seq<char>>) -> ParseAcc
    decreases lines.len(),
{
    if lines.len() == 0 {
        acc
    } else {
        scan_lines(apply_line(acc, lines[0]), lines.skip(1))
    }
}

/// Initial fields before any line is read.
pub open spec fn scan_init() -> ParseAcc {
    ParseAcc { title: "Sem Título"@, status: "NONE"@, sub_status: "NONE"@, revisions: 0 }
}

/// The fields a task file's whole content parses to.
pub open spec fn scan_content(content: Seq<char>) -> ParseAcc {
    scan_lines(scan_init(), split_lines_spec(content))
}

/// The task record parsed from `content`, under `filename` and `modified`.
pub open spec fn task_of(content: Seq<char>, filename: Seq<char>, modified: u64) -> TaskSpec {
    let acc = scan_content(content);
    TaskSpec {
        title: acc.title,
        filename: filename,
        status: acc.status,
        sub_status: acc.sub_status,
        revisions: acc.revisions,
        modified: modified,
    }
}

/// Parse one task description file's content.
pub fn parse_task(content: &str, filename: String, modified: u64) -> (t: TaskInfo)
    ensures
        t@ == task_of(content@, filename@, modified),
{
    let chars = str_to_chars(content);
    let lines = split_lines(&chars);
    let story_tag = str_to_chars("# STORY:");
    let story_rm1 = str_to_chars("# Story:");
    let story_rm2 = str_to_chars("# Story :");
    let status_tag = str_to_chars("STATUS:");
    let substatus_tag = str_to_chars("SUBSTATUS:");
    let revisions_tag = str_to_chars("REVISIONS:");
    let star = str_to_chars("*");
    let mut title = str_to_chars("Sem Título");
    let mut status = str_to_chars("NONE");
    let mut sub_status = str_to_chars("NONE");
    let mut revisions: u32 = 0;
    let mut i: usize = 0;
    let ghost all_lines = split_lines_spec(content@);
    proof {
        assert(all_lines.skip(0) =~= all_lines);
    }
    while i < lines.len()
        invariant
            lines.deep_view() == all_lines,
            i <= all_lines.len(),
            story_tag@ == "# STORY:"@,
            story_rm1@ == "# Story:"@,
            story_rm2@ == "# Story :"@,
            status_tag@ == "STATUS:"@,
            substatus_tag@ == "SUBSTATUS:"@,
            revisions_tag@ == "REVISIONS:"@,
            star@ == "*"@,
            scan_lines(
                (ParseAcc {
                    title: title@,
                    status: status@,
                    sub_status: sub_status@,
                    revisions: revisions,
                }),
                all_lines.skip(i as int),
            ) == scan_content(content@),
        decreases all_lines.len() - i,
    {
        let line = &lines[i];
        proof {
            assert(line@ == all_lines[i as int]);
        }
        let l = upper_vec(line);
        let ghost before = ParseAcc {
            title: title@,
            status: status@,
            sub_status: sub_status@,
            revisions: revisions,
        };
        if starts_with_vec(&l, &story_tag) {
            title = trim_vec(&remove_all(&remove_all(line, &story_rm1), &story_rm2));
        }
        let has_sub = contains_vec(&l, &substatus_tag);
        if contains_vec(&l, &status_tag) && !has_sub {
            status = trim_vec(&remove_all(&segment_after_exec(&l, &status_tag), &star));
        }
        if has_sub {
            sub_status = trim_vec(&remove_all(&segment_after_exec(&l, &substatus_tag), &star));
        }
        if contains_vec(&l, &revisions_tag) {
            revisions = parse_u32(&trim_vec(&segment_after_exec(&l, &revisions_tag)));
        }
        proof {
            let after = ParseAcc {
                title: title@,
                status: status@,
                sub_status: sub_status@,
                revisions: revisions,
            };
            assert(after == apply_line(before, all_lines[i as int]));
            assert(all_lines.skip(i as int).skip(1) =~= all_lines.skip(i + 1));
            assert(all_lines.skip(i as int)[0] == all_lines[i as int]);
        }
        i = i + 1;
    }
    proof {
        assert(all_lines.skip(i as int) =~= Seq::<Seq<char>>::empty());
    }
    TaskInfo {
        title: chars_to_string(&title),
        filename: filename,
        status: chars_to_string(&status),
        sub_status: chars_to_string(&sub_status),
        revisions: revisions,
        modified: modified,
    }
}

/// The five queues a task can belong to, or none.
#[derive(Clone, Copy, PartialEq, Eq, Structural, Debug)]
pub enum TaskClass {
    Pending,
    Running,
    Review,
    Completed,
    Errored,
    Dropped,
}

/// The classification rule: first match wins, so every task lands in exactly
/// one class.
pub open spec fn classify_spec(status: Seq<char>, sub_status: Seq<char>) -> TaskClass {
    if contains_seq(status, "ERROR"@) {
        TaskClass::Errored
    } else if contains_seq(status, "WAITING_REVIEW"@) {
        TaskClass::Review
    } else if contains_seq(status, "TODO"@) && (contains_seq(sub_status, "PENDING_WORKER"@)
        || sub_status == "NONE"@) {
        TaskClass::Pending
    } else if contains_seq(status, "IN_PROGRESS"@) || contains_seq(sub_status, "WORKING"@)
        || contains_seq(sub_status, "ACCEPTED"@) {
        TaskClass::Running
    } else if contains_seq(status, "COMPLETED"@) || contains_seq(status, "DONE"@) {
        TaskClass::Completed
    } else {
        TaskClass::Dropped
    }
}

/// Classification is total: every status and sub-status pair lands in
/// exactly one of the six classes.
pub proof fn lemma_classify_total(status: Seq<char>, sub_status: Seq<char>)
    ensures
        ({
            let c = classify_spec(status, sub_status);
            ||| c == TaskClass::Pending
            ||| c == TaskClass::Running
            ||| c == TaskClass::Review
            ||| c == TaskClass::Completed
            ||| c == TaskClass::Errored
            ||| c == TaskClass::Dropped
        }),
{
}

/// A status tag contains ERROR: the task is errored no matter the sub-status.
pub proof fn lemma_error_dominates(status: Seq<char>, sub_status: Seq<char>)
    requires
        contains_seq(status, "ERROR"@),
    ensures
        classify_spec(status, sub_status) == TaskClass::Errored,
{
}

/// Classify one task.
pub fn classify(t: &TaskInfo) -> (c: TaskClass)
    ensures
        c == classify_spec(t.status@, t.sub_status@),
{
    let status = str_to_chars(t.status.as_str());
    let sub_status = str_to_chars(t.sub_status.as_str());
    if contains_vec(&status, &str_to_chars("ERROR")) {
        TaskClass::Errored
    } else if contains_vec(&status, &str_to_chars("WAITING_REVIEW")) {
        TaskClass::Review
    } else if contains_vec(&status, &str_to_chars("TODO")) && (contains_vec(
        &sub_status,
        &str_to_chars("PENDING_WORKER"),
    ) || eq_vec(&sub_status, &str_to_chars("NONE"))) {
        TaskClass::Pending
    } else if contains_vec(&status, &str_to_chars("IN_PROGRESS")) || contains_vec(
        &sub_status,
        &str_to_chars("WORKING"),
    ) || contains_vec(&sub_status, &str_to_chars("ACCEPTED"))
    {
        TaskClass::Running
    } else if contains_vec(&status, &str_to_chars("COMPLETED")) || contains_vec(
        &status,
        &str_to_chars("DONE"),
    ) {
        TaskClass::Completed
    } else {
        TaskClass::Dropped
    }
}

} // verus!
