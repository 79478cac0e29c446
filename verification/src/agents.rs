//! The agent registry: parsing worker status records from JSON, the liveness
//! verdict over a process-table probe, and the self-healing split of records
//! into live agents and stale files.

use vstd::prelude::*;
use crate::text::{contains_seq, contains_vec, dec_str, str_to_chars, u32_decimal};

verus! {

/// One worker's status record.
pub struct WorkerStatus {
    /// Lifecycle status, free text.
    pub status: String,
    /// ISO-8601 timestamp.
    pub timestamp: String,
    /// Last-activity marker.
    pub last_activity: String,
    /// Task filename the worker claims; "idle" when it names none.
    pub task: String,
    /// OS process id; 0 when it names none.
    pub pid: u32,
}

/// Mathematical image of a status record.
pub ghost struct WorkerStatusSpec {
    pub status: Seq<char>,
    pub timestamp: Seq<char>,
    pub last_activity: Seq<char>,
    pub task: Seq<char>,
    pub pid: u32,
}

impl View for WorkerStatus {
    type V = WorkerStatusSpec;

    open spec fn view(&self) -> WorkerStatusSpec {
        WorkerStatusSpec {
            status: self.status@,
            timestamp: self.timestamp@,
            last_activity: self.last_activity@,
            task: self.task@,
            pid: self.pid,
        }
    }
}

/// The five raw agent fields a JSON document holds, in order: status,
/// timestamp, last_activity, task, pid. For task and pid the outer option is
/// presence of the key and the inner one is whether it reads as the right
/// type (a string, an unsigned integer). Parsing depends on the text alone,
/// so the result carries a name rather than a page of JSON semantics.
pub uninterp spec fn agent_fields_of(s: Seq<char>) -> (
    Option<Seq<char>>,
    Option<Seq<char>>,
    Option<Seq<char>>,
    Option<Option<Seq<char>>>,
    Option<Option<u64>>,
);

/// The view of a raw field tuple, for comparing it with `agent_fields_of`.
pub open spec fn fields_view(
    r: (Option<String>, Option<String>, Option<String>, Option<Option<String>>, Option<
        Option<u64>,
    >),
) -> (Option<Seq<char>>, Option<Seq<char>>, Option<Seq<char>>, Option<Option<Seq<char>>>, Option<
    Option<u64>,
>) {
    (
        match r.0 {
            Option::Some(s) => Some(s@),
            Option::None => None,
        },
        match r.1 {
            Option::Some(s) => Some(s@),
            Option::None => None,
        },
        match r.2 {
            Option::Some(s) => Some(s@),
            Option::None => None,
        },
        match r.3 {
            Option::Some(Option::Some(s)) => Some(Some(s@)),
            Option::Some(Option::None) => Some(None),
            Option::None => None,
        },
        r.4,
    )
}

/// Relies on `serde_json::from_str::<Value>`, `Value::get`, `Value::as_str`
/// and `Value::as_u64`: reads the five agent fields out of a JSON document.
/// Text that is not a JSON object yields no field; a key read as the wrong
/// type yields `Some(None)`. What each field holds is a function of the text
/// alone and goes under the name `agent_fields_of`.
#[verifier::external_body]
fn agent_fields(content: &str) -> (r: (
    Option<String>,
    Option<String>,
    Option<String>,
    Option<Option<String>>,
    Option<Option<u64>>,
))
    ensures
        fields_view(r) == agent_fields_of(content@),
{
    let v: serde_json::Value = match serde_json::from_str(content) {
        Ok(v) => v,
        Err(_) => return (None, None, None, None, None),
    };
    (
        v.get("status").and_then(|f| f.as_str()).map(|s| s.to_string()),
        v.get("timestamp").and_then(|f| f.as_str()).map(|s| s.to_string()),
        v.get("last_activity").and_then(|f| f.as_str()).map(|s| s.to_string()),
        v.get("task").map(|f| f.as_str().map(|s| s.to_string())),
        v.get("pid").map(|f| f.as_u64()),
    )
}

/// Build a status record from its raw fields: the three text fields are
/// required; a missing task defaults to "idle", a missing pid to 0, and a
/// present but ill-typed task or pid (or one beyond `u32`) rejects the
/// record. For task and pid, the outer option is presence of the key and the
/// inner one is whether it reads as the right type.
pub fn assemble_record(
    status: Option<String>,
    timestamp: Option<String>,
    last_activity: Option<String>,
    task: Option<Option<String>>,
    pid: Option<Option<u64>>,
) -> (r: Option<WorkerStatus>)
    ensures
        r is Some <==> {
            &&& status is Some
            &&& timestamp is Some
            &&& last_activity is Some
            &&& !(task is Some && task->0 is None)
            &&& !(pid is Some && (pid->0 is None || pid->0->0 > u32::MAX))
        },
        r is Some ==> {
            let w = r->0;
            &&& w.status@ == status->0@
            &&& w.timestamp@ == timestamp->0@
            &&& w.last_activity@ == last_activity->0@
            &&& w.task@ == if task is Some {
                task->0->0@
            } else {
                "idle"@
            }
            &&& w.pid as u64 == if pid is Some {
                pid->0->0
            } else {
                0
            }
        },
{
    let status = match status {
        Option::Some(s) => s,
        Option::None => {
            return None;
        },
    };
    let timestamp = match timestamp {
        Option::Some(s) => s,
        Option::None => {
            return None;
        },
    };
    let last_activity = match last_activity {
        Option::Some(s) => s,
        Option::None => {
            return None;
        },
    };
    let task = match task {
        Option::None => crate::default_task(),
        Option::Some(Option::Some(t)) => t,
        Option::Some(Option::None) => {
            return None;
        },
    };
    let pid: u32 = match pid {
        Option::None => 0,
        Option::Some(Option::Some(p)) => {
            if p > u32::MAX as u64 {
                return None;
            }
            p as u32
        },
        Option::Some(Option::None) => {
            return None;
        },
    };
    Some(WorkerStatus { status, timestamp, last_activity, task, pid })
}

/// The record the raw fields assemble to: the three text fields are
/// required; a missing task defaults to "idle", a missing pid to 0; a
/// present but ill-typed task or pid, or a pid beyond `u32`, rejects the
/// record.
pub open spec fn assembled(
    f: (Option<Seq<char>>, Option<Seq<char>>, Option<Seq<char>>, Option<Option<Seq<char>>>, Option<
        Option<u64>,
    >),
) -> Option<WorkerStatusSpec> {
    if f.0 is Some && f.1 is Some && f.2 is Some && !(f.3 is Some && f.3->0 is None) && !(f.4
        is Some && (f.4->0 is None || f.4->0->0 > u32::MAX)) {
        Some(
            WorkerStatusSpec {
                status: f.0->0,
                timestamp: f.1->0,
                last_activity: f.2->0,
                task: if f.3 is Some {
                    f.3->0->0
                } else {
                    "idle"@
                },
                pid: (if f.4 is Some {
                    f.4->0->0
                } else {
                    0
                }) as u32,
            },
        )
    } else {
        None
    }
}

/// Parse one agent status file's JSON text: the record assembled from the
/// document's fields, `None` when a required field is missing or ill-typed.
pub fn parse_agent_record(content: &str) -> (r: Option<WorkerStatus>)
    ensures
        r is Some <==> assembled(agent_fields_of(content@)) is Some,
        r is Some ==> r->0@ == assembled(agent_fields_of(content@))->0,
{
    let (status, timestamp, last_activity, task, pid) = agent_fields(content);
    assemble_record(status, timestamp, last_activity, task, pid)
}

/// The liveness verdict over a process-table probe's output: pid 0 is never
/// alive, a failed probe means dead, and otherwise the agent is alive exactly
/// when the output names the pid in decimal.
pub fn liveness_verdict(pid: u32, probe: Option<String>) -> (r: bool)
    ensures
        pid == 0 ==> !r,
        probe is None ==> !r,
        pid != 0 && probe is Some ==> r == contains_seq(probe->0@, dec_str(pid as int)),
{
    if pid == 0 {
        return false;
    }
    match probe {
        Option::None => false,
        Option::Some(out) => {
            let hay = str_to_chars(out.as_str());
            let needle = u32_decimal(pid);
            contains_vec(&hay, &needle)
        },
    }
}

/// An identified agent record.
pub struct AgentRecord {
    /// The agent id: the status file's stem.
    pub id: String,
    /// The parsed record.
    pub status: WorkerStatus,
}

/// Mathematical image of an identified record.
pub ghost struct AgentRecordSpec {
    pub id: Seq<char>,
    pub status: WorkerStatusSpec,
}

impl View for AgentRecord {
    type V = AgentRecordSpec;

    open spec fn view(&self) -> AgentRecordSpec {
        AgentRecordSpec { id: self.id@, status: self.status@ }
    }
}

/// The views of a sequence of identified records.
pub open spec fn agent_views(s: Seq<AgentRecord>) -> Seq<AgentRecordSpec> {
    s.map_values(|a: AgentRecord| a@)
}

/// The records marked alive, in order.
pub open spec fn live_of(entries: Seq<AgentRecordSpec>, alive: Seq<bool>) -> Seq<AgentRecordSpec>
    decreases entries.len(),
{
    if entries.len() == 0 || entries.len() != alive.len() {
        Seq::empty()
    } else {
        let rest = live_of(entries.drop_last(), alive.drop_last());
        if alive.last() {
            rest.push(entries.last())
        } else {
            rest
        }
    }
}

/// The ids of the records marked dead, in order: their files are stale and
/// are to be deleted.
pub open spec fn stale_of(entries: Seq<AgentRecordSpec>, alive: Seq<bool>) -> Seq<Seq<char>>
    decreases entries.len(),
{
    if entries.len() == 0 || entries.len() != alive.len() {
        Seq::empty()
    } else {
        let rest = stale_of(entries.drop_last(), alive.drop_last());
        if !alive.last() {
            rest.push(entries.last().id)
        } else {
            rest
        }
    }
}

/// Split the scanned records by the liveness verdicts: the live registry and
/// the stale ids whose files the registry heals away.
pub fn filter_live_agents(records: Vec<AgentRecord>, alive: &Vec<bool>) -> (r: (
    Vec<AgentRecord>,
    Vec<String>,
))
    requires
        records@.len() == alive@.len(),
    ensures
        agent_views(r.0@) == live_of(agent_views(records@), alive@),
        r.1.deep_view() == stale_of(agent_views(records@), alive@),
{
    let ghost all = agent_views(records@);
    let ghost flags = alive@;
    let mut live: Vec<AgentRecord> = Vec::new();
    let mut stale: Vec<String> = Vec::new();
    let mut records = records;
    let mut i: usize = 0;
    let n = records.len();
    while i < n
        invariant
            all.len() == n,
            flags.len() == n,
            flags == alive@,
            agent_views(records@) == all.skip(i as int),
            i <= n,
            agent_views(live@) == live_of(all.take(i as int), flags.take(i as int)),
            stale.deep_view() == stale_of(all.take(i as int), flags.take(i as int)),
        decreases n - i,
    {
        let ghost old_live = live@;
        let ghost old_stale_dv = stale.deep_view();
        let ghost prev = records@;
        proof {
            assert(all.take(i + 1).drop_last() =~= all.take(i as int));
            assert(flags.take(i + 1).drop_last() =~= flags.take(i as int));
            assert(all.take(i + 1).last() == all[i as int]);
            assert(flags.take(i + 1).last() == flags[i as int]);
        }
        proof {
            assert(agent_views(records@).len() == records@.len());
        }
        let a = records.remove(0);
        proof {
            assert(records@ =~= prev.skip(1));
            assert(agent_views(records@) =~= agent_views(prev).skip(1));
            assert(agent_views(prev).skip(1) =~= all.skip(i as int).skip(1));
            assert(all.skip(i as int).skip(1) =~= all.skip(i + 1));
            assert(a@ == agent_views(prev)[0]);
            assert(a@ == all[i as int]);
        }
        if alive[i] {
            live.push(a);
            proof {
                assert(agent_views(live@) =~= agent_views(old_live).push(all[i as int]));
            }
        } else {
            let id = a.id;
            stale.push(id);
            proof {
                assert(stale.deep_view() =~= old_stale_dv.push(all[i as int].id));
            }
        }
        i = i + 1;
    }
    proof {
        assert(all.take(n as int) =~= all);
        assert(flags.take(n as int) =~= flags);
    }
    (live, stale)
}

/// The lock set: the task filename of every live agent.
pub fn lock_files(live: &Vec<AgentRecord>) -> (r: Vec<String>)
    ensures
        r@.len() == live@.len(),
        forall|k: int|
            0 <= k < live@.len() ==> r.deep_view()[k] == agent_views(live@)[k].status.task,
{
    let mut r: Vec<String> = Vec::new();
    let mut i: usize = 0;
    while i < live.len()
        invariant
            i <= live@.len(),
            r@.len() == i,
            forall|k: int|
                0 <= k < i ==> r.deep_view()[k] == agent_views(live@)[k].status.task,
        decreases live@.len() - i,
    {
        let ghost prev = r@;
        let ghost prev_dv = r.deep_view();
        r.push(live[i].status.task.clone());
        proof {
            assert forall|k: int|
                0 <= k <= i implies r.deep_view()[k] == agent_views(live@)[k].status.task by {
                if k < i {
                    assert(prev_dv[k] == agent_views(live@)[k].status.task);
                    assert(r@[k] == prev[k]);
                    assert(r.deep_view()[k] == r@[k].deep_view());
                    assert(prev_dv[k] == prev[k].deep_view());
                } else {
                    assert(r.deep_view()[k] == r@[k].deep_view());
                }
            }
        }
        i = i + 1;
    }
    r
}

} // verus!
