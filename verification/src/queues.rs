//! The classified queue set: buckets per task class, the completed queue's
//! ordering by modification time, and the surfaced prefix of it.

use vstd::prelude::*;
use vstd::multiset::Multiset;
use vstd::seq_lib::group_to_multiset_ensures;
use crate::task::{classify, classify_spec, views, TaskClass, TaskInfo, TaskSpec};
use crate::text::{contains_seq, contains_vec, str_to_chars};

verus! {

/// Tasks of `s` classified as `c`, keeping their order.
pub open spec fn bucket_of(s: Seq<TaskSpec>, c: TaskClass) -> Seq<TaskSpec>
    decreases s.len(),
{
    if s.len() == 0 {
        Seq::empty()
    } else {
        let rest = bucket_of(s.drop_last(), c);
        if classify_spec(s.last().status, s.last().sub_status) == c {
            rest.push(s.last())
        } else {
            rest
        }
    }
}

/// A status tag an archived task counts as completed under.
pub open spec fn is_done_status(status: Seq<char>) -> bool {
    contains_seq(status, "COMPLETED"@) || contains_seq(status, "DONE"@)
}

/// Archived tasks whose status counts as completed, keeping their order.
pub open spec fn done_of(s: Seq<TaskSpec>) -> Seq<TaskSpec>
    decreases s.len(),
{
    if s.len() == 0 {
        Seq::empty()
    } else {
        let rest = done_of(s.drop_last());
        if is_done_status(s.last().status) {
            rest.push(s.last())
        } else {
            rest
        }
    }
}

/// Sorted by modification time, newest first.
pub open spec fn sorted_desc(s: Seq<TaskSpec>) -> bool {
    forall|i: int, j: int| 0 <= i < j < s.len() ==> s[i].modified >= s[j].modified
}

/// Sort tasks by modification time, newest first.
pub fn sort_by_modified_desc(v: Vec<TaskInfo>) -> (r: Vec<TaskInfo>)
    ensures
        sorted_desc(views(r@)),
        views(r@).to_multiset() == views(v@).to_multiset(),
{
    broadcast use group_to_multiset_ensures;

    let mut src = v;
    let mut out: Vec<TaskInfo> = Vec::new();
    proof {
        views(out@).to_multiset_ensures();
        assert(views(out@).to_multiset() =~= Multiset::<TaskSpec>::empty());
        assert(views(out@).to_multiset().add(views(src@).to_multiset()) =~= views(
            v@,
        ).to_multiset());
    }
    while src.len() > 0
        invariant
            views(out@).to_multiset().add(views(src@).to_multiset()) == views(v@).to_multiset(),
            sorted_desc(views(out@)),
            forall|i: int, j: int|
                0 <= i < out@.len() && 0 <= j < src@.len() ==> views(out@)[i].modified >= views(
                    src@,
                )[j].modified,
        decreases src.len(),
    {
        let mut m: usize = 0;
        let mut k: usize = 1;
        while k < src.len()
            invariant
                m < src@.len(),
                k <= src@.len(),
                src@.len() > 0,
                forall|t: int| 0 <= t < k ==> src@[t]@.modified <= src@[m as int]@.modified,
            decreases src@.len() - k,
        {
            if src[k].modified > src[m].modified {
                m = k;
            }
            k = k + 1;
        }
        let ghost old_src = src@;
        let ghost old_out = out@;
        let t = src.remove(m);
        out.push(t);
        proof {
            assert(views(src@) =~= views(old_src).remove(m as int));
            assert(views(out@) =~= views(old_out).push(t@));
            assert(views(old_src)[m as int] == t@);
            views(old_src).to_multiset_ensures();
            views(old_out).to_multiset_ensures();
            assert(views(out@).to_multiset() == views(old_out).push(t@).to_multiset());
            assert(views(src@).to_multiset() == views(old_src).remove(m as int).to_multiset());
            assert(views(old_src).contains(t@));
            assert(views(out@).to_multiset().add(views(src@).to_multiset()) =~= views(
                v@,
            ).to_multiset());
            assert forall|i: int, j: int|
                0 <= i < out@.len() && 0 <= j < src@.len() implies views(out@)[i].modified
                >= views(src@)[j].modified by {
                assert(views(src@)[j] == views(old_src).remove(m as int)[j]);
            }
        }
    }
    out
}

/// Classify the active tasks into the five queues; merge archived completed
/// tasks into the completed queue and sort it newest first.
pub fn get_all_tasks_classified(active: Vec<TaskInfo>, archived: Vec<TaskInfo>) -> (r: (
    Vec<TaskInfo>,
    Vec<TaskInfo>,
    Vec<TaskInfo>,
    Vec<TaskInfo>,
    Vec<TaskInfo>,
))
    ensures
        views(r.0@) == bucket_of(views(active@), TaskClass::Pending),
        views(r.1@) == bucket_of(views(active@), TaskClass::Running),
        views(r.2@) == bucket_of(views(active@), TaskClass::Review),
        sorted_desc(views(r.3@)),
        views(r.3@).to_multiset() == (bucket_of(views(active@), TaskClass::Completed) + done_of(
            views(archived@),
        )).to_multiset(),
        views(r.4@) == bucket_of(views(active@), TaskClass::Errored),
{
    let mut pending: Vec<TaskInfo> = Vec::new();
    let mut running: Vec<TaskInfo> = Vec::new();
    let mut review: Vec<TaskInfo> = Vec::new();
    let mut completed: Vec<TaskInfo> = Vec::new();
    let mut errors: Vec<TaskInfo> = Vec::new();
    let mut active = active;
    let ghost all_active = views(active@);
    while active.len() > 0
        invariant
            views(active@) == all_active.skip(all_active.len() - active@.len()),
            active@.len() <= all_active.len(),
            views(pending@) == bucket_of(
                all_active.take(all_active.len() - active@.len()),
                TaskClass::Pending,
            ),
            views(running@) == bucket_of(
                all_active.take(all_active.len() - active@.len()),
                TaskClass::Running,
            ),
            views(review@) == bucket_of(
                all_active.take(all_active.len() - active@.len()),
                TaskClass::Review,
            ),
            views(completed@) == bucket_of(
                all_active.take(all_active.len() - active@.len()),
                TaskClass::Completed,
            ),
            views(errors@) == bucket_of(
                all_active.take(all_active.len() - active@.len()),
                TaskClass::Errored,
            ),
        decreases active.len(),
    {
        let ghost done: int = all_active.len() - active@.len();
        let ghost prev = active@;
        let t = active.remove(0);
        proof {
            assert(active@ =~= prev.skip(1));
            assert(views(active@) =~= views(prev).skip(1));
            assert(views(prev).skip(1) =~= all_active.skip(done).skip(1));
            assert(all_active.skip(done).skip(1) =~= all_active.skip(done + 1));
            assert(t@ == views(prev)[0]);
            assert(views(prev)[0] == all_active.skip(done)[0]);
            assert(t@ == all_active[done]);
            assert(all_active.take(done + 1).drop_last() =~= all_active.take(done));
            assert(all_active.take(done + 1).last() == all_active[done]);
        }
        let c = classify(&t);
        match c {
            TaskClass::Pending => {
                pending.push(t);
                proof {
                    assert(views(pending@) =~= bucket_of(
                        all_active.take(done + 1),
                        TaskClass::Pending,
                    ));
                }
            },
            TaskClass::Running => {
                running.push(t);
                proof {
                    assert(views(running@) =~= bucket_of(
                        all_active.take(done + 1),
                        TaskClass::Running,
                    ));
                }
            },
            TaskClass::Review => {
                review.push(t);
                proof {
                    assert(views(review@) =~= bucket_of(
                        all_active.take(done + 1),
                        TaskClass::Review,
                    ));
                }
            },
            TaskClass::Completed => {
                completed.push(t);
                proof {
                    assert(views(completed@) =~= bucket_of(
                        all_active.take(done + 1),
                        TaskClass::Completed,
                    ));
                }
            },
            TaskClass::Errored => {
                errors.push(t);
                proof {
                    assert(views(errors@) =~= bucket_of(
                        all_active.take(done + 1),
                        TaskClass::Errored,
                    ));
                }
            },
            TaskClass::Dropped => {},
        }
    }
    proof {
        assert(all_active.take(all_active.len() - active@.len()) =~= all_active);
    }
    let done_pat = str_to_chars("COMPLETED");
    let done_pat2 = str_to_chars("DONE");
    let mut archived = archived;
    let ghost all_archived = views(archived@);
    let ghost base = views(completed@);
    while archived.len() > 0
        invariant
            done_pat@ == "COMPLETED"@,
            done_pat2@ == "DONE"@,
            views(archived@) == all_archived.skip(all_archived.len() - archived@.len()),
            archived@.len() <= all_archived.len(),
            views(completed@) == base + done_of(
                all_archived.take(all_archived.len() - archived@.len()),
            ),
        decreases archived.len(),
    {
        let ghost done: int = all_archived.len() - archived@.len();
        let ghost prev = archived@;
        let t = archived.remove(0);
        proof {
            assert(archived@ =~= prev.skip(1));
            assert(views(archived@) =~= views(prev).skip(1));
            assert(views(prev).skip(1) =~= all_archived.skip(done).skip(1));
            assert(all_archived.skip(done).skip(1) =~= all_archived.skip(done + 1));
            assert(t@ == views(prev)[0]);
            assert(views(prev)[0] == all_archived.skip(done)[0]);
            assert(t@ == all_archived[done]);
            assert(all_archived.take(done + 1).drop_last() =~= all_archived.take(done));
            assert(all_archived.take(done + 1).last() == all_archived[done]);
        }
        let ghost old_completed = completed@;
        let status = str_to_chars(t.status.as_str());
        if contains_vec(&status, &done_pat) || contains_vec(&status, &done_pat2) {
            completed.push(t);
            proof {
                assert(views(completed@) =~= views(old_completed).push(t@));
            }
        }
        proof {
            assert(views(completed@) =~= base + done_of(all_archived.take(done + 1)));
        }
    }
    proof {
        assert(all_archived.take(all_archived.len() - archived@.len()) =~= all_archived);
    }
    let completed = sort_by_modified_desc(completed);
    (pending, running, review, completed, errors)
}

/// How many completed tasks are surfaced externally.
pub const SURFACE_LIMIT: usize = 20;

/// The surfaced part of the completed queue: its first twenty entries.
pub fn surfaced_completed(completed: Vec<TaskInfo>) -> (r: Vec<TaskInfo>)
    ensures
        r@ == if completed@.len() <= SURFACE_LIMIT {
            completed@
        } else {
            completed@.take(SURFACE_LIMIT as int)
        },
{
    let mut completed = completed;
    if completed.len() > SURFACE_LIMIT {
        completed.truncate(SURFACE_LIMIT);
    }
    completed
}

} // verus!
