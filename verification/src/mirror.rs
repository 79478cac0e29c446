//! Reconciliation ("mirroring"): a live agent whose id matches no running or
//! review task promotes its matching pending task into running (for
//! privileged ids) or review, correcting task files that lag behind reality.

use vstd::prelude::*;
use crate::sanitize::{sanitize_spec, sanitize_worker_id};
use crate::task::{views, TaskInfo, TaskSpec};
use crate::text::{contains_seq, contains_vec, str_to_chars};

verus! {

/// A task answers to an agent id when its sanitised title is that id.
pub open spec fn id_matches(t: TaskSpec, id: Seq<char>) -> bool {
    sanitize_spec(t.title) == id
}

/// Index of the first task matching `id`, at or after `from`.
pub open spec fn first_id_match(tasks: Seq<TaskSpec>, id: Seq<char>, from: int) -> Option<int>
    decreases tasks.len() - from,
{
    if from < 0 || from >= tasks.len() {
        None
    } else if id_matches(tasks[from], id) {
        Some(from)
    } else {
        first_id_match(tasks, id, from + 1)
    }
}

/// An id of a system or onboarding agent, promoted to running rather than
/// review.
pub open spec fn privileged_id(id: Seq<char>) -> bool {
    ||| contains_seq(id, "Onboarding"@)
    ||| contains_seq(id, "Evolução"@)
    ||| contains_seq(id, "Ativar"@)
}

/// The three queues the reconciliation reads and rewrites.
pub ghost struct MirrorState {
    pub pending: Seq<TaskSpec>,
    pub running: Seq<TaskSpec>,
    pub review: Seq<TaskSpec>,
}

/// The effect of one agent id: when no running or review task answers to it
/// but a pending one does, that task moves out of pending, into running for a
/// privileged id and into review otherwise.
pub open spec fn mirror_step(st: MirrorState, id: Seq<char>) -> MirrorState {
    let in_lists = (exists|k: int| 0 <= k < st.running.len() && id_matches(st.running[k], id))
        || (exists|k: int| 0 <= k < st.review.len() && id_matches(st.review[k], id));
    if in_lists {
        st
    } else {
        match first_id_match(st.pending, id, 0) {
            Option::None => st,
            Option::Some(p) => {
                let t = st.pending[p];
                MirrorState {
                    pending: st.pending.remove(p),
                    running: if privileged_id(id) {
                        st.running.push(t)
                    } else {
                        st.running
                    },
                    review: if privileged_id(id) {
                        st.review
                    } else {
                        st.review.push(t)
                    },
                }
            },
        }
    }
}

/// Reconciliation folded over the agent ids.
pub open spec fn mirror_fold(st: MirrorState, ids: Seq<Seq<char>>) -> MirrorState
    decreases ids.len(),
{
    if ids.len() == 0 {
        st
    } else {
        mirror_fold(mirror_step(st, ids[0]), ids.skip(1))
    }
}

/// Does any task in `tasks` answer to `id`?
fn any_id_match(tasks: &Vec<TaskInfo>, id: &String) -> (r: bool)
    ensures
        r == exists|k: int| 0 <= k < views(tasks@).len() && id_matches(views(tasks@)[k], id@),
{
    let mut i: usize = 0;
    while i < tasks.len()
        invariant
            i <= tasks@.len(),
            forall|k: int| 0 <= k < i ==> !id_matches(views(tasks@)[k], id@),
        decreases tasks@.len() - i,
    {
        let wid = sanitize_worker_id(tasks[i].title.as_str());
        if wid == *id {
            proof {
                assert(id_matches(views(tasks@)[i as int], id@));
            }
            return true;
        }
        i = i + 1;
    }
    false
}

/// Index of the first task answering to `id`, if any.
fn position_id_match(tasks: &Vec<TaskInfo>, id: &String) -> (r: Option<usize>)
    ensures
        match r {
            Some(p) => p < tasks@.len() && first_id_match(views(tasks@), id@, 0) == Some(p as int),
            None => first_id_match(views(tasks@), id@, 0) is None,
        },
{
    let mut i: usize = 0;
    while i < tasks.len()
        invariant
            i <= tasks@.len(),
            first_id_match(views(tasks@), id@, 0) == first_id_match(views(tasks@), id@, i as int),
        decreases tasks@.len() - i,
    {
        let wid = sanitize_worker_id(tasks[i].title.as_str());
        if wid == *id {
            proof {
                assert(id_matches(views(tasks@)[i as int], id@));
            }
            return Some(i);
        }
        i = i + 1;
    }
    None
}

/// Reconcile the queues against the live agent ids.
pub fn mirror_queues(
    pending: &mut Vec<TaskInfo>,
    running: &mut Vec<TaskInfo>,
    review: &mut Vec<TaskInfo>,
    agent_ids: &Vec<String>,
)
    ensures
        ({
            let st = mirror_fold(
                (MirrorState {
                    pending: views(old(pending)@),
                    running: views(old(running)@),
                    review: views(old(review)@),
                }),
                agent_ids.deep_view(),
            );
            &&& views(final(pending)@) == st.pending
            &&& views(final(running)@) == st.running
            &&& views(final(review)@) == st.review
        }),
{
    let ghost all_ids = agent_ids.deep_view();
    let ghost st0 = MirrorState {
        pending: views(pending@),
        running: views(running@),
        review: views(review@),
    };
    let onboarding = str_to_chars("Onboarding");
    let evolution = str_to_chars("Evolução");
    let activate = str_to_chars("Ativar");
    let mut i: usize = 0;
    proof {
        assert(all_ids.skip(0) =~= all_ids);
    }
    while i < agent_ids.len()
        invariant
            all_ids == agent_ids.deep_view(),
            i <= all_ids.len(),
            onboarding@ == "Onboarding"@,
            evolution@ == "Evolução"@,
            activate@ == "Ativar"@,
            mirror_fold(
                (MirrorState {
                    pending: views(pending@),
                    running: views(running@),
                    review: views(review@),
                }),
                all_ids.skip(i as int),
            ) == mirror_fold(st0, all_ids),
        decreases all_ids.len() - i,
    {
        let ghost before = MirrorState {
            pending: views(pending@),
            running: views(running@),
            review: views(review@),
        };
        let id = &agent_ids[i];
        proof {
            assert(id@ == all_ids[i as int]);
        }
        let in_lists = any_id_match(running, id) || any_id_match(review, id);
        if !in_lists {
            match position_id_match(pending, id) {
                Option::Some(p) => {
                    let ghost old_pending = pending@;
                    let task = pending.remove(p);
                    proof {
                        assert(views(pending@) =~= views(old_pending).remove(p as int));
                        assert(task@ == views(old_pending)[p as int]);
                    }
                    let idc = str_to_chars(id.as_str());
                    if contains_vec(&idc, &onboarding) || contains_vec(&idc, &evolution)
                        || contains_vec(&idc, &activate) {
                        let ghost old_running = running@;
                        running.push(task);
                        proof {
                            assert(views(running@) =~= views(old_running).push(
                                views(old_pending)[p as int],
                            ));
                        }
                    } else {
                        let ghost old_review = review@;
                        review.push(task);
                        proof {
                            assert(views(review@) =~= views(old_review).push(
                                views(old_pending)[p as int],
                            ));
                        }
                    }
                },
                Option::None => {},
            }
        }
        proof {
            let after = MirrorState {
                pending: views(pending@),
                running: views(running@),
                review: views(review@),
            };
            assert(after == mirror_step(before, all_ids[i as int]));
            assert(all_ids.skip(i as int).skip(1) =~= all_ids.skip(i + 1));
            assert(all_ids.skip(i as int)[0] == all_ids[i as int]);
        }
        i = i + 1;
    }
    proof {
        assert(all_ids.skip(i as int) =~= Seq::<Seq<char>>::empty());
    }
}

} // verus!
