//! Capacity planning and dispatch selection: compute free worker slots and
//! walk the queues in priority order, skipping locked files, until the slots
//! are spent.

use vstd::prelude::*;
use crate::sanitize::{sanitize_spec, sanitize_worker_id};
use crate::task::{views, TaskInfo, TaskSpec};

verus! {

/// One worker launch the Guardian decides on: the sanitised worker id, the
/// task file handed to it, and whether it runs the observer role.
pub struct LaunchCmd {
    pub worker_id: String,
    pub mission: String,
    pub observer: bool,
}

/// Mathematical image of a launch decision.
pub ghost struct LaunchCmdSpec {
    pub worker_id: Seq<char>,
    pub mission: Seq<char>,
    pub observer: bool,
}

impl View for LaunchCmd {
    type V = LaunchCmdSpec;

    open spec fn view(&self) -> LaunchCmdSpec {
        LaunchCmdSpec { worker_id: self.worker_id@, mission: self.mission@, observer: self.observer }
    }
}

/// The views of a sequence of launch decisions.
pub open spec fn cmd_views(s: Seq<LaunchCmd>) -> Seq<LaunchCmdSpec> {
    s.map_values(|c: LaunchCmd| c@)
}

/// Free worker slots: the pool ceiling less the live agents, floored at zero.
pub fn available_slots(pool_ceiling: usize, live_agents: usize) -> (r: usize)
    ensures
        r == if live_agents < pool_ceiling {
            pool_ceiling - live_agents
        } else {
            0
        },
        r + live_agents >= pool_ceiling || r == 0,
{
    if live_agents < pool_ceiling {
        pool_ceiling - live_agents
    } else {
        0
    }
}

/// State of a dispatch walk: what was picked, which files are locked, and how
/// many slots remain.
pub ghost struct SelectState {
    pub picked: Seq<LaunchCmdSpec>,
    pub locks: Seq<Seq<char>>,
    pub slots: nat,
}

/// The walk's effect of one candidate task: picked when slots remain and its
/// file is not locked, which then locks the file and spends a slot.
pub open spec fn select_step(st: SelectState, t: TaskSpec, observer: bool) -> SelectState {
    if st.slots > 0 && !st.locks.contains(t.filename) {
        SelectState {
            picked: st.picked.push(
                LaunchCmdSpec {
                    worker_id: sanitize_spec(t.title),
                    mission: t.filename,
                    observer: observer,
                },
            ),
            locks: st.locks.push(t.filename),
            slots: (st.slots - 1) as nat,
        }
    } else {
        st
    }
}

/// The walk folded over one queue.
pub open spec fn select_fold(st: SelectState, tasks: Seq<TaskSpec>, observer: bool) -> SelectState
    decreases tasks.len(),
{
    if tasks.len() == 0 {
        st
    } else {
        select_fold(select_step(st, tasks[0], observer), tasks.skip(1), observer)
    }
}

/// The whole dispatch decision: review first, then running, then pending.
pub open spec fn select_queues(
    review: Seq<TaskSpec>,
    running: Seq<TaskSpec>,
    pending: Seq<TaskSpec>,
    locks: Seq<Seq<char>>,
    slots: nat,
) -> SelectState {
    let st0 = SelectState { picked: Seq::empty(), locks: locks, slots: slots };
    let st1 = select_fold(st0, review, true);
    let st2 = select_fold(st1, running, false);
    select_fold(st2, pending, false)
}

/// Does `locks` hold `f`?
fn locks_contain(locks: &Vec<String>, f: &String) -> (r: bool)
    ensures
        r == locks.deep_view().contains(f@),
{
    let mut i: usize = 0;
    while i < locks.len()
        invariant
            i <= locks@.len(),
            forall|k: int| 0 <= k < i ==> locks.deep_view()[k] != f@,
        decreases locks@.len() - i,
    {
        if locks[i] == *f {
            proof {
                assert(locks.deep_view()[i as int] == f@);
            }
            return true;
        }
        i = i + 1;
    }
    proof {
        if locks.deep_view().contains(f@) {
            let k = choose|k: int| 0 <= k < locks.deep_view().len() && locks.deep_view()[k] == f@;
            assert(locks.deep_view()[k] == f@);
        }
    }
    false
}

/// Walk one queue, spending slots and extending the locks and the picks.
fn select_from(
    tasks: &Vec<TaskInfo>,
    observer: bool,
    locks: &mut Vec<String>,
    slots: &mut usize,
    out: &mut Vec<LaunchCmd>,
)
    ensures
        ({
            let st = select_fold(
                (SelectState {
                    picked: cmd_views(old(out)@),
                    locks: old(locks).deep_view(),
                    slots: *old(slots) as nat,
                }),
                views(tasks@),
                observer,
            );
            &&& cmd_views(final(out)@) == st.picked
            &&& final(locks).deep_view() == st.locks
            &&& *final(slots) as nat == st.slots
        }),
{
    let ghost all = views(tasks@);
    let mut i: usize = 0;
    let ghost st0 = SelectState {
        picked: cmd_views(out@),
        locks: locks.deep_view(),
        slots: *slots as nat,
    };
    proof {
        assert(all.skip(0) =~= all);
    }
    while i < tasks.len()
        invariant
            all == views(tasks@),
            i <= all.len(),
            select_fold(
                (SelectState {
                    picked: cmd_views(out@),
                    locks: locks.deep_view(),
                    slots: *slots as nat,
                }),
                all.skip(i as int),
                observer,
            ) == select_fold(st0, all, observer),
        decreases all.len() - i,
    {
        let ghost before = SelectState {
            picked: cmd_views(out@),
            locks: locks.deep_view(),
            slots: *slots as nat,
        };
        let t = &tasks[i];
        proof {
            assert(t@ == all[i as int]);
        }
        if *slots > 0 && !locks_contain(locks, &t.filename) {
            let id = sanitize_worker_id(t.title.as_str());
            out.push(
                LaunchCmd { worker_id: id, mission: t.filename.clone(), observer: observer },
            );
            locks.push(t.filename.clone());
            *slots = *slots - 1;
            proof {
                assert(cmd_views(out@) =~= before.picked.push(
                    LaunchCmdSpec {
                        worker_id: sanitize_spec(t@.title),
                        mission: t@.filename,
                        observer: observer,
                    },
                ));
                assert(locks.deep_view() =~= before.locks.push(t@.filename));
            }
        }
        proof {
            let after = SelectState {
                picked: cmd_views(out@),
                locks: locks.deep_view(),
                slots: *slots as nat,
            };
            assert(after == select_step(before, all[i as int], observer));
            assert(all.skip(i as int).skip(1) =~= all.skip(i + 1));
            assert(all.skip(i as int)[0] == all[i as int]);
        }
        i = i + 1;
    }
    proof {
        assert(all.skip(i as int) =~= Seq::<TaskSpec>::empty());
    }
}

/// Decide this cycle's launches: queues in priority order, at most `slots`
/// picks, never a locked file.
pub fn select_dispatch(
    review: &Vec<TaskInfo>,
    running: &Vec<TaskInfo>,
    pending: &Vec<TaskInfo>,
    locks: Vec<String>,
    slots: usize,
) -> (r: Vec<LaunchCmd>)
    ensures
        cmd_views(r@) == select_queues(
            views(review@),
            views(running@),
            views(pending@),
            locks.deep_view(),
            slots as nat,
        ).picked,
{
    let mut locks = locks;
    let mut slots = slots;
    let mut out: Vec<LaunchCmd> = Vec::new();
    proof {
        assert(cmd_views(out@) =~= Seq::<LaunchCmdSpec>::empty());
    }
    select_from(review, true, &mut locks, &mut slots, &mut out);
    select_from(running, false, &mut locks, &mut slots, &mut out);
    select_from(pending, false, &mut locks, &mut slots, &mut out);
    out
}

/// Invariant carried by the dispatch walk: every pick's file is locked, and
/// no two picks name the same file.
pub open spec fn picks_locked_distinct(st: SelectState) -> bool {
    &&& forall|k: int| 0 <= k < st.picked.len() ==> st.locks.contains(#[trigger] st.picked[k].mission)
    &&& forall|k: int, l: int|
        0 <= k < l < st.picked.len() ==> st.picked[k].mission != st.picked[l].mission
}

/// One queue's walk keeps the invariant, only adds locks, spends no more
/// slots than it had, and picks exactly one task per spent slot.
pub proof fn lemma_select_fold_safe(st: SelectState, tasks: Seq<TaskSpec>, observer: bool)
    requires
        picks_locked_distinct(st),
    ensures
        ({
            let st2 = select_fold(st, tasks, observer);
            &&& picks_locked_distinct(st2)
            &&& st2.slots <= st.slots
            &&& st2.picked.len() - st.picked.len() == st.slots - st2.slots
            &&& st2.picked.take(st.picked.len() as int) == st.picked
            &&& forall|f: Seq<char>| st.locks.contains(f) ==> st2.locks.contains(f)
            &&& forall|k: int|
                st.picked.len() <= k < st2.picked.len() ==> !st.locks.contains(
                    #[trigger] st2.picked[k].mission,
                )
        }),
    decreases tasks.len(),
{
    if tasks.len() == 0 {
        assert(st.picked.take(st.picked.len() as int) =~= st.picked);
    } else {
        let mid = select_step(st, tasks[0], observer);
        assert(picks_locked_distinct(mid)) by {
            if st.slots > 0 && !st.locks.contains(tasks[0].filename) {
                assert forall|k: int| 0 <= k < mid.picked.len() implies mid.locks.contains(
                    #[trigger] mid.picked[k].mission,
                ) by {
                    if k < st.picked.len() {
                        assert(st.locks.contains(st.picked[k].mission));
                        let j = choose|j: int|
                            0 <= j < st.locks.len() && st.locks[j] == st.picked[k].mission;
                        assert(mid.locks[j] == st.picked[k].mission);
                    } else {
                        assert(mid.locks[st.locks.len() as int] == tasks[0].filename);
                    }
                }
            }
        }
        lemma_select_fold_safe(mid, tasks.skip(1), observer);
        let st2 = select_fold(st, tasks, observer);
        assert forall|f: Seq<char>| st.locks.contains(f) implies st2.locks.contains(f) by {
            let j = choose|j: int| 0 <= j < st.locks.len() && st.locks[j] == f;
            assert(mid.locks[j] == f);
            assert(mid.locks.contains(f));
        }
        assert(st2.picked.take(st.picked.len() as int) =~= st2.picked.take(
            mid.picked.len() as int,
        ).take(st.picked.len() as int));
        if st.slots > 0 && !st.locks.contains(tasks[0].filename) {
            assert forall|k: int|
                st.picked.len() <= k < st2.picked.len() implies !st.locks.contains(
                #[trigger] st2.picked[k].mission,
            ) by {
                if k >= mid.picked.len() {
                    assert(!mid.locks.contains(st2.picked[k].mission));
                    assert forall|f: Seq<char>| st.locks.contains(f) implies mid.locks.contains(
                        f,
                    ) by {
                        let j = choose|j: int| 0 <= j < st.locks.len() && st.locks[j] == f;
                        assert(mid.locks[j] == f);
                    }
                } else {
                    assert(st2.picked[k] == mid.picked[k]);
                    assert(k == st.picked.len());
                }
            }
        }
    }
}

/// The dispatcher's guarantee: it never selects a file already in the lock
/// set, never selects the same file twice, and never picks more tasks than
/// there are free slots.
pub proof fn lemma_dispatch_safe(
    review: Seq<TaskSpec>,
    running: Seq<TaskSpec>,
    pending: Seq<TaskSpec>,
    locks: Seq<Seq<char>>,
    slots: nat,
)
    ensures
        ({
            let picked = select_queues(review, running, pending, locks, slots).picked;
            &&& picked.len() <= slots
            &&& forall|k: int| 0 <= k < picked.len() ==> !locks.contains(
                #[trigger] picked[k].mission,
            )
            &&& forall|k: int, l: int|
                0 <= k < l < picked.len() ==> picked[k].mission != picked[l].mission
        }),
{
    let st0 = SelectState { picked: Seq::empty(), locks: locks, slots: slots };
    let st1 = select_fold(st0, review, true);
    let st2 = select_fold(st1, running, false);
    let st3 = select_fold(st2, pending, false);
    lemma_select_fold_safe(st0, review, true);
    lemma_select_fold_safe(st1, running, false);
    lemma_select_fold_safe(st2, pending, false);
    assert forall|k: int| 0 <= k < st3.picked.len() implies !locks.contains(
        #[trigger] st3.picked[k].mission,
    ) by {
        if k < st1.picked.len() {
            assert(st3.picked.take(st2.picked.len() as int) == st2.picked);
            assert(st2.picked.take(st1.picked.len() as int) == st1.picked);
            assert(st3.picked[k] == st1.picked[k]);
        } else if k < st2.picked.len() {
            assert(st3.picked.take(st2.picked.len() as int) == st2.picked);
            assert(st3.picked[k] == st2.picked[k]);
            assert(!st1.locks.contains(st2.picked[k].mission));
        } else {
            assert(!st2.locks.contains(st3.picked[k].mission));
        }
    }
}

} // verus!
