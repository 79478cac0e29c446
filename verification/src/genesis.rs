//! The maintenance trigger: gating of the periodic cleanup and the idempotent
//! injection of the synthetic genesis task.

use vstd::prelude::*;
use crate::text::{
    contains_seq, contains_vec, match_at, segment_after, segment_after_exec, split_lines,
    split_lines_spec, starts_with_vec, str_to_chars, chars_to_string, trim_spec, trim_vec,
    upper_seq, upper_vec,
};

verus! {

/// The cleanup action fires on every multiple of the configured interval.
pub fn cleanup_due(cycle_count: u64, interval: u64) -> (r: bool)
    requires
        interval > 0,
    ensures
        r == (cycle_count % interval == 0),
{
    cycle_count % interval == 0
}

/// The pipeline is near-empty when fewer than three tasks are pending,
/// running or in review; only then is the genesis task considered.
pub fn pipeline_near_empty(pending: usize, running: usize, review: usize) -> (r: bool)
    ensures
        r == (pending + running + review < 3),
{
    pending <= 2 && running <= 2 - pending && review < 3 - pending - running
}

/// The guard file already shows the genesis task active or waiting: its
/// content, ASCII-upper-cased, names a TODO status or a working/pending
/// sub-status.
pub open spec fn genesis_active_spec(content: Seq<char>) -> bool {
    let c = upper_seq(content);
    ||| contains_seq(c, "STATUS: TODO"@)
    ||| contains_seq(c, "SUBSTATUS: WORKING"@)
    ||| contains_seq(c, "SUBSTATUS: PENDING_WORKER"@)
}

/// Executable form of `genesis_active_spec`.
pub fn genesis_active(content: &str) -> (r: bool)
    ensures
        r == genesis_active_spec(content@),
{
    let c = upper_vec(&str_to_chars(content));
    contains_vec(&c, &str_to_chars("STATUS: TODO")) || contains_vec(
        &c,
        &str_to_chars("SUBSTATUS: WORKING"),
    ) || contains_vec(&c, &str_to_chars("SUBSTATUS: PENDING_WORKER"))
}

/// What the trigger decides about the guard file.
#[derive(Clone, Copy, PartialEq, Eq, Structural, Debug)]
pub enum GenesisAction {
    /// Leave the file system as it is.
    Leave,
    /// Write the synthetic genesis task file.
    Write,
}

/// The trigger's decision: write unless injection is disabled or the guard
/// file already shows an active genesis task. `existing` is the guard file's
/// content, `None` when the file is missing or unreadable.
pub open spec fn genesis_decide_spec(disabled: bool, existing: Option<Seq<char>>) -> GenesisAction {
    if disabled {
        GenesisAction::Leave
    } else if existing is Some && genesis_active_spec(existing->0) {
        GenesisAction::Leave
    } else {
        GenesisAction::Write
    }
}

/// Decide whether to (re)write the guard file.
pub fn genesis_decide(disabled: bool, existing: &Option<String>) -> (r: GenesisAction)
    ensures
        r == genesis_decide_spec(
            disabled,
            if existing is Some {
                Some(existing->0@)
            } else {
                None
            },
        ),
{
    if disabled {
        return GenesisAction::Leave;
    }
    match existing {
        Option::Some(c) => {
            if genesis_active(c.as_str()) {
                GenesisAction::Leave
            } else {
                GenesisAction::Write
            }
        },
        Option::None => GenesisAction::Write,
    }
}

/// The content the trigger writes: a fresh TODO/pending genesis task.
pub open spec fn genesis_content_spec() -> Seq<char> {
    "# Story: Ativar Genesis Observer\nStatus: TODO\nsubStatus: pending_worker\nRevisions: 0\n\n## Contexto\n[EVOLUÇÃO] Gatilho automático de evolução sistêmica.\n\n## Critérios\n- [ ] Executar cérebro do Genesis.\n- [ ] Gerar novo lote de tarefas.\n\n## Aider Prompt\n> ```text\n> EXECUTE_COMMAND: node tools/agents/squads/genesis-observer/scripts/genesis-brain.js\n> ```\n"@
}

/// The synthetic genesis task file's content.
pub fn genesis_content() -> (r: String)
    ensures
        r@ == genesis_content_spec(),
{
    "# Story: Ativar Genesis Observer\nStatus: TODO\nsubStatus: pending_worker\nRevisions: 0\n\n## Contexto\n[EVOLUÇÃO] Gatilho automático de evolução sistêmica.\n\n## Critérios\n- [ ] Executar cérebro do Genesis.\n- [ ] Gerar novo lote de tarefas.\n\n## Aider Prompt\n> ```text\n> EXECUTE_COMMAND: node tools/agents/squads/genesis-observer/scripts/genesis-brain.js\n> ```\n".to_owned()
}

/// The content the trigger writes already counts as active, so injection is
/// idempotent: once the guard file holds it (or any active content), every
/// later decision is to leave the file alone, whatever the guard flag.
pub proof fn lemma_genesis_idempotent(disabled: bool, content: Seq<char>)
    requires
        genesis_active_spec(content),
    ensures
        genesis_decide_spec(disabled, Some(content)) == GenesisAction::Leave,
        genesis_active_spec(genesis_content_spec()),
{
    reveal_strlit(
        "# Story: Ativar Genesis Observer\nStatus: TODO\nsubStatus: pending_worker\nRevisions: 0\n\n## Contexto\n[EVOLUÇÃO] Gatilho automático de evolução sistêmica.\n\n## Critérios\n- [ ] Executar cérebro do Genesis.\n- [ ] Gerar novo lote de tarefas.\n\n## Aider Prompt\n> ```text\n> EXECUTE_COMMAND: node tools/agents/squads/genesis-observer/scripts/genesis-brain.js\n> ```\n",
    );
    reveal_strlit("STATUS: TODO");
    let g = genesis_content_spec();
    let c = upper_seq(g);
    let pat = "STATUS: TODO"@;
    assert(c.subrange(33, 45) =~= pat);
    assert(match_at(c, pat, 33));
}

/// The genesis status read from the guard file's lines: the text between the
/// first and second colon of the first sub-status line, trimmed and
/// ASCII-upper-cased; INATIVO when no file or no such line exists.
pub open spec fn genesis_status_lines(lines: Seq<Seq<char>>) -> Seq<char>
    decreases lines.len(),
{
    if lines.len() == 0 {
        "INATIVO"@
    } else if match_at(upper_seq(lines[0]), "SUBSTATUS:"@, 0) {
        upper_seq(trim_spec(segment_after(lines[0], ":"@)))
    } else {
        genesis_status_lines(lines.skip(1))
    }
}

/// The status shown for the genesis task.
pub open spec fn genesis_status_spec(content: Option<Seq<char>>) -> Seq<char> {
    match content {
        Option::None => "INATIVO"@,
        Option::Some(c) => genesis_status_lines(split_lines_spec(c)),
    }
}

/// Read the genesis status out of the guard file's content.
pub fn genesis_status(content: &Option<String>) -> (r: String)
    ensures
        r@ == genesis_status_spec(
            if content is Some {
                Some(content->0@)
            } else {
                None
            },
        ),
{
    let c = match content {
        Option::Some(c) => c,
        Option::None => {
            return "INATIVO".to_owned();
        },
    };
    let tag = str_to_chars("SUBSTATUS:");
    let colon = str_to_chars(":");
    let lines = split_lines(&str_to_chars(c.as_str()));
    let ghost all = split_lines_spec(c@);
    let mut i: usize = 0;
    proof {
        assert(all.skip(0) =~= all);
    }
    while i < lines.len()
        invariant
            content is Some,
            all == split_lines_spec(content->0@),
            lines.deep_view() == all,
            i <= all.len(),
            tag@ == "SUBSTATUS:"@,
            colon@ == ":"@,
            genesis_status_lines(all.skip(i as int)) == genesis_status_lines(all),
        decreases all.len() - i,
    {
        let line = &lines[i];
        proof {
            assert(line@ == all[i as int]);
            assert(all.skip(i as int)[0] == all[i as int]);
            assert(all.skip(i as int).skip(1) =~= all.skip(i + 1));
        }
        let u = upper_vec(line);
        if starts_with_vec(&u, &tag) {
            let seg = trim_vec(&segment_after_exec(line, &colon));
            return chars_to_string(&upper_vec(&seg));
        }
        i = i + 1;
    }
    proof {
        assert(all.skip(i as int) =~= Seq::<Seq<char>>::empty());
    }
    "INATIVO".to_owned()
}

} // verus!
