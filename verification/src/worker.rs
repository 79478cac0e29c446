//! The worker's queue-consumption step: FIFO choice of the next prompt file,
//! the actions that follow one execution attempt, the result file names, and
//! the identity check run before the loop starts.

use vstd::prelude::*;
use crate::text::{
    chars_to_string, contains_seq, contains_vec, dec_str, lex_le, lex_le_exec, match_at,
    str_to_chars, u32_decimal,
};

verus! {

/// A prompt file's name: anything with the `.prompt` extension.
pub open spec fn is_prompt_name(f: Seq<char>) -> bool {
    f.len() > ".prompt"@.len() && match_at(f, ".prompt"@, f.len() - ".prompt"@.len())
}

/// Executable prompt-name test.
pub fn is_prompt_file(f: &String) -> (r: bool)
    ensures
        r == is_prompt_name(f@),
{
    let chars = str_to_chars(f.as_str());
    let ext = str_to_chars(".prompt");
    if chars.len() <= ext.len() {
        return false;
    }
    let clen = chars.len();
    let at = chars.len() - ext.len();
    let mut i: usize = 0;
    while i < ext.len()
        invariant
            clen == chars@.len(),
            chars@ == f@,
            ext@ == ".prompt"@,
            ext@.len() < chars@.len(),
            at == chars@.len() - ext@.len(),
            i <= ext@.len(),
            forall|k: int| 0 <= k < i ==> chars@[at + k] == ext@[k],
        decreases ext@.len() - i,
    {
        if chars[at + i] != ext[i] {
            proof {
                assert(f@.subrange(at as int, f@.len() as int)[i as int] != ext@[i as int]);
            }
            return false;
        }
        i = i + 1;
    }
    proof {
        assert(f@.subrange(at as int, f@.len() as int) =~= ext@);
    }
    true
}

/// The lexicographic order is total.
pub proof fn lemma_lex_total(a: Seq<char>, b: Seq<char>)
    ensures
        lex_le(a, b) || lex_le(b, a),
    decreases a.len(),
{
    if a.len() == 0 || b.len() == 0 {
    } else if (a[0] as u32) != (b[0] as u32) {
    } else {
        lemma_lex_total(a.skip(1), b.skip(1));
    }
}

/// The lexicographic order is transitive.
pub proof fn lemma_lex_trans(a: Seq<char>, b: Seq<char>, c: Seq<char>)
    requires
        lex_le(a, b),
        lex_le(b, c),
    ensures
        lex_le(a, c),
    decreases a.len(),
{
    if a.len() == 0 {
    } else {
        if (a[0] as u32) == (b[0] as u32) && (b[0] as u32) == (c[0] as u32) {
            lemma_lex_trans(a.skip(1), b.skip(1), c.skip(1));
        }
    }
}

/// The FIFO choice: among the prompt files of the queue directory, the
/// lexicographically least name; `None` when no prompt file is present.
pub fn next_prompt(files: &Vec<String>) -> (r: Option<String>)
    ensures
        match r {
            Some(f) => {
                &&& files.deep_view().contains(f@)
                &&& is_prompt_name(f@)
                &&& forall|k: int|
                    0 <= k < files.deep_view().len() && is_prompt_name(
                        #[trigger] files.deep_view()[k],
                    ) ==> lex_le(f@, files.deep_view()[k])
            },
            None => forall|k: int|
                0 <= k < files.deep_view().len() ==> !is_prompt_name(
                    #[trigger] files.deep_view()[k],
                ),
        },
{
    let mut best: Option<usize> = None;
    let mut i: usize = 0;
    while i < files.len()
        invariant
            i <= files@.len(),
            match best {
                Some(b) => {
                    &&& b < i
                    &&& is_prompt_name(files.deep_view()[b as int])
                    &&& forall|k: int|
                        0 <= k < i && is_prompt_name(#[trigger] files.deep_view()[k]) ==> lex_le(
                            files.deep_view()[b as int],
                            files.deep_view()[k],
                        )
                },
                None => forall|k: int|
                    0 <= k < i ==> !is_prompt_name(#[trigger] files.deep_view()[k]),
            },
        decreases files@.len() - i,
    {
        if is_prompt_file(&files[i]) {
            match best {
                Option::None => {
                    best = Some(i);
                    proof {
                        let ghost b: int = i as int;
                        assert forall|k: int|
                            0 <= k < i + 1 && is_prompt_name(
                                #[trigger] files.deep_view()[k],
                            ) implies lex_le(files.deep_view()[b], files.deep_view()[k]) by {
                            if k < i {
                            } else {
                                lemma_lex_total(files.deep_view()[b], files.deep_view()[k]);
                            }
                        }
                    }
                },
                Option::Some(b) => {
                    let cand = str_to_chars(files[i].as_str());
                    let cur = str_to_chars(files[b].as_str());
                    if !lex_le_exec(&cur, &cand) {
                        proof {
                            lemma_lex_total(files.deep_view()[b as int], files.deep_view()[i as int]);
                            assert forall|k: int|
                                0 <= k < i + 1 && is_prompt_name(
                                    #[trigger] files.deep_view()[k],
                                ) implies lex_le(files.deep_view()[i as int], files.deep_view()[k]) by {
                                if k < i {
                                    lemma_lex_trans(
                                        files.deep_view()[i as int],
                                        files.deep_view()[b as int],
                                        files.deep_view()[k],
                                    );
                                } else {
                                    lemma_lex_total(
                                        files.deep_view()[i as int],
                                        files.deep_view()[i as int],
                                    );
                                }
                            }
                        }
                        best = Some(i);
                    }
                },
            }
        }
        i = i + 1;
    }
    match best {
        Option::Some(b) => {
            proof {
                assert(files.deep_view()[b as int] == files@[b as int]@);
            }
            Some(files[b].clone())
        },
        Option::None => None,
    }
}

/// What the worker does after one execution attempt: the output always goes
/// to the task's output file; the error text is kept only when there is any;
/// and only a successful run with non-empty output updates the latest
/// pointer, writes the completion marker and consumes the prompt — otherwise
/// the prompt stays for a retry.
pub struct OutcomeActions {
    /// Keep the error text beside the output.
    pub save_stderr: bool,
    /// Update the latest-output pointer file.
    pub save_latest: bool,
    /// Write the zero-byte completion marker.
    pub mark_done: bool,
    /// Delete the consumed prompt file.
    pub delete_prompt: bool,
}

/// Decide the follow-up actions of one execution attempt.
pub fn worker_outcome(success: bool, stdout_empty: bool, stderr_empty: bool) -> (r: OutcomeActions)
    ensures
        r.save_stderr == !stderr_empty,
        r.save_latest == (success && !stdout_empty),
        r.mark_done == (success && !stdout_empty),
        r.delete_prompt == (success && !stdout_empty),
{
    let ok = success && !stdout_empty;
    OutcomeActions {
        save_stderr: !stderr_empty,
        save_latest: ok,
        mark_done: ok,
        delete_prompt: ok,
    }
}

/// A per-task file name: `task_`, the task number in decimal, a suffix.
pub fn task_file_name(n: u32, suffix: &str) -> (r: String)
    ensures
        r@ == "task_"@ + dec_str(n as int) + suffix@,
{
    let mut chars = str_to_chars("task_");
    let mut digits = u32_decimal(n);
    let mut tail = str_to_chars(suffix);
    chars.append(&mut digits);
    chars.append(&mut tail);
    chars_to_string(&chars)
}

/// The identity configuration is usable when it holds all five required
/// fields by name.
pub open spec fn identity_valid_spec(content: Seq<char>) -> bool {
    &&& contains_seq(content, "\"name\""@)
    &&& contains_seq(content, "\"mission\""@)
    &&& contains_seq(content, "\"vision\""@)
    &&& contains_seq(content, "\"tone\""@)
    &&& contains_seq(content, "\"restrictions\""@)
}

/// Check the identity configuration's content; `None` stands for a missing
/// or unreadable file and never validates.
pub fn check_identity(content: &Option<String>) -> (r: bool)
    ensures
        r == (content is Some && identity_valid_spec(content->0@)),
{
    match content {
        Option::Some(c) => {
            let chars = str_to_chars(c.as_str());
            contains_vec(&chars, &str_to_chars("\"name\"")) && contains_vec(
                &chars,
                &str_to_chars("\"mission\""),
            ) && contains_vec(&chars, &str_to_chars("\"vision\"")) && contains_vec(
                &chars,
                &str_to_chars("\"tone\""),
            ) && contains_vec(&chars, &str_to_chars("\"restrictions\""))
        },
        Option::None => false,
    }
}

} // verus!
