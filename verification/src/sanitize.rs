//! The sanitizer: maps a free-text title to an id safe for filenames and
//! window titles by replacing spaces and dropping reserved characters.

use vstd::prelude::*;
use crate::text::{chars_to_string, str_to_chars};

verus! {

/// A character a worker id may not contain.
pub open spec fn forbidden_char(c: char) -> bool {
    ||| c == ' '
    ||| c == '?'
    ||| c == ':'
    ||| c == '*'
    ||| c == '"'
    ||| c == '<'
    ||| c == '>'
    ||| c == '|'
    ||| c == '/'
    ||| c == '\\'
}

/// What one title character contributes to the id: a space becomes an
/// underscore, the other reserved characters vanish, the rest stay.
pub open spec fn sanitize_char(c: char) -> Seq<char> {
    if c == ' ' {
        seq!['_']
    } else if forbidden_char(c) {
        Seq::empty()
    } else {
        seq![c]
    }
}

/// The sanitised image of a whole title.
pub open spec fn sanitize_spec(s: Seq<char>) -> Seq<char>
    decreases s.len(),
{
    if s.len() == 0 {
        Seq::empty()
    } else {
        sanitize_spec(s.drop_last()) + sanitize_char(s.last())
    }
}

/// No forbidden character ever survives sanitisation, whatever the title.
pub proof fn lemma_sanitize_no_forbidden(s: Seq<char>)
    ensures
        forall|i: int|
            0 <= i < sanitize_spec(s).len() ==> !forbidden_char(#[trigger] sanitize_spec(s)[i]),
    decreases s.len(),
{
    if s.len() > 0 {
        lemma_sanitize_no_forbidden(s.drop_last());
        let rest = sanitize_spec(s.drop_last());
        let add = sanitize_char(s.last());
        assert forall|i: int|
            0 <= i < sanitize_spec(s).len() implies !forbidden_char(
            #[trigger] sanitize_spec(s)[i],
        ) by {
            if i < rest.len() {
                assert(sanitize_spec(s)[i] == rest[i]);
            } else {
                assert(sanitize_spec(s)[i] == add[i - rest.len()]);
            }
        }
    }
}

/// Derive a worker id from a task title.
pub fn sanitize_worker_id(title: &str) -> (r: String)
    ensures
        r@ == sanitize_spec(title@),
{
    let chars = str_to_chars(title);
    let mut out: Vec<char> = Vec::new();
    let mut i: usize = 0;
    while i < chars.len()
        invariant
            chars@ == title@,
            i <= chars@.len(),
            out@ == sanitize_spec(chars@.take(i as int)),
        decreases chars@.len() - i,
    {
        let c = chars[i];
        if c == ' ' {
            out.push('_');
        } else if c == '?' || c == ':' || c == '*' || c == '"' || c == '<' || c == '>' || c == '|'
            || c == '/' || c == '\\' {
        } else {
            out.push(c);
        }
        i = i + 1;
        proof {
            assert(chars@.take(i as int).drop_last() =~= chars@.take(i - 1));
            assert(chars@.take(i as int).last() == chars@[i - 1]);
            assert(out@ =~= sanitize_spec(chars@.take(i as int)));
        }
    }
    proof {
        assert(chars@.take(i as int) =~= chars@);
    }
    chars_to_string(&out)
}

} // verus!
