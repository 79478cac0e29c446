//! Character-sequence utilities: case folding for tag matching, substring
//! search, splitting, trimming, and decimal parsing/printing. All operate on
//! `Vec<char>` with contracts over the corresponding `Seq<char>`.

use vstd::prelude::*;

verus! {

/// ASCII upper-casing of one character; everything else is unchanged.
pub open spec fn upper_char(c: char) -> char {
    match c {
        'a' => 'A',
        'b' => 'B',
        'c' => 'C',
        'd' => 'D',
        'e' => 'E',
        'f' => 'F',
        'g' => 'G',
        'h' => 'H',
        'i' => 'I',
        'j' => 'J',
        'k' => 'K',
        'l' => 'L',
        'm' => 'M',
        'n' => 'N',
        'o' => 'O',
        'p' => 'P',
        'q' => 'Q',
        'r' => 'R',
        's' => 'S',
        't' => 'T',
        'u' => 'U',
        'v' => 'V',
        'w' => 'W',
        'x' => 'X',
        'y' => 'Y',
        'z' => 'Z',
        _ => c,
    }
}

/// ASCII upper-casing of a whole sequence. Case folding here is ASCII-only:
/// a letter outside a-z passes through unchanged, so tag matching is
/// case-insensitive for ASCII text and exact for anything else.
pub open spec fn upper_seq(s: Seq<char>) -> Seq<char> {
    s.map_values(|c: char| upper_char(c))
}

/// The pattern `pat` occurs in `hay` starting at index `i`.
pub open spec fn match_at(hay: Seq<char>, pat: Seq<char>, i: int) -> bool {
    &&& 0 <= i
    &&& i + pat.len() <= hay.len()
    &&& hay.subrange(i, i + pat.len() as int) == pat
}

/// Some occurrence of `pat` exists in `hay`.
pub open spec fn contains_seq(hay: Seq<char>, pat: Seq<char>) -> bool {
    exists|i: int| match_at(hay, pat, i)
}

/// Index of the first occurrence of `pat` in `hay` at or after `from`
/// (meaningful for `from >= 0`).
pub open spec fn find_spec(hay: Seq<char>, pat: Seq<char>, from: int) -> Option<int>
    decreases hay.len() - from,
{
    if from < 0 || from + pat.len() > hay.len() {
        None
    } else if pat.len() == 0 {
        Some(from)
    } else if match_at(hay, pat, from) {
        Some(from)
    } else {
        find_spec(hay, pat, from + 1)
    }
}

/// A found index is the first match; `None` means no match at all.
pub proof fn lemma_find_spec_found(hay: Seq<char>, pat: Seq<char>, from: int)
    requires
        0 <= from,
    ensures
        match find_spec(hay, pat, from) {
            Some(i) => from <= i && match_at(hay, pat, i) && forall|k: int|
                from <= k < i ==> !match_at(hay, pat, k),
            None => forall|k: int| from <= k ==> !match_at(hay, pat, k),
        },
    decreases hay.len() - from,
{
    if from + pat.len() > hay.len() {
        assert forall|k: int| from <= k implies !match_at(hay, pat, k) by {
            assert(k + pat.len() > hay.len());
        }
    } else if pat.len() == 0 {
        assert(hay.subrange(from, from) =~= pat);
    } else if match_at(hay, pat, from) {
    } else {
        lemma_find_spec_found(hay, pat, from + 1);
    }
}

/// `contains_seq` agrees with `find_spec` from 0.
pub proof fn lemma_contains_find(hay: Seq<char>, pat: Seq<char>)
    ensures
        contains_seq(hay, pat) <==> find_spec(hay, pat, 0) is Some,
{
    lemma_find_spec_found(hay, pat, 0);
    if contains_seq(hay, pat) {
        let i = choose|i: int| match_at(hay, pat, i);
        if find_spec(hay, pat, 0) is None {
            assert(!match_at(hay, pat, i));
        }
    }
}

/// Decode a `&str` into its characters, in order.
pub fn str_to_chars(s: &str) -> (r: Vec<char>)
    ensures
        r@ == s@,
{
    let n = s.unicode_len();
    let mut r: Vec<char> = Vec::new();
    let mut i: usize = 0;
    while i < n
        invariant
            n == s@.len(),
            i <= n,
            r@ == s@.subrange(0, i as int),
        decreases n - i,
    {
        r.push(s.get_char(i));
        i = i + 1;
        proof {
            assert(r@ =~= s@.subrange(0, i as int));
        }
    }
    proof {
        assert(r@ =~= s@);
    }
    r
}

/// ASCII upper-casing of a character, executable form.
pub fn upper_char_exec(c: char) -> (r: char)
    ensures
        r == upper_char(c),
{
    match c {
        'a' => 'A',
        'b' => 'B',
        'c' => 'C',
        'd' => 'D',
        'e' => 'E',
        'f' => 'F',
        'g' => 'G',
        'h' => 'H',
        'i' => 'I',
        'j' => 'J',
        'k' => 'K',
        'l' => 'L',
        'm' => 'M',
        'n' => 'N',
        'o' => 'O',
        'p' => 'P',
        'q' => 'Q',
        'r' => 'R',
        's' => 'S',
        't' => 'T',
        'u' => 'U',
        'v' => 'V',
        'w' => 'W',
        'x' => 'X',
        'y' => 'Y',
        'z' => 'Z',
        _ => c,
    }
}

/// ASCII upper-casing of a character vector.
pub fn upper_vec(s: &Vec<char>) -> (r: Vec<char>)
    ensures
        r@ == upper_seq(s@),
{
    let mut r: Vec<char> = Vec::new();
    let mut i: usize = 0;
    while i < s.len()
        invariant
            i <= s@.len(),
            r@ == upper_seq(s@.subrange(0, i as int)),
        decreases s@.len() - i,
    {
        r.push(upper_char_exec(s[i]));
        i = i + 1;
        proof {
            assert(r@ =~= upper_seq(s@.subrange(0, i as int)));
        }
    }
    proof {
        assert(s@.subrange(0, s@.len() as int) =~= s@);
    }
    r
}

/// `pat` occurs at `i` in `hay`, decided by comparing characters.
fn match_at_exec(hay: &Vec<char>, pat: &Vec<char>, i: usize) -> (r: bool)
    requires
        i + pat@.len() <= hay@.len(),
    ensures
        r == match_at(hay@, pat@, i as int),
{
    let hlen = hay.len();
    let mut j: usize = 0;
    while j < pat.len()
        invariant
            hlen == hay@.len(),
            i + pat@.len() <= hay@.len(),
            j <= pat@.len(),
            forall|k: int| 0 <= k < j ==> hay@[i + k] == pat@[k],
        decreases pat@.len() - j,
    {
        if hay[i + j] != pat[j] {
            proof {
                assert(hay@.subrange(i as int, i + pat@.len() as int)[j as int] != pat@[j as int]);
            }
            return false;
        }
        j = j + 1;
    }
    proof {
        assert(hay@.subrange(i as int, i + pat@.len() as int) =~= pat@);
    }
    true
}

/// First occurrence of `pat` in `hay` at or after `from`.
pub fn find_from(hay: &Vec<char>, pat: &Vec<char>, from: usize) -> (r: Option<usize>)
    ensures
        match r {
            Some(i) => find_spec(hay@, pat@, from as int) == Some(i as int),
            None => find_spec(hay@, pat@, from as int) is None,
        },
{
    if pat.len() > hay.len() {
        return None;
    }
    let hlen = hay.len();
    let end = hay.len() - pat.len();
    if from > end {
        return None;
    }
    if pat.len() == 0 {
        proof {
            assert(hay@.subrange(from as int, from as int) =~= pat@);
        }
        return Some(from);
    }
    let mut i: usize = from;
    while i <= end
        invariant
            1 <= pat@.len(),
            hlen == hay@.len(),
            pat@.len() + end == hay@.len(),
            from <= i <= end + 1,
            find_spec(hay@, pat@, from as int) == find_spec(hay@, pat@, i as int),
        decreases end + 1 - i,
    {
        if match_at_exec(hay, pat, i) {
            return Some(i);
        }
        i = i + 1;
    }
    None
}

/// Copy of `v[a..b]`.
pub fn sub_vec(v: &Vec<char>, a: usize, b: usize) -> (r: Vec<char>)
    requires
        a <= b <= v@.len(),
    ensures
        r@ == v@.subrange(a as int, b as int),
{
    let mut r: Vec<char> = Vec::new();
    let mut i: usize = a;
    while i < b
        invariant
            a <= i <= b <= v@.len(),
            r@ == v@.subrange(a as int, i as int),
        decreases b - i,
    {
        r.push(v[i]);
        i = i + 1;
        proof {
            assert(r@ =~= v@.subrange(a as int, i as int));
        }
    }
    r
}

/// The two vectors hold the same characters.
pub fn eq_vec(a: &Vec<char>, b: &Vec<char>) -> (r: bool)
    ensures
        r == (a@ == b@),
{
    if a.len() != b.len() {
        return false;
    }
    let mut i: usize = 0;
    while i < a.len()
        invariant
            a@.len() == b@.len(),
            i <= a@.len(),
            forall|k: int| 0 <= k < i ==> a@[k] == b@[k],
        decreases a@.len() - i,
    {
        if a[i] != b[i] {
            return false;
        }
        i = i + 1;
    }
    proof {
        assert(a@ =~= b@);
    }
    true
}

/// `pat` occurs somewhere in `hay`.
pub fn contains_vec(hay: &Vec<char>, pat: &Vec<char>) -> (r: bool)
    ensures
        r == contains_seq(hay@, pat@),
{
    let f = find_from(hay, pat, 0);
    proof {
        lemma_contains_find(hay@, pat@);
    }
    f.is_some()
}

/// `hay` begins with `pat`.
pub fn starts_with_vec(hay: &Vec<char>, pat: &Vec<char>) -> (r: bool)
    ensures
        r == match_at(hay@, pat@, 0),
{
    if pat.len() > hay.len() {
        proof {
            assert(!match_at(hay@, pat@, 0));
        }
        return false;
    }
    match_at_exec(hay, pat, 0)
}

/// The text between the first occurrence of `pat` and the following one (or
/// the end); empty when `pat` does not occur. This is the second field of a
/// split of `hay` at `pat`.
pub open spec fn segment_after(hay: Seq<char>, pat: Seq<char>) -> Seq<char> {
    match find_spec(hay, pat, 0) {
        Option::None => Seq::empty(),
        Option::Some(i) => {
            let start = i + pat.len() as int;
            match find_spec(hay, pat, start) {
                Option::None => hay.subrange(start, hay.len() as int),
                Option::Some(j) => hay.subrange(start, j),
            }
        },
    }
}

/// Bounds of `find_spec`: a hit lies between `from` and the end.
pub proof fn lemma_find_spec_range(hay: Seq<char>, pat: Seq<char>, from: int)
    requires
        0 <= from,
        find_spec(hay, pat, from) is Some,
    ensures
        from <= find_spec(hay, pat, from)->Some_0,
        find_spec(hay, pat, from)->Some_0 + pat.len() <= hay.len(),
    decreases hay.len() - from,
{
    if from + pat.len() > hay.len() {
    } else if pat.len() == 0 {
    } else if match_at(hay, pat, from) {
    } else {
        lemma_find_spec_range(hay, pat, from + 1);
    }
}

/// Executable form of `segment_after`.
pub fn segment_after_exec(hay: &Vec<char>, pat: &Vec<char>) -> (r: Vec<char>)
    ensures
        r@ == segment_after(hay@, pat@),
{
    let hlen = hay.len();
    match find_from(hay, pat, 0) {
        Option::None => Vec::new(),
        Option::Some(i) => {
            proof {
                lemma_find_spec_range(hay@, pat@, 0);
                assert(hlen == hay@.len());
            }
            let start = i + pat.len();
            match find_from(hay, pat, start) {
                Option::None => sub_vec(hay, start, hay.len()),
                Option::Some(j) => {
                    proof {
                        lemma_find_spec_range(hay@, pat@, start as int);
                        lemma_find_spec_found(hay@, pat@, start as int);
                    }
                    sub_vec(hay, start, j)
                },
            }
        },
    }
}

/// `s` with every occurrence of `pat` removed, scanning left to right
/// (occurrences do not overlap). With an empty `pat`, `s` itself.
pub open spec fn remove_all_spec(s: Seq<char>, pat: Seq<char>) -> Seq<char>
    decreases s.len(),
{
    if pat.len() == 0 || s.len() < pat.len() {
        s
    } else if match_at(s, pat, 0) {
        remove_all_spec(s.skip(pat.len() as int), pat)
    } else {
        seq![s[0]] + remove_all_spec(s.skip(1), pat)
    }
}

/// Executable form of `remove_all_spec`.
pub fn remove_all(s: &Vec<char>, pat: &Vec<char>) -> (r: Vec<char>)
    ensures
        r@ == remove_all_spec(s@, pat@),
{
    if pat.len() == 0 || pat.len() > s.len() {
        return sub_vec(s, 0, s.len());
    }
    let slen = s.len();
    let mut r: Vec<char> = Vec::new();
    let mut i: usize = 0;
    proof {
        assert(s@.skip(0) =~= s@);
        assert(Seq::<char>::empty() + remove_all_spec(s@, pat@) =~= remove_all_spec(s@, pat@));
    }
    while i <= slen - pat.len()
        invariant
            1 <= pat@.len() <= slen,
            slen == s@.len(),
            i <= slen,
            remove_all_spec(s@, pat@) == r@ + remove_all_spec(s@.skip(i as int), pat@),
        decreases slen - i,
    {
        if match_at_exec(s, pat, i) {
            proof {
                assert(s@.skip(i as int).subrange(0, pat@.len() as int) =~= s@.subrange(
                    i as int,
                    i + pat@.len(),
                ));
                assert(match_at(s@.skip(i as int), pat@, 0));
                assert(s@.skip(i as int).skip(pat@.len() as int) =~= s@.skip(
                    i + pat@.len(),
                ));
            }
            i = i + pat.len();
        } else {
            proof {
                assert(s@.skip(i as int).subrange(0, pat@.len() as int) =~= s@.subrange(
                    i as int,
                    i + pat@.len(),
                ));
                assert(!match_at(s@.skip(i as int), pat@, 0));
                assert(s@.skip(i as int).skip(1) =~= s@.skip(i + 1));
                assert(r@.push(s@[i as int]) =~= r@ + seq![s@.skip(i as int)[0]]);
            }
            r.push(s[i]);
            i = i + 1;
        }
    }
    while i < slen
        invariant
            slen == s@.len(),
            i <= slen,
            s@.len() < i + pat@.len(),
            1 <= pat@.len(),
            remove_all_spec(s@, pat@) == r@ + remove_all_spec(s@.skip(i as int), pat@),
        decreases slen - i,
    {
        proof {
            assert(s@.skip(i as int).len() < pat@.len());
            assert(r@.push(s@[i as int]) + s@.skip(i + 1) =~= r@ + s@.skip(i as int));
        }
        r.push(s[i]);
        i = i + 1;
    }
    proof {
        assert(s@.skip(i as int) =~= Seq::<char>::empty());
        assert(r@ + Seq::<char>::empty() =~= r@);
    }
    r
}

/// A Unicode white-space character (the set honoured by trimming).
pub open spec fn is_ws(c: char) -> bool {
    ||| c == ' '
    ||| ('\u{0009}' <= c && c <= '\u{000D}')
    ||| c == '\u{0085}'
    ||| c == '\u{00A0}'
    ||| c == '\u{1680}'
    ||| ('\u{2000}' <= c && c <= '\u{200A}')
    ||| c == '\u{2028}'
    ||| c == '\u{2029}'
    ||| c == '\u{202F}'
    ||| c == '\u{205F}'
    ||| c == '\u{3000}'
}

/// Executable white-space test.
pub fn is_ws_exec(c: char) -> (r: bool)
    ensures
        r == is_ws(c),
{
    c == ' ' || ('\u{0009}' <= c && c <= '\u{000D}') || c == '\u{0085}' || c == '\u{00A0}' || c
        == '\u{1680}' || ('\u{2000}' <= c && c <= '\u{200A}') || c == '\u{2028}' || c == '\u{2029}'
        || c == '\u{202F}' || c == '\u{205F}' || c == '\u{3000}'
}

/// `s` without leading white space.
pub open spec fn trim_start_spec(s: Seq<char>) -> Seq<char>
    decreases s.len(),
{
    if s.len() > 0 && is_ws(s[0]) {
        trim_start_spec(s.skip(1))
    } else {
        s
    }
}

/// `s` without trailing white space.
pub open spec fn trim_end_spec(s: Seq<char>) -> Seq<char>
    decreases s.len(),
{
    if s.len() > 0 && is_ws(s.last()) {
        trim_end_spec(s.take(s.len() as int - 1))
    } else {
        s
    }
}

/// `s` without leading or trailing white space.
pub open spec fn trim_spec(s: Seq<char>) -> Seq<char> {
    trim_end_spec(trim_start_spec(s))
}

/// Executable trim.
pub fn trim_vec(s: &Vec<char>) -> (r: Vec<char>)
    ensures
        r@ == trim_spec(s@),
{
    let slen = s.len();
    let mut a: usize = 0;
    proof {
        assert(s@.skip(0) =~= s@);
    }
    while a < slen && is_ws_exec(s[a])
        invariant
            slen == s@.len(),
            a <= slen,
            trim_start_spec(s@) == trim_start_spec(s@.skip(a as int)),
        decreases slen - a,
    {
        proof {
            assert(s@.skip(a as int).skip(1) =~= s@.skip(a + 1));
        }
        a = a + 1;
    }
    proof {
        if a < slen {
            assert(trim_start_spec(s@) =~= s@.skip(a as int));
        } else {
            assert(s@.skip(a as int) =~= Seq::<char>::empty());
        }
        assert(trim_start_spec(s@) == s@.skip(a as int));
        assert(s@.skip(a as int) =~= s@.subrange(a as int, slen as int));
    }
    let mut b: usize = slen;
    while b > a && is_ws_exec(s[b - 1])
        invariant
            slen == s@.len(),
            a <= b <= slen,
            trim_start_spec(s@) == s@.subrange(a as int, slen as int),
            trim_end_spec(s@.subrange(a as int, slen as int)) == trim_end_spec(
                s@.subrange(a as int, b as int),
            ),
        decreases b,
    {
        proof {
            let cur = s@.subrange(a as int, b as int);
            assert(cur.last() == s@[b - 1]);
            assert(cur.take(cur.len() as int - 1) =~= s@.subrange(a as int, b as int - 1));
        }
        b = b - 1;
    }
    proof {
        let cur = s@.subrange(a as int, b as int);
        if b > a {
            assert(cur.last() == s@[b - 1]);
            assert(trim_end_spec(cur) == cur);
        } else {
            assert(cur =~= Seq::<char>::empty());
        }
    }
    sub_vec(s, a, b)
}

/// A line with a trailing carriage return removed.
pub open spec fn strip_cr(l: Seq<char>) -> Seq<char> {
    if l.len() > 0 && l.last() == '\r' {
        l.take(l.len() as int - 1)
    } else {
        l
    }
}

/// The lines of `s`: split at `'\n'`, each line stripped of a trailing
/// `'\r'`; a trailing newline yields no final empty line.
pub open spec fn split_lines_spec(s: Seq<char>) -> Seq<Seq<char>>
    decreases s.len(),
    via split_lines_spec_decreases
{
    if s.len() == 0 {
        Seq::empty()
    } else {
        match find_spec(s, seq!['\n'], 0) {
            Option::None => seq![strip_cr(s)],
            Option::Some(i) => seq![strip_cr(s.subrange(0, i))] + split_lines_spec(
                s.skip(i + 1),
            ),
        }
    }
}

#[via_fn]
proof fn split_lines_spec_decreases(s: Seq<char>) {
    if s.len() != 0 {
        if find_spec(s, seq!['\n'], 0) is Some {
            lemma_find_spec_range(s, seq!['\n'], 0);
        }
    }
}

/// Executable strip of a trailing carriage return.
fn strip_cr_exec(l: Vec<char>) -> (r: Vec<char>)
    ensures
        r@ == strip_cr(l@),
{
    let mut l = l;
    if l.len() > 0 && l[l.len() - 1] == '\r' {
        let _ = l.pop();
    }
    l
}

/// Recursive worker for `split_lines`: appends the lines of `s` to `acc`.
fn split_lines_into(s: &Vec<char>, acc: &mut Vec<Vec<char>>)
    ensures
        final(acc).deep_view() == old(acc).deep_view() + split_lines_spec(s@),
    decreases s@.len(),
{
    let ghost old_dv = acc.deep_view();
    if s.len() == 0 {
        proof {
            assert(old_dv + split_lines_spec(s@) =~~= old_dv);
        }
        return ;
    }
    let mut nl: Vec<char> = Vec::new();
    nl.push('\n');
    proof {
        assert(nl@ =~= seq!['\n']);
    }
    match find_from(s, &nl, 0) {
        Option::None => {
            let line = strip_cr_exec(sub_vec(s, 0, s.len()));
            proof {
                assert(s@.subrange(0, s@.len() as int) =~= s@);
            }
            acc.push(line);
            proof {
                assert(acc.deep_view() =~~= old_dv + seq![strip_cr(s@)]);
            }
        },
        Option::Some(i) => {
            proof {
                lemma_find_spec_range(s@, nl@, 0);
            }
            let line = strip_cr_exec(sub_vec(s, 0, i));
            acc.push(line);
            let ghost mid_dv = acc.deep_view();
            proof {
                assert(mid_dv =~~= old_dv + seq![strip_cr(s@.subrange(0, i as int))]);
            }
            let rest = sub_vec(s, i + 1, s.len());
            proof {
                assert(rest@ =~= s@.skip(i + 1));
            }
            split_lines_into(&rest, acc);
            proof {
                assert(acc.deep_view() =~~= old_dv + split_lines_spec(s@));
            }
        },
    }
}

/// The lines of a character vector, as `split_lines_spec` describes.
pub fn split_lines(s: &Vec<char>) -> (r: Vec<Vec<char>>)
    ensures
        r.deep_view() == split_lines_spec(s@),
{
    let mut acc: Vec<Vec<char>> = Vec::new();
    split_lines_into(s, &mut acc);
    proof {
        assert(Seq::<Seq<char>>::empty() + split_lines_spec(s@) =~~= split_lines_spec(s@));
    }
    acc
}

/// Numeric value of a decimal digit; -1 for anything else.
pub open spec fn digit_of(c: char) -> int {
    match c {
        '0' => 0,
        '1' => 1,
        '2' => 2,
        '3' => 3,
        '4' => 4,
        '5' => 5,
        '6' => 6,
        '7' => 7,
        '8' => 8,
        '9' => 9,
        _ => -1,
    }
}

/// Every character of `s` is a decimal digit.
pub open spec fn all_digits(s: Seq<char>) -> bool {
    forall|i: int| 0 <= i < s.len() ==> digit_of(#[trigger] s[i]) >= 0
}

/// Value of a digit string, most significant digit first.
pub open spec fn digits_val(s: Seq<char>) -> int
    decreases s.len(),
{
    if s.len() == 0 {
        0
    } else {
        digits_val(s.take(s.len() as int - 1)) * 10 + digit_of(s.last())
    }
}

/// The value of a digit string is non-negative.
pub proof fn lemma_digits_val_nonneg(s: Seq<char>)
    requires
        all_digits(s),
    ensures
        digits_val(s) >= 0,
    decreases s.len(),
{
    if s.len() > 0 {
        let pre = s.take(s.len() as int - 1);
        assert(all_digits(pre)) by {
            assert(forall|i: int| 0 <= i < pre.len() ==> pre[i] == s[i]);
        }
        lemma_digits_val_nonneg(pre);
    }
}

/// Extending a digit string never lowers its value.
pub proof fn lemma_digits_val_prefix(s: Seq<char>, i: int)
    requires
        0 <= i <= s.len(),
        all_digits(s),
    ensures
        digits_val(s.take(i)) <= digits_val(s),
    decreases s.len() - i,
{
    if i < s.len() {
        let nxt = s.take(i + 1);
        assert(nxt.take(i) =~= s.take(i));
        assert(all_digits(nxt)) by {
            assert(forall|k: int| 0 <= k < nxt.len() ==> nxt[k] == s[k]);
        }
        assert(all_digits(s.take(i))) by {
            assert(forall|k: int| 0 <= k < i ==> s.take(i)[k] == s[k]);
        }
        lemma_digits_val_nonneg(s.take(i));
        assert(digits_val(nxt) == digits_val(s.take(i)) * 10 + digit_of(s[i]));
        lemma_digits_val_prefix(s, i + 1);
    } else {
        assert(s.take(i) =~= s);
    }
}

/// The number a revision tag denotes: an optional `'+'`, then decimal digits,
/// non-empty, value within `u32`; anything else counts as 0.
pub open spec fn parse_u32_spec(s: Seq<char>) -> u32 {
    let body = if s.len() > 0 && s[0] == '+' {
        s.skip(1)
    } else {
        s
    };
    if body.len() > 0 && all_digits(body) && digits_val(body) <= u32::MAX {
        digits_val(body) as u32
    } else {
        0
    }
}

/// Executable digit test and value.
fn digit_of_exec(c: char) -> (r: i8)
    ensures
        r as int == digit_of(c),
{
    match c {
        '0' => 0,
        '1' => 1,
        '2' => 2,
        '3' => 3,
        '4' => 4,
        '5' => 5,
        '6' => 6,
        '7' => 7,
        '8' => 8,
        '9' => 9,
        _ => -1,
    }
}

/// Parse a decimal `u32` as `parse_u32_spec` describes.
pub fn parse_u32(s: &Vec<char>) -> (r: u32)
    ensures
        r == parse_u32_spec(s@),
{
    let start: usize = if s.len() > 0 && s[0] == '+' {
        1
    } else {
        0
    };
    let ghost body = if s@.len() > 0 && s@[0] == '+' {
        s@.skip(1)
    } else {
        s@
    };
    proof {
        assert(body =~= s@.subrange(start as int, s@.len() as int));
    }
    if s.len() == start {
        return 0;
    }
    let slen = s.len();
    let mut acc: u64 = 0;
    let mut i: usize = start;
    while i < slen
        invariant
            slen == s@.len(),
            start <= i <= slen,
            start < slen,
            body == s@.subrange(start as int, slen as int),
            body == (if s@.len() > 0 && s@[0] == '+' {
                s@.skip(1)
            } else {
                s@
            }),
            all_digits(body.take(i - start)),
            acc as int == digits_val(body.take(i - start)),
            acc <= u32::MAX as u64,
        decreases slen - i,
    {
        let d = digit_of_exec(s[i]);
        if d < 0 {
            proof {
                assert(body[i - start] == s@[i as int]);
                assert(!all_digits(body));
            }
            return 0;
        }
        proof {
            let pre = body.take(i - start);
            let nxt = body.take(i + 1 - start);
            assert(nxt.take(nxt.len() as int - 1) =~= pre);
            assert(nxt.last() == s@[i as int]);
            assert(forall|k: int|
                0 <= k < nxt.len() ==> nxt[k] == #[trigger] pre.push(s@[i as int])[k]);
        }
        acc = acc * 10 + (d as u64);
        if acc > u32::MAX as u64 {
            proof {
                assert(all_digits(body.take(i + 1 - start)));
                if all_digits(body) {
                    lemma_digits_val_prefix(body, i + 1 - start);
                    assert(digits_val(body) > u32::MAX);
                }
            }
            return 0;
        }
        i = i + 1;
    }
    proof {
        assert(body.take(slen - start) =~= body);
    }
    acc as u32
}

/// Decimal rendering of a non-negative number, most significant digit first.
pub open spec fn dec_str(n: int) -> Seq<char>
    decreases n,
{
    if n < 0 {
        Seq::empty()
    } else if n < 10 {
        seq![digit_char(n)]
    } else {
        dec_str(n / 10).push(digit_char(n % 10))
    }
}

/// The digit character for a value in 0..10.
pub open spec fn digit_char(d: int) -> char {
    if d == 0 {
        '0'
    } else if d == 1 {
        '1'
    } else if d == 2 {
        '2'
    } else if d == 3 {
        '3'
    } else if d == 4 {
        '4'
    } else if d == 5 {
        '5'
    } else if d == 6 {
        '6'
    } else if d == 7 {
        '7'
    } else if d == 8 {
        '8'
    } else {
        '9'
    }
}

/// Executable digit character.
fn digit_char_exec(d: u32) -> (r: char)
    requires
        d < 10,
    ensures
        r == digit_char(d as int),
{
    match d {
        0 => '0',
        1 => '1',
        2 => '2',
        3 => '3',
        4 => '4',
        5 => '5',
        6 => '6',
        7 => '7',
        8 => '8',
        _ => '9',
    }
}

/// Decimal rendering of a `u32`.
pub fn u32_decimal(n: u32) -> (r: Vec<char>)
    ensures
        r@ == dec_str(n as int),
    decreases n,
{
    if n < 10 {
        let mut r: Vec<char> = Vec::new();
        r.push(digit_char_exec(n));
        proof {
            assert(r@ =~= seq![digit_char(n as int)]);
        }
        r
    } else {
        let mut r = u32_decimal(n / 10);
        r.push(digit_char_exec(n % 10));
        r
    }
}

/// Lexicographic order on character sequences by code point, with a proper
/// prefix ordered first; this is the order in which queue filenames sort.
pub open spec fn lex_le(a: Seq<char>, b: Seq<char>) -> bool
    decreases a.len(),
{
    if a.len() == 0 {
        true
    } else if b.len() == 0 {
        false
    } else if (a[0] as u32) != (b[0] as u32) {
        (a[0] as u32) < (b[0] as u32)
    } else {
        lex_le(a.skip(1), b.skip(1))
    }
}

/// Executable lexicographic comparison.
pub fn lex_le_exec(a: &Vec<char>, b: &Vec<char>) -> (r: bool)
    ensures
        r == lex_le(a@, b@),
{
    let mut i: usize = 0;
    proof {
        assert(a@.skip(0) =~= a@);
        assert(b@.skip(0) =~= b@);
    }
    while i < a.len() && i < b.len()
        invariant
            i <= a@.len(),
            i <= b@.len(),
            lex_le(a@, b@) == lex_le(a@.skip(i as int), b@.skip(i as int)),
        decreases a@.len() - i,
    {
        if (a[i] as u32) != (b[i] as u32) {
            return (a[i] as u32) < (b[i] as u32);
        }
        proof {
            assert(a@.skip(i as int).skip(1) =~= a@.skip(i + 1));
            assert(b@.skip(i as int).skip(1) =~= b@.skip(i + 1));
        }
        i = i + 1;
    }
    i == a.len()
}

/// Relies on `String`'s `FromIterator` implementation over `char`:
/// collecting characters yields the string holding exactly those characters
/// in order.
#[verifier::external_body]
pub fn chars_to_string(v: &Vec<char>) -> (r: String)
    ensures
        r@ == v@,
{
    v.iter().collect()
}

} // verus!

