//! Text-scanning primitives over character sequences: substring search,
//! splitting on a separator, prefix handling. These are the base layer for
//! the header micro-grammar and the table-name recovery rules.

use vstd::prelude::*;
use vstd::string::StrSliceExecFns;

verus! {

/// The pattern `pat` occurs in `s` starting at position `i`.
pub open spec fn match_at(s: Seq<char>, pat: Seq<char>, i: int) -> bool {
    0 <= i && i + pat.len() <= s.len() && s.subrange(i, i + pat.len() as int) == pat
}

/// Position of the first occurrence of `pat` in `s` at or after `from`,
/// if any.
pub open spec fn find_from(s: Seq<char>, pat: Seq<char>, from: int) -> Option<int>
    decreases s.len() - from
        via find_from_decreases
{
    if from < 0 || from + pat.len() > s.len() {
        None
    } else if match_at(s, pat, from) {
        Some(from)
    } else {
        find_from(s, pat, from + 1)
    }
}

#[via_fn]
proof fn find_from_decreases(s: Seq<char>, pat: Seq<char>, from: int) {
    lemma_nonmatch_nonempty(s, pat, from);
}

/// A pattern that fails to match at an in-range position is non-empty (the
/// empty pattern matches everywhere in range).
proof fn lemma_nonmatch_nonempty(s: Seq<char>, pat: Seq<char>, from: int)
    ensures
        0 <= from && from + pat.len() <= s.len() && !match_at(s, pat, from) ==> pat.len() >= 1,
{
    if 0 <= from && from + pat.len() <= s.len() && pat.len() == 0 {
        assert(s.subrange(from, from + pat.len() as int) =~= pat);
    }
}

/// `s` contains an occurrence of `pat`.
pub open spec fn contains_pat(s: Seq<char>, pat: Seq<char>) -> bool {
    find_from(s, pat, 0) is Some
}

pub proof fn lemma_find_from_bounds(s: Seq<char>, pat: Seq<char>, from: int)
    ensures
        find_from(s, pat, from) matches Some(i) ==> from <= i && match_at(s, pat, i),
    decreases s.len() - from,
{
    if from < 0 || from + pat.len() > s.len() {
    } else if match_at(s, pat, from) {
    } else {
        lemma_nonmatch_nonempty(s, pat, from);
        lemma_find_from_bounds(s, pat, from + 1);
    }
}

/// Fragments of `s` from position `pos` on, split on each non-overlapping
/// occurrence of `pat`, leftmost first (the separators are dropped).
pub open spec fn split_from(s: Seq<char>, pat: Seq<char>, pos: int) -> Seq<Seq<char>>
    decreases s.len() - pos
        when 0 <= pos <= s.len() && pat.len() >= 1
        via split_from_decreases
{
    match find_from(s, pat, pos) {
        Some(i) => seq![s.subrange(pos, i)] + split_from(s, pat, i + pat.len() as int),
        None => seq![s.subrange(pos, s.len() as int)],
    }
}

#[via_fn]
proof fn split_from_decreases(s: Seq<char>, pat: Seq<char>, pos: int) {
    lemma_find_from_bounds(s, pat, pos);
}

/// All fragments of `s` split on `pat`; mirrors `str::split` on a non-empty
/// pattern (so an empty input yields one empty fragment, and a trailing
/// separator yields a trailing empty fragment).
pub open spec fn split_on(s: Seq<char>, pat: Seq<char>) -> Seq<Seq<char>> {
    split_from(s, pat, 0)
}

/// `p` is a prefix of `s`.
pub open spec fn has_prefix(s: Seq<char>, p: Seq<char>) -> bool {
    p.len() <= s.len() && s.subrange(0, p.len() as int) == p
}

/// `s` with the prefix `p` removed.
pub open spec fn after_prefix(s: Seq<char>, p: Seq<char>) -> Seq<char> {
    s.subrange(p.len() as int, s.len() as int)
}

/// The part of `s` before the first occurrence of `pat`, or all of `s` when
/// `pat` does not occur; mirrors `s.split(pat).next()`.
pub open spec fn up_to(s: Seq<char>, pat: Seq<char>) -> Seq<char> {
    match find_from(s, pat, 0) {
        Some(i) => s.subrange(0, i),
        None => s,
    }
}

/// Copy of `s[i..j]`.
pub fn subrange_vec(s: &[char], i: usize, j: usize) -> (r: Vec<char>)
    requires
        i <= j <= s@.len(),
    ensures
        r@ == s@.subrange(i as int, j as int),
{
    let mut r: Vec<char> = Vec::new();
    let mut k: usize = i;
    while k < j
        invariant
            i <= k <= j <= s@.len(),
            r@ == s@.subrange(i as int, k as int),
        decreases j - k,
    {
        r.push(s[k]);
        k = k + 1;
        proof {
            assert(r@ =~= s@.subrange(i as int, k as int));
        }
    }
    r
}

/// Copy of all of `s`.
pub fn copy_chars(s: &[char]) -> (r: Vec<char>)
    ensures
        r@ == s@,
{
    let r = subrange_vec(s, 0, s.len());
    proof {
        assert(r@ =~= s@);
    }
    r
}

/// First occurrence of `pat` in `s` at or after `from`.
pub fn find_sub(s: &[char], pat: &[char], from: usize) -> (r: Option<usize>)
    ensures
        match r {
            Some(i) => find_from(s@, pat@, from as int) == Some(i as int),
            None => find_from(s@, pat@, from as int) is None,
        },
{
    let mut i: usize = from;
    if i > s.len() {
        proof {
            lemma_find_from_none_past_end(s@, pat@, from as int);
        }
        return None;
    }
    if pat.len() == 0 {
        proof {
            assert(s@.subrange(from as int, from as int) =~= pat@);
        }
        return Some(from);
    }
    loop
        invariant
            from <= i <= s@.len(),
            pat@.len() >= 1,
            s@.len() <= usize::MAX,
            find_from(s@, pat@, from as int) == find_from(s@, pat@, i as int),
        decreases s@.len() - i,
    {
        if s.len() - i < pat.len() {
            return None;
        }
        if match_at_exec(s, pat, i) {
            return Some(i);
        }
        i = i + 1;
    }
}

proof fn lemma_find_from_none_past_end(s: Seq<char>, pat: Seq<char>, from: int)
    requires
        from + pat.len() > s.len() || from > s.len(),
    ensures
        find_from(s, pat, from) is None,
    decreases s.len() - from,
{
    if from < 0 || from + pat.len() > s.len() {
    } else {
        lemma_find_from_none_past_end(s, pat, from + 1);
    }
}

/// Whether `pat` occurs in `s` starting exactly at `i`.
fn match_at_exec(s: &[char], pat: &[char], i: usize) -> (r: bool)
    requires
        i + pat@.len() <= s@.len(),
    ensures
        r == match_at(s@, pat@, i as int),
{
    let slen = s.len();
    let mut k: usize = 0;
    while k < pat.len()
        invariant
            0 <= k <= pat@.len(),
            i + pat@.len() <= s@.len(),
            s@.len() == slen,
            forall|m: int| 0 <= m < k ==> s@[i + m] == pat@[m],
        decreases pat@.len() - k,
    {
        if s[i + k] != pat[k] {
            proof {
                assert(s@.subrange(i as int, i + pat@.len() as int)[k as int] != pat@[k as int]);
            }
            return false;
        }
        k = k + 1;
    }
    proof {
        assert(s@.subrange(i as int, i + pat@.len() as int) =~= pat@);
    }
    true
}

/// `pat` occurs somewhere in `s`; mirrors `str::contains`.
pub fn contains_sub(s: &[char], pat: &[char]) -> (r: bool)
    ensures
        r == contains_pat(s@, pat@),
{
    find_sub(s, pat, 0).is_some()
}

/// `p` is a prefix of `s`.
pub fn has_prefix_exec(s: &[char], p: &[char]) -> (r: bool)
    ensures
        r == has_prefix(s@, p@),
{
    if p.len() > s.len() {
        return false;
    }
    match_at_exec(s, p, 0)
}

/// All fragments of `s` split on the non-empty separator `pat`.
pub fn split_on_exec(s: &[char], pat: &[char]) -> (r: Vec<Vec<char>>)
    requires
        pat@.len() >= 1,
    ensures
        r.deep_view() == split_on(s@, pat@),
{
    let slen = s.len();
    let mut r: Vec<Vec<char>> = Vec::new();
    let mut pos: usize = 0;
    loop
        invariant
            pat@.len() >= 1,
            0 <= pos <= s@.len(),
            s@.len() == slen,
            split_on(s@, pat@) == r.deep_view() + split_from(s@, pat@, pos as int),
        decreases s@.len() - pos,
    {
        let ghost prev = r.deep_view();
        let ghost old_pos = pos as int;
        match find_sub(s, pat, pos) {
            Some(i) => {
                proof {
                    lemma_find_from_bounds(s@, pat@, pos as int);
                }
                let frag = subrange_vec(s, pos, i);
                r.push(frag);
                pos = i + pat.len();
                proof {
                    assert(r.deep_view() =~~= prev.push(s@.subrange(old_pos, i as int)));
                    assert(split_from(s@, pat@, old_pos) == seq![s@.subrange(old_pos, i as int)]
                        + split_from(s@, pat@, pos as int));
                    assert(split_on(s@, pat@) =~~= r.deep_view() + split_from(
                        s@,
                        pat@,
                        pos as int,
                    ));
                }
            },
            None => {
                let frag = subrange_vec(s, pos, s.len());
                r.push(frag);
                proof {
                    assert(r.deep_view() =~~= prev.push(s@.subrange(pos as int, s@.len() as int)));
                    assert(r.deep_view() =~~= prev + split_from(s@, pat@, pos as int));
                }
                return r;
            },
        }
    }
}

/// `c` has the Unicode `White_Space` property, as `char::is_whitespace`
/// defines it.
pub open spec fn is_space(c: char) -> bool {
    let u = c as u32;
    u == 0x20 || (0x09 <= u && u <= 0x0d) || u == 0x85 || u == 0xa0 || u == 0x1680 || (0x2000
        <= u && u <= 0x200a) || u == 0x2028 || u == 0x2029 || u == 0x202f || u == 0x205f || u
        == 0x3000
}

/// Whether `c` is whitespace.
pub fn is_space_exec(c: char) -> (r: bool)
    ensures
        r == is_space(c),
{
    let u = c as u32;
    u == 0x20 || (0x09 <= u && u <= 0x0d) || u == 0x85 || u == 0xa0 || u == 0x1680 || (0x2000
        <= u && u <= 0x200a) || u == 0x2028 || u == 0x2029 || u == 0x202f || u == 0x205f || u
        == 0x3000
}

/// `s` with every leading `'\n'` removed; mirrors
/// `str::trim_start_matches("\n")`.
pub open spec fn drop_newlines(s: Seq<char>) -> Seq<char>
    decreases s.len(),
{
    if s.len() > 0 && s[0] == '\n' {
        drop_newlines(s.drop_first())
    } else {
        s
    }
}

proof fn lemma_drop_newlines_index(s: Seq<char>, k: int)
    requires
        0 <= k <= s.len(),
        forall|j: int| 0 <= j < k ==> s[j] == '\n',
        k < s.len() ==> s[k] != '\n',
    ensures
        drop_newlines(s) == s.subrange(k, s.len() as int),
    decreases k,
{
    if k == 0 {
        assert(s.subrange(0, s.len() as int) =~= s);
    } else {
        assert(s.drop_first() =~= s.subrange(1, s.len() as int));
        lemma_drop_newlines_index(s.drop_first(), k - 1);
        assert(s.drop_first().subrange(k - 1, s.drop_first().len() as int) =~= s.subrange(
            k,
            s.len() as int,
        ));
    }
}

/// Copy of `s` with every leading `'\n'` removed.
pub fn drop_newlines_exec(s: &[char]) -> (r: Vec<char>)
    ensures
        r@ == drop_newlines(s@),
{
    let mut k: usize = 0;
    loop
        invariant
            0 <= k <= s@.len(),
            forall|j: int| 0 <= j < k ==> s@[j] == '\n',
        ensures
            0 <= k <= s@.len(),
            forall|j: int| 0 <= j < k ==> s@[j] == '\n',
            k < s@.len() ==> s@[k as int] != '\n',
        decreases s@.len() - k,
    {
        if k >= s.len() {
            break;
        }
        if s[k] != '\n' {
            break;
        }
        k = k + 1;
    }
    proof {
        lemma_drop_newlines_index(s@, k as int);
    }
    subrange_vec(s, k, s.len())
}

/// `s` with its leading whitespace removed.
pub open spec fn trim_start_ws(s: Seq<char>) -> Seq<char>
    decreases s.len(),
{
    if s.len() > 0 && is_space(s[0]) {
        trim_start_ws(s.drop_first())
    } else {
        s
    }
}

proof fn lemma_trim_start_ws_index(s: Seq<char>, k: int)
    requires
        0 <= k <= s.len(),
        forall|j: int| 0 <= j < k ==> is_space(s[j]),
        k < s.len() ==> !is_space(s[k]),
    ensures
        trim_start_ws(s) == s.subrange(k, s.len() as int),
    decreases k,
{
    if k == 0 {
        assert(s.subrange(0, s.len() as int) =~= s);
    } else {
        assert(s.drop_first() =~= s.subrange(1, s.len() as int));
        lemma_trim_start_ws_index(s.drop_first(), k - 1);
        assert(s.drop_first().subrange(k - 1, s.drop_first().len() as int) =~= s.subrange(
            k,
            s.len() as int,
        ));
    }
}

/// `s` with its trailing whitespace removed.
pub open spec fn trim_end_ws(s: Seq<char>) -> Seq<char>
    decreases s.len(),
{
    if s.len() > 0 && is_space(s.last()) {
        trim_end_ws(s.drop_last())
    } else {
        s
    }
}

proof fn lemma_trim_end_ws_index(s: Seq<char>, k: int)
    requires
        0 <= k <= s.len(),
        forall|j: int| k <= j < s.len() ==> is_space(s[j]),
        k > 0 ==> !is_space(s[k - 1]),
    ensures
        trim_end_ws(s) == s.subrange(0, k),
    decreases s.len() - k,
{
    if k == s.len() {
        assert(s.subrange(0, s.len() as int) =~= s);
    } else {
        assert(s.drop_last() =~= s.subrange(0, s.len() - 1));
        lemma_trim_end_ws_index(s.drop_last(), k);
        assert(s.drop_last().subrange(0, k) =~= s.subrange(0, k));
    }
}

/// `s` with leading and trailing whitespace removed; mirrors `str::trim`.
pub open spec fn trim_ws(s: Seq<char>) -> Seq<char> {
    trim_end_ws(trim_start_ws(s))
}

/// Copy of `s` with leading and trailing whitespace removed.
pub fn trim_ws_exec(s: &[char]) -> (r: Vec<char>)
    ensures
        r@ == trim_ws(s@),
{
    let mut k: usize = 0;
    loop
        invariant
            0 <= k <= s@.len(),
            forall|j: int| 0 <= j < k ==> is_space(s@[j]),
        ensures
            0 <= k <= s@.len(),
            forall|j: int| 0 <= j < k ==> is_space(s@[j]),
            k < s@.len() ==> !is_space(s@[k as int]),
        decreases s@.len() - k,
    {
        if k >= s.len() {
            break;
        }
        if !is_space_exec(s[k]) {
            break;
        }
        k = k + 1;
    }
    proof {
        lemma_trim_start_ws_index(s@, k as int);
    }
    let ghost t = trim_start_ws(s@);
    let mut e: usize = s.len();
    loop
        invariant
            k <= e <= s@.len(),
            forall|j: int| e <= j < s@.len() ==> is_space(s@[j]),
        ensures
            k <= e <= s@.len(),
            forall|j: int| e <= j < s@.len() ==> is_space(s@[j]),
            e > k ==> !is_space(s@[e - 1]),
        decreases e,
    {
        if e == k {
            break;
        }
        if !is_space_exec(s[e - 1]) {
            break;
        }
        e = e - 1;
    }
    proof {
        assert(t == s@.subrange(k as int, s@.len() as int));
        assert(forall|j: int| e - k <= j < t.len() ==> is_space(t[j]));
        lemma_trim_end_ws_index(t, e - k);
        assert(t.subrange(0, e - k) =~= s@.subrange(k as int, e as int));
    }
    subrange_vec(s, k, e)
}

/// The longest whitespace-free prefix of `s`.
pub open spec fn leading_nonspace(s: Seq<char>) -> Seq<char>
    decreases s.len(),
{
    if s.len() > 0 && !is_space(s[0]) {
        seq![s[0]] + leading_nonspace(s.drop_first())
    } else {
        Seq::empty()
    }
}

proof fn lemma_leading_nonspace_index(s: Seq<char>, k: int)
    requires
        0 <= k <= s.len(),
        forall|j: int| 0 <= j < k ==> !is_space(s[j]),
        k < s.len() ==> is_space(s[k]),
    ensures
        leading_nonspace(s) == s.subrange(0, k),
    decreases k,
{
    if k == 0 {
        assert(leading_nonspace(s) =~= s.subrange(0, 0));
    } else {
        assert(s.drop_first() =~= s.subrange(1, s.len() as int));
        lemma_leading_nonspace_index(s.drop_first(), k - 1);
        assert(seq![s[0]] + s.drop_first().subrange(0, k - 1) =~= s.subrange(0, k));
    }
}

/// The first whitespace-delimited token of `s`, if any; mirrors
/// `s.split_whitespace().next()`.
pub open spec fn first_token(s: Seq<char>) -> Option<Seq<char>> {
    let t = trim_start_ws(s);
    if t.len() == 0 {
        None
    } else {
        Some(leading_nonspace(t))
    }
}

/// The first whitespace-delimited token of `s`, if any.
pub fn first_token_exec(s: &[char]) -> (r: Option<Vec<char>>)
    ensures
        match r {
            Some(t) => first_token(s@) == Some(t@),
            None => first_token(s@) is None,
        },
{
    let mut k: usize = 0;
    loop
        invariant
            0 <= k <= s@.len(),
            forall|j: int| 0 <= j < k ==> is_space(s@[j]),
        ensures
            0 <= k <= s@.len(),
            forall|j: int| 0 <= j < k ==> is_space(s@[j]),
            k < s@.len() ==> !is_space(s@[k as int]),
        decreases s@.len() - k,
    {
        if k >= s.len() {
            break;
        }
        if !is_space_exec(s[k]) {
            break;
        }
        k = k + 1;
    }
    proof {
        lemma_trim_start_ws_index(s@, k as int);
    }
    if k == s.len() {
        return None;
    }
    let ghost t = trim_start_ws(s@);
    let mut e: usize = k;
    loop
        invariant
            k <= e <= s@.len(),
            forall|j: int| k <= j < e ==> !is_space(s@[j]),
        ensures
            k <= e <= s@.len(),
            forall|j: int| k <= j < e ==> !is_space(s@[j]),
            e < s@.len() ==> is_space(s@[e as int]),
        decreases s@.len() - e,
    {
        if e >= s.len() {
            break;
        }
        if is_space_exec(s[e]) {
            break;
        }
        e = e + 1;
    }
    proof {
        assert(t == s@.subrange(k as int, s@.len() as int));
        lemma_leading_nonspace_index(t, e - k);
        assert(t.subrange(0, e - k) =~= s@.subrange(k as int, e as int));
    }
    Some(subrange_vec(s, k, e))
}

/// `s` with every `'"'` removed; mirrors `replace('"', "")`.
pub open spec fn remove_quotes(s: Seq<char>) -> Seq<char>
    decreases s.len(),
{
    if s.len() == 0 {
        Seq::empty()
    } else if s[0] == '"' {
        remove_quotes(s.drop_first())
    } else {
        seq![s[0]] + remove_quotes(s.drop_first())
    }
}

/// Copy of `s` with every `'"'` removed.
pub fn remove_quotes_exec(s: &[char]) -> (r: Vec<char>)
    ensures
        r@ == remove_quotes(s@),
{
    let mut r: Vec<char> = Vec::new();
    let mut i: usize = 0;
    proof {
        assert(s@.subrange(0, s@.len() as int) =~= s@);
        assert(r@ + remove_quotes(s@.subrange(0, s@.len() as int)) =~= remove_quotes(s@));
    }
    while i < s.len()
        invariant
            0 <= i <= s@.len(),
            remove_quotes(s@) == r@ + remove_quotes(s@.subrange(i as int, s@.len() as int)),
        decreases s@.len() - i,
    {
        let ghost suf = s@.subrange(i as int, s@.len() as int);
        proof {
            assert(suf.len() > 0);
            assert(suf[0] == s@[i as int]);
            assert(suf.drop_first() =~= s@.subrange(i as int + 1, s@.len() as int));
        }
        let c = s[i];
        if c != '"' {
            r.push(c);
            proof {
                assert(r@ + remove_quotes(suf.drop_first()) =~= (r@.drop_last() + (seq![suf[0]]
                    + remove_quotes(suf.drop_first()))));
            }
        }
        i = i + 1;
    }
    proof {
        assert(remove_quotes(s@.subrange(i as int, s@.len() as int)) =~= Seq::<char>::empty());
        assert(r@ + Seq::<char>::empty() =~= r@);
    }
    r
}

/// The characters of `s`, one vector element per `char`.
pub fn chars_of(s: &str) -> (r: Vec<char>)
    ensures
        r@ == s@,
{
    let n = s.unicode_len();
    let mut r: Vec<char> = Vec::new();
    let mut i: usize = 0;
    proof {
        assert(r@ =~= s@.subrange(0, 0));
    }
    while i < n
        invariant
            0 <= i <= n,
            n == s@.len(),
            r@ == s@.subrange(0, i as int),
        decreases n - i,
    {
        r.push(s.get_char(i));
        i = i + 1;
        proof {
            assert(r@ =~= s@.subrange(0, i as int));
        }
    }
    proof {
        assert(r@ =~= s@);
    }
    r
}

/// The characters `t` spell exactly the string `s`.
pub fn chars_eq_str(t: &[char], s: &str) -> (r: bool)
    ensures
        r == (t@ == s@),
{
    let n = s.unicode_len();
    if t.len() != n {
        return false;
    }
    let mut i: usize = 0;
    while i < n
        invariant
            0 <= i <= n,
            n == s@.len(),
            t@.len() == n,
            forall|m: int| 0 <= m < i ==> t@[m] == s@[m],
        decreases n - i,
    {
        if t[i] != s.get_char(i) {
            return false;
        }
        i = i + 1;
    }
    proof {
        assert(t@ =~= s@);
    }
    true
}

/// `v` extended by the characters of `s`.
pub fn push_str_chars(v: &mut Vec<char>, s: &str)
    ensures
        final(v)@ == old(v)@ + s@,
{
    let n = s.unicode_len();
    let mut i: usize = 0;
    proof {
        assert(v@ =~= old(v)@ + s@.subrange(0, 0));
    }
    while i < n
        invariant
            0 <= i <= n,
            n == s@.len(),
            v@ == old(v)@ + s@.subrange(0, i as int),
        decreases n - i,
    {
        v.push(s.get_char(i));
        i = i + 1;
        proof {
            assert(v@ =~= old(v)@ + s@.subrange(0, i as int));
        }
    }
    proof {
        assert(v@ =~= old(v)@ + s@);
    }
}

} // verus!
