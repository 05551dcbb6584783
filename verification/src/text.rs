use vstd::prelude::*;

verus! {

// ---------------------------------------------------------------------------
// Equality and containment
// ---------------------------------------------------------------------------

/// Character-for-character equality of two string slices.
pub fn str_eq(a: &str, b: &str) -> (r: bool)
    ensures
        r == (a@ == b@),
{
    let a_len = a.unicode_len();
    let b_len = b.unicode_len();
    if a_len != b_len {
        assert(a@ != b@) by {
            assert(a@.len() != b@.len());
        }
        return false;
    }
    let mut i: usize = 0;
    while i < a_len
        invariant
            a_len == a@.len(),
            b_len == b@.len(),
            a_len == b_len,
            i <= a_len,
            a@.subrange(0, i as int) == b@.subrange(0, i as int),
        decreases a_len - i,
    {
        let ca = a.get_char(i);
        let cb = b.get_char(i);
        if ca != cb {
            assert(a@ != b@) by {
                assert(a@[i as int] != b@[i as int]);
            }
            return false;
        }
        assert(a@.subrange(0, i + 1 as int) =~= a@.subrange(0, i as int).push(ca));
        assert(b@.subrange(0, i + 1 as int) =~= b@.subrange(0, i as int).push(cb));
        i = i + 1;
    }
    assert(a@ =~= b@) by {
        assert(a@.subrange(0, a_len as int) =~= a@);
        assert(b@.subrange(0, b_len as int) =~= b@);
    }
    true
}

/// The needle `p` occurs in `t` starting at index `i`.
pub open spec fn occurs_at(t: Seq<char>, p: Seq<char>, i: int) -> bool {
    0 <= i && i + p.len() <= t.len() && t.subrange(i, i + p.len() as int) == p
}

/// The needle `p` occurs somewhere in `t`.
pub open spec fn contains_seq(t: Seq<char>, p: Seq<char>) -> bool {
    exists|i: int| occurs_at(t, p, i)
}

/// Whether `t` starts with the prefix `p`.
pub open spec fn starts_with_seq(t: Seq<char>, p: Seq<char>) -> bool {
    p.len() <= t.len() && t.subrange(0, p.len() as int) == p
}

/// Whether the needle occurs at the given start position.
fn occurs_at_exec(t: &str, p: &str, i: usize) -> (r: bool)
    requires
        i + p@.len() <= t@.len(),
        t@.len() <= usize::MAX,
    ensures
        r == occurs_at(t@, p@, i as int),
{
    let p_len = p.unicode_len();
    let mut k: usize = 0;
    while k < p_len
        invariant
            p_len == p@.len(),
            i + p_len <= t@.len(),
            t@.len() <= usize::MAX,
            k <= p_len,
            t@.subrange(i as int, i + k) == p@.subrange(0, k as int),
        decreases p_len - k,
    {
        let tc = t.get_char(i + k);
        let pc = p.get_char(k);
        if tc != pc {
            assert(!occurs_at(t@, p@, i as int)) by {
                assert(t@.subrange(i as int, i + p@.len())[k as int] != p@[k as int]);
            }
            return false;
        }
        assert(t@.subrange(i as int, i + k + 1) =~= t@.subrange(i as int, i + k).push(tc));
        assert(p@.subrange(0, k + 1) =~= p@.subrange(0, k as int).push(pc));
        k = k + 1;
    }
    assert(t@.subrange(i as int, i + p@.len()) == p@) by {
        assert(p@.subrange(0, p_len as int) =~= p@);
    }
    true
}

/// Whether `t` starts with the prefix `p`.
pub fn str_starts_with(t: &str, p: &str) -> (r: bool)
    ensures
        r == starts_with_seq(t@, p@),
{
    let t_len = t.unicode_len();
    let p_len = p.unicode_len();
    if p_len > t_len {
        return false;
    }
    occurs_at_exec(t, p, 0)
}

/// Whether the needle `p` occurs anywhere in `t` (contiguously).
pub fn str_contains(t: &str, p: &str) -> (r: bool)
    ensures
        r == contains_seq(t@, p@),
{
    let t_len = t.unicode_len();
    let p_len = p.unicode_len();
    if p_len > t_len {
        assert(!contains_seq(t@, p@));
        return false;
    }
    if p_len == 0 {
        assert(occurs_at(t@, p@, 0)) by {
            assert(t@.subrange(0, 0) =~= p@);
        }
        return true;
    }
    let end = t_len - p_len;
    let mut i: usize = 0;
    while i <= end
        invariant
            t_len == t@.len(),
            p_len == p@.len(),
            0 < p_len <= t_len,
            end == t_len - p_len,
            i <= end + 1,
            forall|j: int| 0 <= j < i ==> !occurs_at(t@, p@, j),
        decreases end + 1 - i,
    {
        if occurs_at_exec(t, p, i) {
            return true;
        }
        i = i + 1;
    }
    assert(!contains_seq(t@, p@)) by {
        assert(forall|j: int| occurs_at(t@, p@, j) ==> 0 <= j <= t@.len() - p@.len());
    }
    false
}

// ---------------------------------------------------------------------------
// Building strings
// ---------------------------------------------------------------------------

/// Relies on `String::push`: appends the given character to the end of the
/// string.
#[verifier::external_body]
pub fn push_char(s: &mut String, c: char)
    ensures
        final(s)@ == old(s)@.push(c),
{
    s.push(c);
}

/// A string holding the single given character.
pub fn char_to_string(c: char) -> (r: String)
    ensures
        r@ == seq![c],
{
    let mut s = String::new();
    push_char(&mut s, c);
    assert(r_eq_post(s@, c)) by {
        assert(s@ =~= seq![c]);
    }
    s
}

/// Helper conclusion for `char_to_string`.
spec fn r_eq_post(s: Seq<char>, c: char) -> bool {
    s == seq![c]
}

/// The characters of `s` as a vector.
pub fn chars_of(s: &str) -> (r: Vec<char>)
    ensures
        r@ == s@,
{
    let len = s.unicode_len();
    let mut r: Vec<char> = Vec::new();
    let mut i: usize = 0;
    while i < len
        invariant
            len == s@.len(),
            i <= len,
            r@ == s@.subrange(0, i as int),
        decreases len - i,
    {
        let c = s.get_char(i);
        r.push(c);
        assert(r@ =~= s@.subrange(0, i + 1)) by {
            assert(s@.subrange(0, i + 1) =~= s@.subrange(0, i as int).push(c));
        }
        i = i + 1;
    }
    assert(r@ =~= s@);
    r
}

/// A string holding exactly the given characters.
pub fn string_of_chars(v: &Vec<char>) -> (r: String)
    ensures
        r@ == v@,
{
    let mut r = String::new();
    let mut i: usize = 0;
    while i < v.len()
        invariant
            i <= v.len(),
            r@ == v@.subrange(0, i as int),
        decreases v.len() - i,
    {
        push_char(&mut r, v[i]);
        assert(r@ =~= v@.subrange(0, i + 1)) by {
            assert(v@.subrange(0, i + 1) =~= v@.subrange(0, i as int).push(v@[i as int]));
        }
        i = i + 1;
    }
    assert(r@ =~= v@);
    r
}

// ---------------------------------------------------------------------------
// Decimal formatting
// ---------------------------------------------------------------------------

/// The character for one decimal digit.
pub open spec fn dec_digit(d: int) -> char {
    if d == 0 {
        '0'
    } else if d == 1 {
        '1'
    } else if d == 2 {
        '2'
    } else if d == 3 {
        '3'
    } else if d == 4 {
        '4'
    } else if d == 5 {
        '5'
    } else if d == 6 {
        '6'
    } else if d == 7 {
        '7'
    } else if d == 8 {
        '8'
    } else {
        '9'
    }
}

/// The decimal representation of a non-negative integer, without leading
/// zeros (a single `'0'` for zero).
pub open spec fn dec_str(n: int) -> Seq<char>
    decreases n,
{
    if n < 10 {
        seq![dec_digit(n)]
    } else {
        dec_str(n / 10).push(dec_digit(n % 10))
    }
}

/// The character for one decimal digit.
pub fn dec_digit_char(d: u64) -> (c: char)
    requires
        d < 10,
    ensures
        c == dec_digit(d as int),
{
    match d {
        0 => '0',
        1 => '1',
        2 => '2',
        3 => '3',
        4 => '4',
        5 => '5',
        6 => '6',
        7 => '7',
        8 => '8',
        _ => '9',
    }
}

/// The decimal representation of `n`, as `dec_str` describes it.
pub fn u64_to_string(n: u64) -> (r: String)
    ensures
        r@ == dec_str(n as int),
    decreases n,
{
    if n < 10 {
        char_to_string(dec_digit_char(n))
    } else {
        let mut r = u64_to_string(n / 10);
        push_char(&mut r, dec_digit_char(n % 10));
        r
    }
}

/// The decimal representation of `n`, as `dec_str` describes it.
pub fn u32_to_string(n: u32) -> (r: String)
    ensures
        r@ == dec_str(n as int),
{
    u64_to_string(n as u64)
}

// ---------------------------------------------------------------------------
// Trimming
// ---------------------------------------------------------------------------

/// The whitespace characters that trimming removes.
pub open spec fn is_space_char(c: char) -> bool {
    c == ' ' || c == '\t' || c == '\r' || c == '\n'
}

/// Whether the character counts as whitespace for trimming.
pub fn is_space(c: char) -> (r: bool)
    ensures
        r == is_space_char(c),
{
    c == ' ' || c == '\t' || c == '\r' || c == '\n'
}

/// The number of leading whitespace characters.
pub open spec fn leading_spaces(s: Seq<char>) -> int
    decreases s.len(),
{
    if s.len() == 0 {
        0
    } else if is_space_char(s[0]) {
        1 + leading_spaces(s.drop_first())
    } else {
        0
    }
}

/// The length of `s` once trailing whitespace is removed.
pub open spec fn trimmed_end_len(s: Seq<char>) -> int
    decreases s.len(),
{
    if s.len() == 0 {
        0
    } else if is_space_char(s.last()) {
        trimmed_end_len(s.drop_last())
    } else {
        s.len() as int
    }
}

pub proof fn lemma_leading_spaces_bounds(s: Seq<char>)
    ensures
        0 <= leading_spaces(s) <= s.len(),
        forall|k: int| 0 <= k < leading_spaces(s) ==> is_space_char(s[k]),
        leading_spaces(s) < s.len() ==> !is_space_char(s[leading_spaces(s)]),
    decreases s.len(),
{
    if s.len() > 0 && is_space_char(s[0]) {
        lemma_leading_spaces_bounds(s.drop_first());
        assert forall|k: int| 0 <= k < leading_spaces(s) implies is_space_char(s[k]) by {
            if k > 0 {
                assert(s.drop_first()[k - 1] == s[k]);
            }
        }
    }
}

pub proof fn lemma_trimmed_end_bounds(s: Seq<char>)
    ensures
        0 <= trimmed_end_len(s) <= s.len(),
        forall|k: int| trimmed_end_len(s) <= k < s.len() ==> is_space_char(s[k]),
        trimmed_end_len(s) > 0 ==> !is_space_char(s[trimmed_end_len(s) - 1]),
    decreases s.len(),
{
    if s.len() > 0 && is_space_char(s.last()) {
        lemma_trimmed_end_bounds(s.drop_last());
        assert forall|k: int| trimmed_end_len(s) <= k < s.len() implies is_space_char(s[k]) by {
            if k < s.len() - 1 {
                assert(s.drop_last()[k] == s[k]);
            }
        }
    }
}

/// `s` with trailing whitespace removed.
pub open spec fn trim_end_spec(s: Seq<char>) -> Seq<char> {
    s.subrange(0, trimmed_end_len(s))
}

/// `s` with leading whitespace removed.
pub open spec fn trim_start_spec(s: Seq<char>) -> Seq<char> {
    s.subrange(leading_spaces(s), s.len() as int)
}

/// `s` with leading and trailing whitespace removed.
pub open spec fn trim_spec(s: Seq<char>) -> Seq<char> {
    trim_start_spec(trim_end_spec(s))
}

/// A copy of `s` with leading and trailing whitespace removed.
pub fn trim_str(s: &str) -> (r: String)
    ensures
        r@ == trim_spec(s@),
{
    let len = s.unicode_len();
    proof {
        lemma_trimmed_end_bounds(s@);
        assert(s@.subrange(0, len as int) =~= s@);
    }
    let mut j: usize = len;
    while j > 0 && is_space(s.get_char(j - 1))
        invariant
            len == s@.len(),
            j <= len,
            trimmed_end_len(s@) == trimmed_end_len(s@.subrange(0, j as int)),
            trimmed_end_len(s@) <= j,
        decreases j,
    {
        proof {
            let t = s@.subrange(0, j as int);
            assert(t.last() == s@[j - 1]);
            assert(t.drop_last() =~= s@.subrange(0, j - 1));
            lemma_trimmed_end_bounds(s@.subrange(0, j - 1));
        }
        j = j - 1;
    }
    proof {
        let t = s@.subrange(0, j as int);
        if j > 0 {
            assert(t.last() == s@[j - 1]);
            assert(trimmed_end_len(t) == t.len());
        } else {
            assert(t =~= Seq::<char>::empty());
        }
        assert(trimmed_end_len(s@) == j);
    }
    // Now trim the front of s[0..j].
    proof {
        lemma_leading_spaces_bounds(trim_end_spec(s@));
    }
    let ghost te = trim_end_spec(s@);
    let mut i: usize = 0;
    while i < j && is_space(s.get_char(i))
        invariant
            len == s@.len(),
            i <= j,
            j <= len,
            te == trim_end_spec(s@),
            te == s@.subrange(0, j as int),
            leading_spaces(te) >= i,
        decreases j - i,
    {
        proof {
            lemma_leading_spaces_bounds(te);
            assert(te[i as int] == s@[i as int]);
            assert(forall|k: int| 0 <= k < i + 1 ==> is_space_char(te[k]));
            lemma_leading_spaces_skip(te, i + 1);
            let rest = te.subrange(i + 1, te.len() as int);
            lemma_leading_spaces_bounds(rest);
        }
        i = i + 1;
    }
    proof {
        lemma_leading_spaces_bounds(te);
        if i < j {
            assert(te[i as int] == s@[i as int]);
            if leading_spaces(te) > i {
                assert(is_space_char(te[i as int]));
            }
        }
        assert(leading_spaces(te) == i);
    }
    let r = s.substring_char(i, j).to_owned();
    proof {
        assert(r@ =~= trim_spec(s@)) by {
            assert(trim_spec(s@) == te.subrange(leading_spaces(te), te.len() as int));
            assert(te.subrange(i as int, j as int) =~= s@.subrange(i as int, j as int));
        }
    }
    r
}

/// Stepping over `k` leading spaces relates `leading_spaces` on the whole to
/// the remainder.
proof fn lemma_leading_spaces_skip(s: Seq<char>, k: int)
    requires
        0 <= k <= s.len(),
        forall|j: int| 0 <= j < k ==> is_space_char(s[j]),
    ensures
        leading_spaces(s) == k + leading_spaces(s.subrange(k, s.len() as int)),
    decreases k,
{
    if k > 0 {
        assert(is_space_char(s[0]));
        let d = s.drop_first();
        assert forall|j: int| 0 <= j < k - 1 implies is_space_char(d[j]) by {
            assert(d[j] == s[j + 1]);
        }
        lemma_leading_spaces_skip(d, k - 1);
        assert(d.subrange(k - 1, d.len() as int) =~= s.subrange(k, s.len() as int));
    } else {
        assert(s.subrange(0, s.len() as int) =~= s);
    }
}

// ---------------------------------------------------------------------------
// Finding and splitting
// ---------------------------------------------------------------------------

/// The index of the first occurrence of `c` in `s`, or the length of `s` if
/// it does not occur.
pub open spec fn find_char(s: Seq<char>, c: char) -> int
    decreases s.len(),
{
    if s.len() == 0 {
        0
    } else if s[0] == c {
        0
    } else {
        1 + find_char(s.drop_first(), c)
    }
}

pub proof fn lemma_find_char_bounds(s: Seq<char>, c: char)
    ensures
        0 <= find_char(s, c) <= s.len(),
        forall|k: int| 0 <= k < find_char(s, c) ==> s[k] != c,
        find_char(s, c) < s.len() ==> s[find_char(s, c)] == c,
    decreases s.len(),
{
    if s.len() > 0 && s[0] != c {
        lemma_find_char_bounds(s.drop_first(), c);
        assert forall|k: int| 0 <= k < find_char(s, c) implies s[k] != c by {
            if k > 0 {
                assert(s.drop_first()[k - 1] == s[k]);
            }
        }
    }
}

/// The index of the first occurrence of `c` in `s`, or `s.len()` if absent.
pub fn find_char_exec(s: &str, c: char) -> (r: usize)
    ensures
        r == find_char(s@, c),
{
    let len = s.unicode_len();
    let mut i: usize = 0;
    proof {
        lemma_find_char_bounds(s@, c);
    }
    while i < len && s.get_char(i) != c
        invariant
            len == s@.len(),
            i <= len,
            forall|k: int| 0 <= k < i ==> s@[k] != c,
            find_char(s@, c) >= i,
        decreases len - i,
    {
        i = i + 1;
        proof {
            lemma_find_char_ge(s@, c, i as int);
        }
    }
    proof {
        if i < len {
            lemma_find_char_bounds(s@, c);
            assert(find_char(s@, c) <= i);
        }
    }
    i
}

/// If every character before `k` differs from `c`, the first occurrence is
/// at `k` or later.
proof fn lemma_find_char_ge(s: Seq<char>, c: char, k: int)
    requires
        0 <= k <= s.len(),
        forall|j: int| 0 <= j < k ==> s[j] != c,
    ensures
        find_char(s, c) >= k,
    decreases k,
{
    if k > 0 {
        assert(s[0] != c);
        let d = s.drop_first();
        assert forall|j: int| 0 <= j < k - 1 implies d[j] != c by {
            assert(d[j] == s[j + 1]);
        }
        lemma_find_char_ge(d, c, k - 1);
        assert(find_char(s, c) == 1 + find_char(d, c));
    } else {
        lemma_find_char_bounds(s, c);
    }
}

/// The pieces of `s` between occurrences of the separator `c`; separators
/// are dropped, empty pieces are kept.
pub open spec fn split_char(s: Seq<char>, c: char) -> Seq<Seq<char>>
    decreases s.len(),
    via split_char_dec
{
    let i = find_char(s, c);
    if i == s.len() {
        seq![s]
    } else {
        seq![s.subrange(0, i)] + split_char(s.subrange(i + 1, s.len() as int), c)
    }
}

#[via_fn]
proof fn split_char_dec(s: Seq<char>, c: char) {
    lemma_find_char_bounds(s, c);
}

/// Splits `s` at every occurrence of `c`, as `split_char` describes.
pub fn split_str(s: &str, c: char) -> (r: Vec<String>)
    ensures
        r.deep_view() == split_char(s@, c),
{
    let len = s.unicode_len();
    let mut out: Vec<String> = Vec::new();
    let mut start: usize = 0;
    proof {
        assert(s@.subrange(0, len as int) =~= s@);
        assert(out.deep_view() + split_char(s@.subrange(0, len as int), c) =~= split_char(s@, c));
    }
    loop
        invariant
            len == s@.len(),
            start <= len,
            out.deep_view() + split_char(s@.subrange(start as int, len as int), c) == split_char(
                s@,
                c,
            ),
        decreases len - start,
    {
        let rest = s.substring_char(start, len);
        let k = find_char_exec(rest, c);
        proof {
            lemma_find_char_bounds(rest@, c);
        }
        if k == rest.unicode_len() {
            out.push(rest.to_owned());
            proof {
                assert(out.deep_view() =~= split_char(s@, c)) by {
                    assert(split_char(rest@, c) =~= seq![rest@]);
                    assert(out.deep_view() =~= out.deep_view().drop_last().push(rest@));
                }
            }
            return out;
        } else {
            let piece = rest.substring_char(0, k);
            out.push(piece.to_owned());
            let ghost old_start = start as int;
            start = start + k + 1;
            proof {
                let remv = s@.subrange(old_start, len as int);
                assert(remv.subrange(0, k as int) == piece@);
                assert(remv.subrange(k + 1, remv.len() as int) =~= s@.subrange(
                    start as int,
                    len as int,
                ));
                assert(out.deep_view() =~= out.deep_view().drop_last().push(piece@));
                assert(out.deep_view() + split_char(s@.subrange(start as int, len as int), c)
                    =~= split_char(s@, c));
            }
        }
    }
}

/// The index of the first whitespace character in `s`, or the length of
/// `s` if there is none.
pub open spec fn find_space(s: Seq<char>) -> int
    decreases s.len(),
{
    if s.len() == 0 {
        0
    } else if is_space_char(s[0]) {
        0
    } else {
        1 + find_space(s.drop_first())
    }
}

pub proof fn lemma_find_space_bounds(s: Seq<char>)
    ensures
        0 <= find_space(s) <= s.len(),
        forall|k: int| 0 <= k < find_space(s) ==> !is_space_char(s[k]),
        find_space(s) < s.len() ==> is_space_char(s[find_space(s)]),
    decreases s.len(),
{
    if s.len() > 0 && !is_space_char(s[0]) {
        lemma_find_space_bounds(s.drop_first());
        assert forall|k: int| 0 <= k < find_space(s) implies !is_space_char(s[k]) by {
            if k > 0 {
                assert(s.drop_first()[k - 1] == s[k]);
            }
        }
    }
}

proof fn lemma_find_space_ge(s: Seq<char>, c: int)
    requires
        0 <= c <= s.len(),
        forall|j: int| 0 <= j < c ==> !is_space_char(s[j]),
    ensures
        find_space(s) >= c,
    decreases c,
{
    if c > 0 {
        let d = s.drop_first();
        assert forall|j: int| 0 <= j < c - 1 implies !is_space_char(d[j]) by {
            assert(d[j] == s[j + 1]);
        }
        lemma_find_space_ge(d, c - 1);
        assert(!is_space_char(s[0]));
    } else {
        lemma_find_space_bounds(s);
    }
}

/// The whitespace-separated words of `s`, in order: maximal runs of
/// non-whitespace characters.
pub open spec fn ws_tokens(s: Seq<char>) -> Seq<Seq<char>>
    decreases s.len(),
    via ws_tokens_dec
{
    let ls = leading_spaces(s);
    if ls >= s.len() {
        Seq::empty()
    } else {
        let rest = s.subrange(ls, s.len() as int);
        let k = find_space(rest);
        seq![rest.subrange(0, k)] + ws_tokens(rest.subrange(k, rest.len() as int))
    }
}

#[via_fn]
proof fn ws_tokens_dec(s: Seq<char>) {
    lemma_leading_spaces_bounds(s);
    let ls = leading_spaces(s);
    if ls < s.len() {
        let rest = s.subrange(ls, s.len() as int);
        lemma_find_space_bounds(rest);
        assert(rest[0] == s[ls]);
        assert(!is_space_char(rest[0]));
        if find_space(rest) == 0 {
            assert(is_space_char(rest[0]));
        }
    }
}

/// The whitespace-separated words of `s`, as `ws_tokens` describes.
pub fn ws_tokens_exec(s: &str) -> (r: Vec<String>)
    ensures
        r.deep_view() == ws_tokens(s@),
{
    let len = s.unicode_len();
    let mut out: Vec<String> = Vec::new();
    let mut pos: usize = 0;
    proof {
        assert(s@.subrange(0, len as int) =~= s@);
        assert(out.deep_view() + ws_tokens(s@.subrange(0, len as int)) =~= ws_tokens(s@));
    }
    loop
        invariant
            len == s@.len(),
            pos <= len,
            out.deep_view() + ws_tokens(s@.subrange(pos as int, len as int)) == ws_tokens(s@),
        decreases len - pos,
    {
        let ghost rem0 = s@.subrange(pos as int, len as int);
        // Skip the whitespace before the next word.
        let mut p: usize = pos;
        proof {
            lemma_leading_spaces_bounds(rem0);
        }
        while p < len && is_space(s.get_char(p))
            invariant
                len == s@.len(),
                pos <= p <= len,
                rem0 == s@.subrange(pos as int, len as int),
                leading_spaces(rem0) >= p - pos,
            decreases len - p,
        {
            proof {
                lemma_leading_spaces_bounds(rem0);
                assert(rem0[p - pos as int] == s@[p as int]);
                assert(forall|k: int| 0 <= k < p - pos + 1 ==> is_space_char(rem0[k]));
                lemma_leading_spaces_skip(rem0, p - pos + 1);
                lemma_leading_spaces_bounds(rem0.subrange(p - pos + 1, rem0.len() as int));
            }
            p = p + 1;
        }
        proof {
            lemma_leading_spaces_bounds(rem0);
            if p < len {
                assert(rem0[p - pos as int] == s@[p as int]);
                if leading_spaces(rem0) > p - pos {
                    assert(is_space_char(rem0[p - pos as int]));
                }
            }
            assert(leading_spaces(rem0) == p - pos);
        }
        if p == len {
            proof {
                assert(ws_tokens(rem0) =~= Seq::<Seq<char>>::empty());
                assert(out.deep_view() =~= ws_tokens(s@));
            }
            return out;
        }
        // Take the word.
        let ghost word_zone = rem0.subrange(p - pos as int, rem0.len() as int);
        proof {
            lemma_find_space_bounds(word_zone);
            assert(word_zone =~= s@.subrange(p as int, len as int));
        }
        let mut q: usize = p;
        while q < len && !is_space(s.get_char(q))
            invariant
                len == s@.len(),
                p <= q <= len,
                word_zone == s@.subrange(p as int, len as int),
                forall|k: int| 0 <= k < q - p ==> !is_space_char(word_zone[k]),
            decreases len - q,
        {
            proof {
                assert(word_zone[q - p as int] == s@[q as int]);
            }
            q = q + 1;
        }
        proof {
            lemma_find_space_ge(word_zone, q - p as int);
            lemma_find_space_bounds(word_zone);
            if q < len {
                assert(word_zone[q - p as int] == s@[q as int]);
                if find_space(word_zone) > q - p {
                    assert(!is_space_char(word_zone[q - p as int]));
                }
            }
            assert(find_space(word_zone) == q - p);
        }
        let word = s.substring_char(p, q);
        out.push(word.to_owned());
        proof {
            assert(word@ =~= word_zone.subrange(0, q - p as int));
            assert(word_zone.subrange(q - p as int, word_zone.len() as int) =~= s@.subrange(
                q as int,
                len as int,
            ));
            assert(ws_tokens(rem0) =~= seq![word@] + ws_tokens(s@.subrange(q as int, len as int)));
            assert(out.deep_view() =~= out.deep_view().drop_last().push(word@));
            assert(out.deep_view() + ws_tokens(s@.subrange(q as int, len as int)) =~= ws_tokens(
                s@,
            ));
        }
        pos = q;
    }
}

/// The pieces joined with `.` between them.
pub open spec fn join_dot(parts: Seq<Seq<char>>) -> Seq<char>
    decreases parts.len(),
{
    if parts.len() == 0 {
        Seq::empty()
    } else if parts.len() == 1 {
        parts[0]
    } else {
        parts[0] + seq!['.'] + join_dot(parts.drop_first())
    }
}

/// Joins the pieces with `.` between them, as `join_dot` describes.
pub fn join_with_dot(parts: &Vec<String>) -> (r: String)
    ensures
        r@ == join_dot(parts.deep_view()),
{
    let mut r = String::new();
    if parts.len() == 0 {
        return r;
    }
    let mut i: usize = 0;
    proof {
        assert(parts.deep_view().subrange(0, parts.len() as int) =~= parts.deep_view());
        assert(r@ + join_dot(parts.deep_view()) =~= join_dot(parts.deep_view()));
    }
    while i < parts.len() - 1
        invariant
            parts.len() > 0,
            i <= parts.len() - 1,
            parts.deep_view().len() == parts.len(),
            r@ + join_dot(parts.deep_view().subrange(i as int, parts.len() as int)) == join_dot(
                parts.deep_view(),
            ),
        decreases parts.len() - i,
    {
        let ghost pre = parts.deep_view().subrange(i as int, parts.len() as int);
        proof {
            assert(pre[0] == parts.deep_view()[i as int]);
            assert(pre.drop_first() =~= parts.deep_view().subrange(i + 1, parts.len() as int));
            assert(pre.len() >= 2);
        }
        r.append(parts[i].as_str());
        push_char(&mut r, '.');
        i = i + 1;
    }
    proof {
        let last_piece = parts.deep_view().subrange(i as int, parts.len() as int);
        assert(last_piece.len() == 1);
        assert(last_piece[0] == parts.deep_view()[i as int]);
    }
    r.append(parts[parts.len() - 1].as_str());
    r
}

/// Splits `s` at the first occurrence of `c`: the part before and the part
/// after, or `None` if `c` does not occur.
pub fn split_once_char(s: &str, c: char) -> (r: Option<(String, String)>)
    ensures
        match r {
            Some(pair) => {
                &&& find_char(s@, c) < s@.len()
                &&& pair.0@ == s@.subrange(0, find_char(s@, c))
                &&& pair.1@ == s@.subrange(find_char(s@, c) + 1, s@.len() as int)
            },
            None => find_char(s@, c) == s@.len(),
        },
{
    let len = s.unicode_len();
    let i = find_char_exec(s, c);
    if i == len {
        None
    } else {
        proof {
            lemma_find_char_bounds(s@, c);
        }
        let before = s.substring_char(0, i).to_owned();
        let after = s.substring_char(i + 1, len).to_owned();
        Some((before, after))
    }
}

} // verus!
