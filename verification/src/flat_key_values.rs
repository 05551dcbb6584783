use vstd::prelude::*;

use crate::text::{find_char, split_once_char, str_eq, trim_spec, trim_str};

verus! {

/// What one line of a flat key-value file means: the line is trimmed, split
/// at the first `=`, and both sides are trimmed again; a line without `=`
/// (a comment, a blank line) binds nothing.
pub open spec fn parse_kv(line: Seq<char>) -> Option<(Seq<char>, Seq<char>)> {
    let t = trim_spec(line);
    let i = find_char(t, '=');
    if i < t.len() {
        Some((trim_spec(t.subrange(0, i)), trim_spec(t.subrange(i + 1, t.len() as int))))
    } else {
        None
    }
}

/// Parses one line as `parse_kv` describes.
pub fn parse_kv_exec(line: &str) -> (r: Option<(String, String)>)
    ensures
        match r {
            Some(p) => parse_kv(line@) matches Some(q) && p.0@ == q.0 && p.1@ == q.1,
            None => parse_kv(line@) is None,
        },
{
    let t = trim_str(line);
    match split_once_char(t.as_str(), '=') {
        Some((before, after)) => Some((trim_str(before.as_str()), trim_str(after.as_str()))),
        None => None,
    }
}

/// The key-value pairs of a sequence of pairs of strings, as sequences.
pub open spec fn pair_views(data: Seq<(String, String)>) -> Seq<(Seq<char>, Seq<char>)> {
    data.map_values(|p: (String, String)| (p.0@, p.1@))
}

/// No key occurs twice.
pub open spec fn uniq_keys(ps: Seq<(Seq<char>, Seq<char>)>) -> bool {
    forall|i: int, j: int| 0 <= i < j < ps.len() ==> ps[i].0 != ps[j].0
}

/// The mapping an association list denotes; a later binding wins.
pub open spec fn assoc_map(ps: Seq<(Seq<char>, Seq<char>)>) -> Map<Seq<char>, Seq<char>>
    decreases ps.len(),
{
    if ps.len() == 0 {
        Map::empty()
    } else {
        assoc_map(ps.drop_last()).insert(ps.last().0, ps.last().1)
    }
}

/// The mapping a whole file denotes: every line contributes its binding,
/// later lines winning.
pub open spec fn map_of_lines(lines: Seq<Seq<char>>) -> Map<Seq<char>, Seq<char>>
    decreases lines.len(),
{
    if lines.len() == 0 {
        Map::empty()
    } else {
        let m = map_of_lines(lines.drop_last());
        match parse_kv(lines.last()) {
            Some(kv) => m.insert(kv.0, kv.1),
            None => m,
        }
    }
}

/// A binding present at position `i` of an association list with unique
/// keys is what the mapping holds for that key.
proof fn lemma_assoc_found(ps: Seq<(Seq<char>, Seq<char>)>, i: int, k: Seq<char>)
    requires
        uniq_keys(ps),
        0 <= i < ps.len(),
        ps[i].0 == k,
    ensures
        assoc_map(ps).contains_key(k),
        assoc_map(ps)[k] == ps[i].1,
    decreases ps.len(),
{
    if i == ps.len() - 1 {
    } else {
        assert(ps.last().0 != k);
        assert(ps.drop_last()[i] == ps[i]);
        lemma_assoc_found(ps.drop_last(), i, k);
    }
}

/// A key absent from an association list is absent from its mapping.
proof fn lemma_assoc_absent(ps: Seq<(Seq<char>, Seq<char>)>, k: Seq<char>)
    requires
        forall|j: int| 0 <= j < ps.len() ==> ps[j].0 != k,
    ensures
        !assoc_map(ps).contains_key(k),
    decreases ps.len(),
{
    if ps.len() > 0 {
        lemma_assoc_absent(ps.drop_last(), k);
    }
}

/// Replacing the binding at the position holding key `k` updates the
/// mapping at `k`.
proof fn lemma_assoc_update(ps: Seq<(Seq<char>, Seq<char>)>, i: int, k: Seq<char>, v: Seq<char>)
    requires
        uniq_keys(ps),
        0 <= i < ps.len(),
        ps[i].0 == k,
    ensures
        assoc_map(ps.update(i, (k, v))) == assoc_map(ps).insert(k, v),
        uniq_keys(ps.update(i, (k, v))),
    decreases ps.len(),
{
    let ps2 = ps.update(i, (k, v));
    assert forall|a: int, b: int| 0 <= a < b < ps2.len() implies ps2[a].0 != ps2[b].0 by {
        assert(ps[a].0 == ps2[a].0 || a == i);
        assert(ps[b].0 == ps2[b].0 || b == i);
    }
    if i == ps.len() - 1 {
        assert(ps2.drop_last() =~= ps.drop_last());
        assert(ps2.last() == (k, v));
        assert(assoc_map(ps2) =~= assoc_map(ps).insert(k, v));
    } else {
        assert(ps.last().0 != k);
        assert(ps.drop_last()[i] == ps[i]);
        lemma_assoc_update(ps.drop_last(), i, k, v);
        assert(ps2.drop_last() =~= ps.drop_last().update(i, (k, v)));
        assert(ps2.last() == ps.last());
        assert(assoc_map(ps2) =~= assoc_map(ps).insert(k, v));
    }
}

/// A structure holding the lines of a flat key-value file together with the
/// mapping they denote, for lookups and in-place updates that preserve the
/// file's layout.
pub struct FlatKeyValues {
    lines: Vec<String>,
    data: Vec<(String, String)>,
    is_modified: bool,
}

impl FlatKeyValues {
    /// The lines of the file, in order.
    pub closed spec fn lines_view(&self) -> Seq<Seq<char>> {
        self.lines.deep_view()
    }

    /// The mapping the structure answers lookups from.
    pub closed spec fn mapping(&self) -> Map<Seq<char>, Seq<char>> {
        assoc_map(pair_views(self.data@))
    }

    /// Whether there are unsaved changes.
    pub closed spec fn modified(&self) -> bool {
        self.is_modified
    }

    /// The internal association list holds each key once.
    pub closed spec fn wf(&self) -> bool {
        uniq_keys(pair_views(self.data@))
    }

    /// Builds the structure from the lines of a file, preserving them as
    /// they are; the mapping is exactly what the lines denote.
    pub fn load_from_file(file_lines: Vec<String>) -> (r: FlatKeyValues)
        ensures
            r.wf(),
            r.lines_view() == file_lines.deep_view(),
            r.mapping() == map_of_lines(file_lines.deep_view()),
            !r.modified(),
    {
        let mut data: Vec<(String, String)> = Vec::new();
        let mut i: usize = 0;
        proof {
            assert(file_lines.deep_view().subrange(0, 0) =~= Seq::<Seq<char>>::empty());
            assert(pair_views(data@) =~= Seq::<(Seq<char>, Seq<char>)>::empty());
        }
        while i < file_lines.len()
            invariant
                i <= file_lines.len(),
                file_lines.deep_view().len() == file_lines.len(),
                uniq_keys(pair_views(data@)),
                assoc_map(pair_views(data@)) == map_of_lines(
                    file_lines.deep_view().subrange(0, i as int),
                ),
            decreases file_lines.len() - i,
        {
            let ghost prefix = file_lines.deep_view().subrange(0, i as int);
            let line: &String = &file_lines[i];
            proof {
                assert(file_lines.deep_view()[i as int] == line@);
                assert(file_lines.deep_view().subrange(0, i + 1).drop_last() =~= prefix);
                assert(file_lines.deep_view().subrange(0, i + 1).last() == line@);
            }
            match parse_kv_exec(line.as_str()) {
                Some(kv) => {
                    assoc_set(&mut data, kv.0, kv.1);
                },
                None => {},
            }
            i = i + 1;
        }
        proof {
            assert(file_lines.deep_view().subrange(0, file_lines.len() as int) =~= file_lines.deep_view());
        }
        FlatKeyValues { lines: file_lines, data, is_modified: false }
    }

    /// Looks the key up in the mapping.
    pub fn get(&self, key: &str) -> (r: Option<&String>)
        requires
            self.wf(),
        ensures
            match r {
                Some(v) => self.mapping().contains_key(key@) && v@ == self.mapping()[key@],
                None => !self.mapping().contains_key(key@),
            },
    {
        let ghost ps = pair_views(self.data@);
        let mut i: usize = 0;
        while i < self.data.len()
            invariant
                i <= self.data.len(),
                ps == pair_views(self.data@),
                uniq_keys(ps),
                forall|j: int| 0 <= j < i ==> ps[j].0 != key@,
            decreases self.data.len() - i,
        {
            proof {
                assert(ps[i as int] == (self.data@[i as int].0@, self.data@[i as int].1@));
            }
            if str_eq(self.data[i].0.as_str(), key) {
                proof {
                    lemma_assoc_found(ps, i as int, key@);
                }
                return Some(&self.data[i].1);
            }
            i = i + 1;
        }
        proof {
            lemma_assoc_absent(ps, key@);
        }
        None
    }

    /// Inserts or updates a binding.  The first line already carrying the
    /// key is rewritten in place as `key = value`; if no line carries it, a
    /// new such line is appended.  The mapping gains the binding either way.
    pub fn insert(&mut self, key: String, value: String)
        requires
            old(self).wf(),
        ensures
            final(self).wf(),
            final(self).modified(),
            final(self).mapping() == old(self).mapping().insert(key@, value@),
            final(self).lines_view() == (if line_with_key(old(self).lines_view(), key@) < old(
                self,
            ).lines_view().len() {
                old(self).lines_view().update(
                    line_with_key(old(self).lines_view(), key@),
                    rendered_line(key@, value@),
                )
            } else {
                old(self).lines_view().push(rendered_line(key@, value@))
            }),
    {
        self.is_modified = true;
        let rendered = render_line(&key, &value);
        let ghost lines0 = self.lines.deep_view();

        // Rewrite the first line that carries the key, or append one.
        let n = self.lines.len();
        let mut i: usize = 0;
        proof {
            lemma_line_with_key_bounds(lines0, key@);
        }
        let mut found = false;
        while i < n && !found
            invariant
                n == self.lines.len(),
                lines0 == self.lines.deep_view(),
                lines0.len() == n,
                i <= n,
                !found ==> forall|j: int| 0 <= j < i ==> !line_has_key(lines0[j], key@),
                !found ==> line_with_key(lines0, key@) >= i,
                found ==> i > 0 && line_with_key(lines0, key@) == i - 1,
            decreases n - i,
        {
            let has = line_matches_key(&self.lines[i], &key);
            proof {
                assert(lines0[i as int] == self.lines@[i as int]@);
            }
            if has {
                proof {
                    lemma_line_with_key_bounds(lines0, key@);
                }
                found = true;
            } else {
                proof {
                    lemma_line_with_key_ge(lines0, key@, i + 1);
                }
            }
            i = i + 1;
        }
        if found {
            let idx = i - 1;
            self.lines.set(idx, rendered.clone());
            proof {
                assert(self.lines.deep_view() =~= lines0.update(
                    idx as int,
                    rendered_line(key@, value@),
                ));
            }
        } else {
            self.lines.push(rendered);
            proof {
                assert(line_with_key(lines0, key@) == lines0.len());
                assert(self.lines.deep_view() =~= lines0.push(rendered_line(key@, value@)));
            }
        }

        // Update the mapping.
        assoc_set(&mut self.data, key, value);
    }

    /// Hands back the lines to write if there are unsaved changes, clearing
    /// the modified flag; with nothing to save it does nothing.
    pub fn save(&mut self) -> (r: Option<Vec<String>>)
        requires
            old(self).wf(),
        ensures
            final(self).wf(),
            final(self).lines_view() == old(self).lines_view(),
            final(self).mapping() == old(self).mapping(),
            !final(self).modified(),
            match r {
                Some(out) => old(self).modified() && out.deep_view() == old(self).lines_view(),
                None => !old(self).modified(),
            },
    {
        if !self.is_modified {
            return None;
        }
        self.is_modified = false;
        Some(self.lines.clone())
    }
}

/// Whether a line binds the given key.
pub open spec fn line_has_key(line: Seq<char>, k: Seq<char>) -> bool {
    parse_kv(line) matches Some(kv) && kv.0 == k
}

/// The index of the first line binding the key, or the number of lines.
pub open spec fn line_with_key(lines: Seq<Seq<char>>, k: Seq<char>) -> int
    decreases lines.len(),
{
    if lines.len() == 0 {
        0
    } else if line_has_key(lines[0], k) {
        0
    } else {
        1 + line_with_key(lines.drop_first(), k)
    }
}

proof fn lemma_line_with_key_bounds(lines: Seq<Seq<char>>, k: Seq<char>)
    ensures
        0 <= line_with_key(lines, k) <= lines.len(),
        line_with_key(lines, k) < lines.len() ==> line_has_key(lines[line_with_key(lines, k)], k),
        forall|j: int| 0 <= j < line_with_key(lines, k) ==> !line_has_key(lines[j], k),
    decreases lines.len(),
{
    if lines.len() > 0 && !line_has_key(lines[0], k) {
        lemma_line_with_key_bounds(lines.drop_first(), k);
        assert forall|j: int| 0 <= j < line_with_key(lines, k) implies !line_has_key(
            lines[j],
            k,
        ) by {
            if j > 0 {
                assert(lines.drop_first()[j - 1] == lines[j]);
            }
        }
    }
}

proof fn lemma_line_with_key_ge(lines: Seq<Seq<char>>, k: Seq<char>, c: int)
    requires
        0 <= c <= lines.len(),
        forall|j: int| 0 <= j < c ==> !line_has_key(lines[j], k),
    ensures
        line_with_key(lines, k) >= c,
    decreases c,
{
    if c > 0 {
        let d = lines.drop_first();
        assert forall|j: int| 0 <= j < c - 1 implies !line_has_key(d[j], k) by {
            assert(d[j] == lines[j + 1]);
        }
        lemma_line_with_key_ge(d, k, c - 1);
        assert(!line_has_key(lines[0], k));
    } else {
        lemma_line_with_key_bounds(lines, k);
    }
}

/// The line `insert` writes for a binding: the key, ` = `, the value.
pub open spec fn rendered_line(k: Seq<char>, v: Seq<char>) -> Seq<char> {
    k + seq![' ', '=', ' '] + v
}

/// Renders `key = value`.
fn render_line(key: &String, value: &String) -> (r: String)
    ensures
        r@ == rendered_line(key@, value@),
{
    let mut r = key.clone();
    r.append(" = ");
    r.append(value.as_str());
    proof {
        reveal_strlit(" = ");
        assert(" = "@ =~= seq![' ', '=', ' ']);
        assert(r@ =~= rendered_line(key@, value@));
    }
    r
}

/// Whether this line binds this key.
fn line_matches_key(line: &String, key: &String) -> (r: bool)
    ensures
        r == line_has_key(line@, key@),
{
    match parse_kv_exec(line.as_str()) {
        Some(kv) => str_eq(kv.0.as_str(), key.as_str()),
        None => false,
    }
}

/// Updates the binding for `key` in the association list, or appends one.
fn assoc_set(data: &mut Vec<(String, String)>, key: String, value: String)
    requires
        uniq_keys(pair_views(old(data)@)),
    ensures
        uniq_keys(pair_views(final(data)@)),
        assoc_map(pair_views(final(data)@)) == assoc_map(pair_views(old(data)@)).insert(
            key@,
            value@,
        ),
{
    let ghost ps = pair_views(data@);
    let mut i: usize = 0;
    while i < data.len()
        invariant
            i <= data.len(),
            data@ == old(data)@,
            ps == pair_views(data@),
            uniq_keys(ps),
            forall|j: int| 0 <= j < i ==> ps[j].0 != key@,
        decreases data.len() - i,
    {
        proof {
            assert(ps[i as int] == (data@[i as int].0@, data@[i as int].1@));
        }
        if str_eq(data[i].0.as_str(), key.as_str()) {
            data.set(i, (key, value));
            proof {
                assert(pair_views(data@) =~= ps.update(i as int, (key@, value@)));
                lemma_assoc_update(ps, i as int, key@, value@);
                assert(pair_views(data@) == ps.update(i as int, (key@, value@)));
                assert(assoc_map(pair_views(data@)) == assoc_map(ps).insert(key@, value@));
            }
            return;
        }
        i = i + 1;
    }
    data.push((key, value));
    proof {
        let ps2 = pair_views(data@);
        assert(ps2 =~= ps.push((key@, value@)));
        assert(ps2.drop_last() =~= ps);
        assert forall|a: int, b: int| 0 <= a < b < ps2.len() implies ps2[a].0 != ps2[b].0 by {
            if b == ps2.len() - 1 {
                assert(ps2[a] == ps[a]);
            }
        }
    }
}

} // verus!
