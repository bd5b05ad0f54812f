//! Verified text utilities: character-level views of strings, line splitting
//! with the usual newline conventions, pattern removal and trimming.

use vstd::prelude::*;
use vstd::string::StrSliceExecFns;
use crate::ext::push_char;

verus! {

/// The characters of a string, one per element.
pub fn chars_of(s: &str) -> (r: Vec<char>)
    ensures
        r@ == s@,
{
    let n = s.unicode_len();
    let mut r: Vec<char> = Vec::new();
    let mut i: usize = 0;
    while i < n
        invariant
            n == s@.len(),
            i <= n,
            r@ == s@.subrange(0, i as int),
        decreases n - i,
    {
        r.push(s.get_char(i));
        proof {
            assert(r@ =~= s@.subrange(0, i + 1 as int));
        }
        i += 1;
    }
    proof {
        assert(r@ =~= s@);
    }
    r
}

/// A string holding exactly the given characters.
pub fn string_of(cs: &Vec<char>) -> (r: String)
    ensures
        r@ == cs@,
{
    let mut r = String::new();
    let mut i: usize = 0;
    while i < cs.len()
        invariant
            i <= cs@.len(),
            r@ == cs@.subrange(0, i as int),
        decreases cs@.len() - i,
    {
        push_char(&mut r, cs[i]);
        proof {
            assert(r@ =~= cs@.subrange(0, i + 1 as int));
        }
        i += 1;
    }
    proof {
        assert(r@ =~= cs@);
    }
    r
}

/// Whether the sequence holds the character anywhere.
pub fn contains_char(s: &Vec<char>, c: char) -> (r: bool)
    ensures
        r == s@.contains(c),
{
    let mut i: usize = 0;
    while i < s.len()
        invariant
            i <= s@.len(),
            forall|k: int| 0 <= k < i ==> s@[k] != c,
        decreases s@.len() - i,
    {
        if s[i] == c {
            return true;
        }
        i += 1;
    }
    false
}

/// The ASCII whitespace trimmed from profile names.
pub open spec fn is_space(c: char) -> bool {
    c == ' ' || c == '\t' || c == '\r' || c == '\n'
}

/// The sequence with its leading whitespace removed.
pub open spec fn spec_trim_front(s: Seq<char>) -> Seq<char>
    decreases s.len(),
{
    if s.len() > 0 && is_space(s[0]) {
        spec_trim_front(s.skip(1))
    } else {
        s
    }
}

/// The sequence with its trailing whitespace removed.
pub open spec fn spec_trim_back(s: Seq<char>) -> Seq<char>
    decreases s.len(),
{
    if s.len() > 0 && is_space(s.last()) {
        spec_trim_back(s.drop_last())
    } else {
        s
    }
}

/// The sequence with whitespace removed from both ends.
pub open spec fn spec_trim(s: Seq<char>) -> Seq<char> {
    spec_trim_back(spec_trim_front(s))
}

/// Trims ASCII whitespace from both ends.
pub fn trim_spaces(s: &Vec<char>) -> (r: Vec<char>)
    ensures
        r@ == spec_trim(s@),
{
    let n = s.len();
    let mut start: usize = 0;
    proof {
        assert(s@.skip(0) =~= s@);
    }
    while start < n && (s[start] == ' ' || s[start] == '\t' || s[start] == '\r' || s[start] == '\n')
        invariant
            n == s@.len(),
            start <= n,
            spec_trim_front(s@) == spec_trim_front(s@.skip(start as int)),
        decreases n - start,
    {
        proof {
            assert(s@.skip(start as int).skip(1) =~= s@.skip(start + 1 as int));
        }
        start += 1;
    }
    let t: Ghost<Seq<char>> = Ghost(s@.skip(start as int));
    proof {
        if start < n {
            assert(t@[0] == s@[start as int]);
            assert(!is_space(t@[0]));
            assert(spec_trim_front(s@) == t@);
        } else {
            assert(t@ =~= Seq::<char>::empty());
            assert(spec_trim_front(s@) == t@);
        }
    }
    let mut end: usize = n - start;
    proof {
        assert(t@.take((n - start) as int) =~= t@);
    }
    while end > 0 && (s[start + end - 1] == ' ' || s[start + end - 1] == '\t' || s[start + end - 1]
        == '\r' || s[start + end - 1] == '\n')
        invariant
            n == s@.len(),
            start <= n,
            end <= n - start,
            t@ == s@.skip(start as int),
            spec_trim_back(t@) == spec_trim_back(t@.take(end as int)),
        decreases end,
    {
        proof {
            assert(t@.take(end as int).last() == s@[start + end - 1]);
            assert(t@.take(end as int).drop_last() =~= t@.take(end - 1 as int));
        }
        end -= 1;
    }
    proof {
        if end > 0 {
            assert(t@.take(end as int).last() == s@[start + end - 1]);
            assert(spec_trim_back(t@.take(end as int)) == t@.take(end as int));
        } else {
            assert(t@.take(0) =~= Seq::<char>::empty());
            assert(spec_trim_back(t@) == t@.take(0));
        }
        assert(spec_trim(s@) == t@.take(end as int));
    }
    let mut r: Vec<char> = Vec::new();
    let mut i: usize = 0;
    while i < end
        invariant
            n == s@.len(),
            start + end <= n,
            i <= end,
            t@ == s@.skip(start as int),
            r@ == t@.take(end as int).subrange(0, i as int),
        decreases end - i,
    {
        r.push(s[start + i]);
        proof {
            assert(r@ =~= t@.take(end as int).subrange(0, i + 1 as int));
        }
        i += 1;
    }
    proof {
        assert(r@ =~= t@.take(end as int));
    }
    r
}

/// The sequence with every non-overlapping occurrence of the pattern removed,
/// scanning left to right.
pub open spec fn spec_remove_all(s: Seq<char>, pat: Seq<char>) -> Seq<char>
    decreases s.len(),
{
    if pat.len() == 0 || s.len() < pat.len() {
        s
    } else if s.take(pat.len() as int) == pat {
        spec_remove_all(s.skip(pat.len() as int), pat)
    } else {
        seq![s[0]] + spec_remove_all(s.skip(1), pat)
    }
}

/// Whether the pattern stands in `s` at position `at`.
fn matches_at(s: &Vec<char>, at: usize, pat: &Vec<char>) -> (r: bool)
    requires
        at + pat@.len() <= s@.len(),
    ensures
        r == (s@.subrange(at as int, at + pat@.len()) == pat@),
{
    let n = s.len();
    let mut k: usize = 0;
    while k < pat.len()
        invariant
            n == s@.len(),
            at + pat@.len() <= s@.len(),
            k <= pat@.len(),
            forall|j: int| 0 <= j < k ==> s@[at + j] == pat@[j],
        decreases pat@.len() - k,
    {
        if s[at + k] != pat[k] {
            proof {
                assert(s@.subrange(at as int, at + pat@.len())[k as int] != pat@[k as int]);
            }
            return false;
        }
        k += 1;
    }
    proof {
        assert(s@.subrange(at as int, at + pat@.len()) =~= pat@);
    }
    true
}

/// Removes every non-overlapping occurrence of the pattern, left to right.
pub fn remove_all(s: &Vec<char>, pat: &Vec<char>) -> (r: Vec<char>)
    requires
        pat@.len() >= 1,
    ensures
        r@ == spec_remove_all(s@, pat@),
{
    let mut r: Vec<char> = Vec::new();
    let mut i: usize = 0;
    proof {
        assert(s@.skip(0) =~= s@);
        assert(r@ + spec_remove_all(s@, pat@) =~= spec_remove_all(s@, pat@));
    }
    while i < s.len()
        invariant
            pat@.len() >= 1,
            i <= s@.len(),
            spec_remove_all(s@, pat@) == r@ + spec_remove_all(s@.skip(i as int), pat@),
        decreases s@.len() - i,
    {
        let rest: Ghost<Seq<char>> = Ghost(s@.skip(i as int));
        if pat.len() <= s.len() - i && matches_at(s, i, pat) {
            proof {
                assert(rest@.take(pat@.len() as int) =~= s@.subrange(i as int, i + pat@.len()));
                assert(rest@.skip(pat@.len() as int) =~= s@.skip(i + pat@.len()));
                assert(spec_remove_all(rest@, pat@) == spec_remove_all(s@.skip(i + pat@.len()), pat@));
            }
            i += pat.len();
        } else {
            proof {
                if pat@.len() <= rest@.len() {
                    assert(rest@.take(pat@.len() as int) =~= s@.subrange(i as int, i + pat@.len()));
                    assert(rest@.take(pat@.len() as int) != pat@);
                    assert(spec_remove_all(rest@, pat@) == seq![rest@[0]] + spec_remove_all(rest@.skip(1), pat@));
                } else {
                    // the tail is shorter than the pattern: it is kept as it is,
                    // and so is the still shorter tail one step on
                    assert(spec_remove_all(rest@, pat@) == rest@);
                    assert(rest@.skip(1).len() < pat@.len());
                    assert(spec_remove_all(rest@.skip(1), pat@) == rest@.skip(1));
                    assert(rest@ =~= seq![rest@[0]] + rest@.skip(1));
                }
                assert(rest@.skip(1) =~= s@.skip(i + 1));
                assert(rest@[0] == s@[i as int]);
                assert((r@ + spec_remove_all(rest@, pat@)) =~= (r@.push(s@[i as int])
                    + spec_remove_all(s@.skip(i + 1), pat@)));
            }
            r.push(s[i]);
            i += 1;
        }
    }
    proof {
        assert(s@.skip(i as int) =~= Seq::<char>::empty());
        assert(spec_remove_all(s@.skip(i as int), pat@) == s@.skip(i as int));
        assert(r@ + s@.skip(i as int) =~= r@);
    }
    r
}

/// Index of the first newline in the sequence, or its length if there is
/// none.
pub open spec fn first_nl(s: Seq<char>) -> int
    decreases s.len(),
{
    if s.len() == 0 {
        0
    } else if s[0] == '\n' {
        0
    } else {
        1 + first_nl(s.skip(1))
    }
}

/// A scan that stops at the first newline found pins `first_nl` down.
pub proof fn lemma_first_nl_at(s: Seq<char>, m: int)
    requires
        0 <= m <= s.len(),
        forall|k: int| 0 <= k < m ==> s[k] != '\n',
        m < s.len() ==> s[m] == '\n',
    ensures
        first_nl(s) == m,
    decreases m,
{
    if m == 0 {
        if s.len() > 0 {
            assert(s[0] == '\n');
        }
    } else {
        assert(s[0] != '\n');
        assert forall|k: int| 0 <= k < m - 1 implies s.skip(1)[k] != '\n' by {
            assert(s[k + 1] != '\n');
        }
        if m - 1 < s.skip(1).len() {
            assert(s.skip(1)[m - 1] == s[m]);
        }
        lemma_first_nl_at(s.skip(1), m - 1);
    }
}

/// A line with its carriage return stripped, as the usual line splitting
/// does before a newline.
pub open spec fn spec_chop(l: Seq<char>) -> Seq<char> {
    if l.len() > 0 && l.last() == '\r' {
        l.drop_last()
    } else {
        l
    }
}

/// The lines of a text: split at each newline, a carriage return directly
/// before a newline stripped, and no empty line after a final newline.
pub open spec fn spec_lines(s: Seq<char>) -> Seq<Seq<char>>
    decreases s.len(),
{
    if s.len() == 0 {
        seq![]
    } else {
        let i = first_nl(s);
        if 0 <= i < s.len() {
            seq![spec_chop(s.take(i))] + spec_lines(s.skip(i + 1))
        } else {
            seq![s]
        }
    }
}

/// First newline at or after `from`, or the length if there is none.
fn find_nl(s: &Vec<char>, from: usize) -> (r: usize)
    requires
        from <= s@.len(),
    ensures
        from <= r <= s@.len(),
        forall|k: int| from <= k < r ==> s@[k] != '\n',
        r < s@.len() ==> s@[r as int] == '\n',
{
    let mut i: usize = from;
    while i < s.len()
        invariant
            from <= i <= s@.len(),
            forall|k: int| from <= k < i ==> s@[k] != '\n',
        decreases s@.len() - i,
    {
        if s[i] == '\n' {
            return i;
        }
        i += 1;
    }
    i
}

/// The characters of `s` from `a` (inclusive) to `b` (exclusive).
fn copy_range(s: &Vec<char>, a: usize, b: usize) -> (r: Vec<char>)
    requires
        a <= b <= s@.len(),
    ensures
        r@ == s@.subrange(a as int, b as int),
{
    let mut r: Vec<char> = Vec::new();
    let mut i: usize = a;
    while i < b
        invariant
            a <= i <= b <= s@.len(),
            r@ == s@.subrange(a as int, i as int),
        decreases b - i,
    {
        r.push(s[i]);
        proof {
            assert(r@ =~= s@.subrange(a as int, i + 1 as int));
        }
        i += 1;
    }
    r
}

/// Splits a text into its lines: at each newline, stripping a carriage
/// return that stands directly before one, with no empty line after a final
/// newline.
pub fn split_lines(s: &Vec<char>) -> (r: Vec<Vec<char>>)
    ensures
        r.deep_view() == spec_lines(s@),
{
    let mut out: Vec<Vec<char>> = Vec::new();
    let mut pos: usize = 0;
    proof {
        assert(s@.skip(0) =~= s@);
        assert(out.deep_view() =~= Seq::<Seq<char>>::empty());
        assert(out.deep_view() + spec_lines(s@) =~= spec_lines(s@));
    }
    while pos < s.len()
        invariant
            pos <= s@.len(),
            spec_lines(s@) == out.deep_view() + spec_lines(s@.skip(pos as int)),
        decreases s@.len() - pos,
    {
        let rest: Ghost<Seq<char>> = Ghost(s@.skip(pos as int));
        let ghost pre = out.deep_view();
        let nl = find_nl(s, pos);
        proof {
            assert forall|k: int| 0 <= k < nl - pos implies rest@[k] != '\n' by {
                assert(s@[pos + k] != '\n');
            }
            if nl < s@.len() {
                assert(rest@[nl - pos] == '\n');
            }
            lemma_first_nl_at(rest@, nl - pos);
        }
        if nl < s.len() {
            let mut line = copy_range(s, pos, nl);
            proof {
                assert(line@ =~= rest@.take(nl - pos));
            }
            if line.len() > 0 && line[line.len() - 1] == '\r' {
                line.pop();
                proof {
                    assert(line@ =~= spec_chop(rest@.take(nl - pos)));
                }
            } else {
                proof {
                    assert(line@ == spec_chop(rest@.take(nl - pos)));
                }
            }
            let ghost lv = line@;
            out.push(line);
            proof {
                assert(line.deep_view() =~= lv);
                assert(out.deep_view() =~= pre.push(lv));
                assert(rest@.skip(nl - pos + 1) =~= s@.skip(nl + 1));
                assert(spec_lines(rest@) == seq![spec_chop(rest@.take(nl - pos))] + spec_lines(
                    s@.skip(nl + 1),
                ));
                assert(out.deep_view() + spec_lines(s@.skip(nl + 1)) =~= pre + spec_lines(rest@));
            }
            pos = nl + 1;
        } else {
            let line = copy_range(s, pos, nl);
            proof {
                assert(line@ =~= rest@);
                assert(rest@.len() > 0);
                assert(first_nl(rest@) == rest@.len());
                assert(spec_lines(rest@) == seq![rest@]);
            }
            let ghost lv = line@;
            out.push(line);
            proof {
                assert(line.deep_view() =~= lv);
                assert(out.deep_view() =~= pre.push(lv));
                assert(s@.skip(nl as int) =~= Seq::<char>::empty());
                assert(spec_lines(s@.skip(nl as int)) =~= Seq::<Seq<char>>::empty());
                assert(out.deep_view() + spec_lines(s@.skip(nl as int)) =~= pre + spec_lines(
                    rest@,
                ));
            }
            pos = nl;
        }
    }
    proof {
        assert(s@.skip(pos as int) =~= Seq::<char>::empty());
        assert(out.deep_view() + spec_lines(s@.skip(pos as int)) =~= out.deep_view());
    }
    out
}

} // verus!
