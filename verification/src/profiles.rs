//! Parsing of the external tool's profile listing: the lines that carry the
//! success marker, with colour codes and the marker stripped and whitespace
//! trimmed.

use vstd::prelude::*;
use crate::text::{
    chars_of, contains_char, remove_all, spec_lines, spec_remove_all, spec_trim, split_lines,
    string_of, trim_spaces,
};

verus! {

/// The marker the tool prints in front of each available profile.
pub open spec fn marker() -> char {
    '\u{2713}'
}

/// A line of the listing, cleaned: the green colour code, the colour reset
/// and the marker removed, then whitespace trimmed.
pub open spec fn spec_clean(l: Seq<char>) -> Seq<char> {
    spec_trim(
        spec_remove_all(
            spec_remove_all(spec_remove_all(l, "\u{1b}[32m"@), "\u{1b}[0m"@),
            seq![marker()],
        ),
    )
}

/// The cleaned profile names among the given lines: every line that carries
/// the marker, in order, cleaned.
pub open spec fn spec_profiles_of(lines: Seq<Seq<char>>) -> Seq<Seq<char>>
    decreases lines.len(),
{
    if lines.len() == 0 {
        seq![]
    } else {
        let rest = spec_profiles_of(lines.drop_last());
        if lines.last().contains(marker()) {
            rest.push(spec_clean(lines.last()))
        } else {
            rest
        }
    }
}

/// The profile names in the tool's raw listing output.
pub open spec fn spec_profiles(raw: Seq<char>) -> Seq<Seq<char>> {
    spec_profiles_of(spec_lines(raw))
}

/// Parses the tool's raw profile listing: keeps each line holding the
/// success marker, strips the colour codes and the marker, and trims
/// whitespace.
pub fn parse_profiles(raw: &str) -> (r: Vec<String>)
    ensures
        r.deep_view() == spec_profiles(raw@),
{
    let green = chars_of("\u{1b}[32m");
    let reset = chars_of("\u{1b}[0m");
    let mut mark: Vec<char> = Vec::new();
    mark.push('\u{2713}');
    proof {
        reveal_strlit("\u{1b}[32m");
        reveal_strlit("\u{1b}[0m");
        assert(green@.len() >= 1);
        assert(reset@.len() >= 1);
        assert(mark@ =~= seq![marker()]);
    }
    let cs = chars_of(raw);
    let lines = split_lines(&cs);
    let ghost lsv = lines.deep_view();
    let mut out: Vec<String> = Vec::new();
    let mut i: usize = 0;
    proof {
        assert(lsv.take(0) =~= Seq::<Seq<char>>::empty());
        assert(out.deep_view() =~= spec_profiles_of(lsv.take(0)));
    }
    while i < lines.len()
        invariant
            i <= lines@.len(),
            lsv == lines.deep_view(),
            lsv == spec_lines(raw@),
            lsv.len() == lines@.len(),
            green@ == "\u{1b}[32m"@,
            reset@ == "\u{1b}[0m"@,
            mark@ == seq![marker()],
            green@.len() >= 1,
            reset@.len() >= 1,
            mark@.len() == 1,
            out.deep_view() == spec_profiles_of(lsv.take(i as int)),
        decreases lines@.len() - i,
    {
        let ghost pre = out.deep_view();
        proof {
            assert(lines@[i as int].deep_view() =~= lines@[i as int]@);
            assert(lsv.take(i + 1 as int).drop_last() =~= lsv.take(i as int));
            assert(lsv.take(i + 1 as int).last() == lsv[i as int]);
        }
        if contains_char(&lines[i], '\u{2713}') {
            let c1 = remove_all(&lines[i], &green);
            let c2 = remove_all(&c1, &reset);
            let c3 = remove_all(&c2, &mark);
            let c4 = trim_spaces(&c3);
            let name = string_of(&c4);
            out.push(name);
            proof {
                assert(name@ == spec_clean(lsv[i as int]));
                assert(out.deep_view() =~= pre.push(name@));
                assert(out.deep_view() =~= spec_profiles_of(lsv.take(i + 1 as int)));
            }
        } else {
            proof {
                assert(out.deep_view() =~= spec_profiles_of(lsv.take(i + 1 as int)));
            }
        }
        i += 1;
    }
    proof {
        assert(lsv.take(i as int) =~= lsv);
    }
    out
}

} // verus!
