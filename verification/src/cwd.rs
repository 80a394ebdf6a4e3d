//! Extracting a process's working directory from a file-descriptor listing.
//!
//! The host obtains, best-effort, a field-per-line listing of a process's
//! open descriptors (the `-F` style: each line is a field letter followed by
//! its value, a `fcwd` line announcing that the following name lines belong
//! to the working directory). This module owns the parsing: find the first
//! `fcwd` line, then return the value of the first name line (`n` prefix)
//! after it. Absence of either means the directory is unknown — an absence,
//! not an error.

use vstd::prelude::*;

verus! {

/// Line feed, the separator between fields of the listing.
pub const LINE_FEED: u8 = 10;

/// `s` split at every line feed: always at least one (possibly empty) line;
/// the separators themselves appear in no line.
pub open spec fn split_lines(s: Seq<u8>) -> Seq<Seq<u8>>
    decreases s.len(),
{
    if s.len() == 0 {
        seq![Seq::<u8>::empty()]
    } else if s.first() == LINE_FEED {
        seq![Seq::<u8>::empty()] + split_lines(s.drop_first())
    } else {
        let rest = split_lines(s.drop_first());
        seq![seq![s.first()] + rest.first()] + rest.drop_first()
    }
}

/// A split always yields at least one line.
pub proof fn lemma_split_lines_nonempty(s: Seq<u8>)
    ensures
        split_lines(s).len() >= 1,
{
}

/// The marker line that announces the working-directory descriptor.
pub open spec fn fcwd_marker() -> Seq<u8> {
    seq![102u8, 99u8, 119u8, 100u8]
}

/// The working directory named by a sequence of listing lines: the value of
/// the first name line (`n` prefix) after the first `fcwd` line, if both
/// exist.
pub open spec fn cwd_in_lines(lines: Seq<Seq<u8>>, seen_fcwd: bool) -> Option<Seq<u8>>
    decreases lines.len(),
{
    if lines.len() == 0 {
        None
    } else if seen_fcwd && lines.first().len() > 0 && lines.first().first() == 110u8 {
        Some(lines.first().drop_first())
    } else {
        cwd_in_lines(lines.drop_first(), seen_fcwd || lines.first() == fcwd_marker())
    }
}

/// What `parse_cwd_listing` returns on a whole listing.
pub open spec fn spec_cwd_of_listing(s: Seq<u8>) -> Option<Seq<u8>> {
    cwd_in_lines(split_lines(s), false)
}

/// Split a listing into its lines.
fn split_lines_exec(s: &[u8]) -> (r: Vec<Vec<u8>>)
    ensures
        r@.map_values(|l: Vec<u8>| l@) == split_lines(s@),
{
    let mut acc: Vec<Vec<u8>> = Vec::new();
    let mut cur: Vec<u8> = Vec::new();
    let mut pos: usize = 0;
    proof {
        lemma_split_lines_nonempty(s@);
        assert(s@.skip(0) =~= s@);
        assert(acc@.map_values(|l: Vec<u8>| l@) =~= Seq::<Seq<u8>>::empty());
        assert(cur@ + split_lines(s@).first() =~= split_lines(s@).first());
        assert(split_lines(s@) =~= acc@.map_values(|l: Vec<u8>| l@) + seq![
            cur@ + split_lines(s@.skip(0)).first(),
        ] + split_lines(s@.skip(0)).drop_first());
    }
    while pos < s.len()
        invariant
            pos <= s@.len(),
            split_lines(s@) == acc@.map_values(|l: Vec<u8>| l@) + seq![
                cur@ + split_lines(s@.skip(pos as int)).first(),
            ] + split_lines(s@.skip(pos as int)).drop_first(),
        decreases s@.len() - pos,
    {
        let ghost suffix = s@.skip(pos as int);
        proof {
            assert(suffix.len() > 0);
            assert(suffix.first() == s@[pos as int]);
            assert(suffix.drop_first() =~= s@.skip(pos as int + 1));
        }
        let c = s[pos];
        if c == LINE_FEED {
            let ghost old_acc = acc@;
            let ghost old_cur = cur@;
            let done = cur;
            acc.push(done);
            cur = Vec::new();
            proof {
                lemma_split_lines_nonempty(s@.skip(pos as int + 1));
                assert(split_lines(suffix) == seq![Seq::<u8>::empty()] + split_lines(
                    s@.skip(pos as int + 1),
                ));
                assert(old_cur + split_lines(suffix).first() =~= old_cur);
                assert(split_lines(suffix).drop_first() =~= split_lines(s@.skip(pos as int + 1)));
                assert(acc@.map_values(|l: Vec<u8>| l@) =~= old_acc.map_values(|l: Vec<u8>| l@)
                    + seq![old_cur]);
                assert(cur@ + split_lines(s@.skip(pos as int + 1)).first() =~= split_lines(
                    s@.skip(pos as int + 1),
                ).first());
                assert(split_lines(s@) =~= acc@.map_values(|l: Vec<u8>| l@) + seq![
                    cur@ + split_lines(s@.skip(pos as int + 1)).first(),
                ] + split_lines(s@.skip(pos as int + 1)).drop_first());
            }
        } else {
            let ghost old_cur = cur@;
            cur.push(c);
            proof {
                lemma_split_lines_nonempty(s@.skip(pos as int + 1));
                let rest = split_lines(s@.skip(pos as int + 1));
                assert(split_lines(suffix) == seq![seq![suffix.first()] + rest.first()]
                    + rest.drop_first());
                assert(old_cur + split_lines(suffix).first() =~= cur@ + rest.first());
                assert(split_lines(suffix).drop_first() =~= rest.drop_first());
                assert(split_lines(s@) =~= acc@.map_values(|l: Vec<u8>| l@) + seq![
                    cur@ + rest.first(),
                ] + rest.drop_first());
            }
        }
        pos += 1;
    }
    proof {
        let suffix = s@.skip(pos as int);
        assert(suffix =~= Seq::<u8>::empty());
        assert(split_lines(suffix) == seq![Seq::<u8>::empty()]);
        assert(cur@ + split_lines(suffix).first() =~= cur@);
        assert(split_lines(suffix).drop_first() =~= Seq::<Seq<u8>>::empty());
    }
    let ghost old_acc = acc@;
    let ghost old_cur = cur@;
    acc.push(cur);
    proof {
        assert(acc@.map_values(|l: Vec<u8>| l@) =~= old_acc.map_values(|l: Vec<u8>| l@) + seq![
            old_cur,
        ]);
        assert(split_lines(s@) =~= acc@.map_values(|l: Vec<u8>| l@));
    }
    acc
}

/// Whether this line is the `fcwd` marker.
fn is_fcwd(line: &Vec<u8>) -> (r: bool)
    ensures
        r == (line@ == fcwd_marker()),
{
    let r = line.len() == 4 && line[0] == 102 && line[1] == 99 && line[2] == 119 && line[3]
        == 100;
    proof {
        if r {
            assert(line@ =~= fcwd_marker());
        } else {
            if line@ == fcwd_marker() {
                assert(line@.len() == 4);
                assert(line@[0] == 102u8 && line@[1] == 99u8 && line@[2] == 119u8 && line@[3]
                    == 100u8);
            }
        }
    }
    r
}

/// Parse a descriptor listing and return the working directory it names, if
/// any: the value of the first name line after the first `fcwd` marker.
pub fn parse_cwd_listing(out: &[u8]) -> (r: Option<Vec<u8>>)
    ensures
        match r {
            Some(v) => spec_cwd_of_listing(out@) == Some(v@),
            None => spec_cwd_of_listing(out@) is None,
        },
{
    let lines = split_lines_exec(out);
    let ghost lv = lines@.map_values(|l: Vec<u8>| l@);
    let mut seen: bool = false;
    let mut i: usize = 0;
    proof {
        assert(lv.skip(0) =~= lv);
    }
    while i < lines.len()
        invariant
            i <= lines@.len(),
            lv == lines@.map_values(|l: Vec<u8>| l@),
            lv == split_lines(out@),
            cwd_in_lines(lv.skip(i as int), seen) == spec_cwd_of_listing(out@),
        decreases lines@.len() - i,
    {
        let ghost suffix = lv.skip(i as int);
        proof {
            assert(suffix.len() > 0);
            assert(suffix.first() == lv[i as int]);
            assert(suffix.drop_first() =~= lv.skip(i as int + 1));
        }
        let line = &lines[i];
        if seen && line.len() > 0 && line[0] == 110 {
            let mut v: Vec<u8> = Vec::new();
            let mut j: usize = 1;
            while j < line.len()
                invariant
                    1 <= j <= line@.len(),
                    v@ == line@.subrange(1, j as int),
                decreases line@.len() - j,
            {
                let b = line[j];
                v.push(b);
                proof {
                    assert(v@ =~= line@.subrange(1, j as int + 1));
                }
                j += 1;
            }
            proof {
                assert(v@ =~= line@.drop_first());
                assert(cwd_in_lines(suffix, seen) == Some(line@.drop_first()));
            }
            return Some(v);
        }
        let marker = is_fcwd(line);
        proof {
            assert(cwd_in_lines(suffix, seen) == cwd_in_lines(
                lv.skip(i as int + 1),
                seen || lv[i as int] == fcwd_marker(),
            ));
        }
        if marker {
            seen = true;
        }
        i += 1;
    }
    proof {
        assert(lv.skip(i as int) =~= Seq::<Seq<u8>>::empty());
        assert(cwd_in_lines(lv.skip(i as int), seen) is None);
    }
    None
}

} // verus!
