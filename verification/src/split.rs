//! Splitting a text into lines and parts, and joining parts.
use vstd::prelude::*;

use crate::text::{
    chars_of, contains, find_chars, first_at, law_parts_of_parts, lemma_first_at,
    lemma_holds_middle, occurs_at, put, text_between,
};

verus! {

/// The parts of `s` between the occurrences of `sep`.
pub open spec fn split(s: Seq<char>, sep: char) -> Seq<Seq<char>>
    decreases s.len(),
{
    match first_at(s, seq![sep], 0) {
        Some(i) => if 0 <= i < s.len() {
            seq![s.take(i)] + split(s.skip(i + 1), sep)
        } else {
            seq![s]
        },
        None => seq![s],
    }
}

/// The text without one trailing carriage return.
pub open spec fn strip_return(s: Seq<char>) -> Seq<char> {
    if s.len() > 0 && s.last() == '\r' {
        s.drop_last()
    } else {
        s
    }
}

/// The lines of a text: each ends in a line feed, or in a carriage return and a
/// line feed, neither of which belongs to it; the last one may lack its ending.
pub open spec fn lines(s: Seq<char>) -> Seq<Seq<char>>
    decreases s.len(),
{
    if s.len() == 0 {
        seq![]
    } else {
        match first_at(s, seq!['\n'], 0) {
            Some(i) => if 0 <= i < s.len() {
                seq![strip_return(s.take(i))] + lines(s.skip(i + 1))
            } else {
                seq![s]
            },
            None => seq![s],
        }
    }
}

/// The parts with `sep` between each two.
pub open spec fn join(parts: Seq<Seq<char>>, sep: Seq<char>) -> Seq<char>
    decreases parts.len(),
{
    if parts.len() == 0 {
        seq![]
    } else if parts.len() == 1 {
        parts[0]
    } else {
        join(parts.drop_last(), sep) + sep + parts.last()
    }
}

/// The parts of `s` between the occurrences of `sep`.
pub fn split_text(s: &str, sep: char) -> (r: Vec<String>)
    ensures
        r.deep_view() == split(s@, sep),
{
    let v = chars_of(s);
    let mut p: Vec<char> = Vec::new();
    p.push(sep);
    let mut out: Vec<String> = Vec::new();
    let mut from: usize = 0;
    proof {
        assert(p@ =~= seq![sep]);
        assert(v@.skip(0) =~= v@);
        assert(Seq::<Seq<char>>::empty() + split(v@, sep) =~= split(v@, sep));
        assert(out.deep_view() =~= Seq::<Seq<char>>::empty());
    }
    loop
        invariant_except_break
            from <= v.len(),
            p@ == seq![sep],
            split(v@, sep) == out.deep_view() + split(v@.skip(from as int), sep),
        ensures
            out.deep_view() == split(v@, sep),
        decreases v@.len() - from,
    {
        proof {
            lemma_first_at_skip(v@, p@, from as int);
            lemma_first_at(v@, p@, from as int);
        }
        let ghost before = out.deep_view();
        match find_chars(&v, &p, from) {
            Some(i) => {
                out.push(text_between(&v, from, i));
                proof {
                    assert(v@.skip(from as int).take(i - from) =~= v@.subrange(
                        from as int,
                        i as int,
                    ));
                    assert(v@.skip(from as int).skip(i - from + 1) =~= v@.skip(i + 1));
                    assert(out.deep_view() =~= before.push(v@.subrange(from as int, i as int)));
                    assert(before + (seq![v@.subrange(from as int, i as int)] + split(
                        v@.skip(i + 1),
                        sep,
                    )) =~= out.deep_view() + split(v@.skip(i + 1), sep));
                }
                from = i + 1;
            },
            None => {
                out.push(text_between(&v, from, v.len()));
                proof {
                    assert(v@.skip(from as int) =~= v@.subrange(from as int, v@.len() as int));
                    assert(out.deep_view() =~= before + seq![v@.skip(from as int)]);
                }
                break;
            },
        }
    }
    out
}

/// Searching a suffix is searching the whole from where the suffix begins.
pub proof fn lemma_first_at_skip(s: Seq<char>, p: Seq<char>, from: int)
    requires
        0 <= from <= s.len(),
    ensures
        match first_at(s, p, from) {
            Some(i) => first_at(s.skip(from), p, 0) == Some(i - from),
            None => first_at(s.skip(from), p, 0) is None,
        },
{
    let t = s.skip(from);
    lemma_first_at(s, p, from);
    lemma_first_at(t, p, 0);
    assert forall|j: int| 0 <= j implies #[trigger] occurs_at(t, p, j) == occurs_at(
        s,
        p,
        from + j,
    ) by {
        if j + p.len() <= t.len() {
            assert(t.subrange(j, j + p.len()) =~= s.subrange(from + j, from + j + p.len()));
        }
    }
    match first_at(s, p, from) {
        Some(i) => {
            assert(occurs_at(t, p, i - from));
            assert(occurs_at(s, p, i));
        },
        None => {
            match first_at(t, p, 0) {
                Some(j) => {
                    assert(occurs_at(s, p, from + j));
                },
                None => {},
            }
        },
    }
    if let Some(j) = first_at(t, p, 0) {
        assert(occurs_at(s, p, from + j));
    }
}

/// The lines of a text.
pub fn lines_of(s: &str) -> (r: Vec<String>)
    ensures
        r.deep_view() == lines(s@),
{
    let v = chars_of(s);
    let mut p: Vec<char> = Vec::new();
    p.push('\n');
    let mut out: Vec<String> = Vec::new();
    let mut from: usize = 0;
    proof {
        assert(p@ =~= seq!['\n']);
        assert(v@.skip(0) =~= v@);
        assert(out.deep_view() + lines(v@) =~= lines(v@));
    }
    while from < v.len()
        invariant
            from <= v@.len(),
            p@ == seq!['\n'],
            lines(v@) == out.deep_view() + lines(v@.skip(from as int)),
        decreases v@.len() - from,
    {
        proof {
            lemma_first_at_skip(v@, p@, from as int);
            lemma_first_at(v@, p@, from as int);
        }
        let ghost before = out.deep_view();
        let ghost rest = v@.skip(from as int);
        match find_chars(&v, &p, from) {
            Some(i) => {
                let ghost line = strip_return(rest.take(i - from));
                let mut end: usize = i;
                if i > from && v[i - 1] == '\r' {
                    end = i - 1;
                }
                out.push(text_between(&v, from, end));
                proof {
                    assert(rest.take(i - from) =~= v@.subrange(from as int, i as int));
                    assert(line =~= v@.subrange(from as int, end as int));
                    assert(rest.skip(i - from + 1) =~= v@.skip(i + 1));
                    assert(out.deep_view() =~= before.push(line));
                    assert(before + (seq![line] + lines(v@.skip(i + 1))) =~= out.deep_view()
                        + lines(v@.skip(i + 1)));
                }
                from = i + 1;
            },
            None => {
                out.push(text_between(&v, from, v.len()));
                proof {
                    assert(rest =~= v@.subrange(from as int, v@.len() as int));
                    assert(out.deep_view() =~= before + seq![rest]);
                    assert(v@.skip(v@.len() as int).len() == 0);
                    assert(out.deep_view() + lines(v@.skip(v@.len() as int))
                        =~= out.deep_view());
                }
                from = v.len();
            },
        }
    }
    proof {
        assert(v@.skip(from as int).len() == 0);
        assert(out.deep_view() + lines(v@.skip(from as int)) =~= out.deep_view());
    }
    out
}

/// The parts with `sep` between each two.
pub fn join_text(parts: &Vec<String>, sep: &str) -> (r: String)
    ensures
        r@ == join(parts.deep_view(), sep@),
{
    let mut out = String::new();
    let mut i: usize = 0;
    proof {
        assert(parts.deep_view().take(0) =~= Seq::<Seq<char>>::empty());
        assert(out@ =~= join(parts.deep_view().take(0), sep@));
    }
    while i < parts.len()
        invariant
            i <= parts@.len(),
            out@ == join(parts.deep_view().take(i as int), sep@),
        decreases parts@.len() - i,
    {
        let ghost all = parts.deep_view();
        proof {
            assert(all.take(i + 1).drop_last() =~= all.take(i as int));
            assert(all.take(i + 1).last() == parts@[i as int]@);
        }
        if i > 0 {
            put(&mut out, sep);
        }
        put(&mut out, parts[i].as_str());
        proof {
            if i == 0 {
                assert(all.take(1)[0] == parts@[0]@);
                assert(out@ =~= all.take(1)[0]);
            }
        }
        i = i + 1;
    }
    proof {
        assert(parts.deep_view().take(parts@.len() as int) =~= parts.deep_view());
    }
    out
}

// ---------------------------------------------------------------------------
// Laws
// ---------------------------------------------------------------------------
/// Joining texts puts them one after the other in their order, with the separator
/// between each two and nowhere else.
pub proof fn law_joining(parts: Seq<Seq<char>>, sep: Seq<char>, more: Seq<char>)
    ensures
        join(seq![], sep) == Seq::<char>::empty(),
        join(seq![more], sep) == more,
        parts.len() > 0 ==> join(parts.push(more), sep) == join(parts, sep) + sep + more,
{
    assert(parts.push(more).drop_last() =~= parts);
}

proof fn lemma_join_front(first: Seq<char>, rest: Seq<Seq<char>>, sep: Seq<char>)
    requires
        rest.len() > 0,
    ensures
        join(seq![first] + rest, sep) == first + sep + join(rest, sep),
    decreases rest.len(),
{
    let all = seq![first] + rest;
    assert(all.last() == rest.last());
    if rest.len() == 1 {
        assert(all.drop_last() =~= seq![first]);
        assert(join(seq![first], sep) == first);
        assert(join(rest, sep) == rest.last());
    } else {
        assert(all.drop_last() =~= seq![first] + rest.drop_last());
        lemma_join_front(first, rest.drop_last(), sep);
        assert(join(all, sep) =~= first + sep + join(rest, sep));
    }
}

/// Splitting a text cuts it at every separator and nowhere else: no part holds one,
/// and joined with it the parts are the text again.
pub proof fn law_splitting(s: Seq<char>, sep: char)
    ensures
        split(s, sep).len() > 0,
        join(split(s, sep), seq![sep]) == s,
        forall|i: int, k: int|
            0 <= i < split(s, sep).len() && 0 <= k < split(s, sep)[i].len() ==> #[trigger] split(
                s,
                sep,
            )[i][k] != sep,
    decreases s.len(),
{
    let p = seq![sep];
    lemma_first_at(s, p, 0);
    match first_at(s, p, 0) {
        Some(i) => {
            let head = s.take(i);
            let rest = s.skip(i + 1);
            law_splitting(rest, sep);
            lemma_join_front(head, split(rest, sep), p);
            assert(s.subrange(i, i + 1)[0] == sep);
            assert(s =~= head + p + rest);
            let all = seq![head] + split(rest, sep);
            assert forall|a: int, k: int|
                0 <= a < all.len() && 0 <= k < all[a].len() implies #[trigger] all[a][k]
                != sep by {
                if a == 0 {
                    if s[k] == sep {
                        assert(s.subrange(k, k + 1) =~= p);
                        assert(occurs_at(s, p, k));
                    }
                } else {
                    assert(all[a] == split(rest, sep)[a - 1]);
                }
            }
        },
        None => {
            assert forall|k: int| 0 <= k < s.len() implies s[k] != sep by {
                if s[k] == sep {
                    assert(s.subrange(k, k + 1) =~= p);
                    assert(occurs_at(s, p, k));
                }
            }
        },
    }
}

/// A text is read line by line: what comes before a line feed, without a carriage
/// return just before it, is a line, and so is what comes after the last one, unless
/// nothing does.
pub proof fn law_lines(line: Seq<char>, rest: Seq<char>)
    requires
        forall|k: int| 0 <= k < line.len() ==> #[trigger] line[k] != '\n',
    ensures
        lines(seq![]).len() == 0,
        line.len() > 0 ==> lines(line) == seq![line],
        line.len() == 0 || line.last() != '\r' ==> lines(line.push('\n') + rest) == seq![line]
            + lines(rest),
        lines(line.push('\r').push('\n') + rest) == seq![line] + lines(rest),
{
    let p = seq!['\n'];
    lemma_first_at(line, p, 0);
    if let Some(i) = first_at(line, p, 0) {
        assert(line.subrange(i, i + 1)[0] == '\n');
        assert(line[i] == '\n');
    }
    lemma_first_line(line, rest);
    lemma_first_line(line.push('\r'), rest);
    assert(line.push('\r').drop_last() =~= line);
}

proof fn lemma_first_line(line: Seq<char>, rest: Seq<char>)
    requires
        forall|k: int| 0 <= k < line.len() ==> #[trigger] line[k] != '\n',
    ensures
        lines(line.push('\n') + rest) == seq![strip_return(line)] + lines(rest),
{
    let p = seq!['\n'];
    let s = line.push('\n') + rest;
    let n = line.len() as int;
    lemma_first_at(s, p, 0);
    assert(s[n] == '\n');
    assert(s.subrange(n, n + 1) =~= p);
    assert(occurs_at(s, p, n));
    let i = first_at(s, p, 0).unwrap();
    if i < n {
        assert(s.subrange(i, i + 1)[0] == '\n');
        assert(s[i] == line[i]);
    }
    assert(i == n);
    assert(s.take(n) =~= line);
    assert(s.skip(n + 1) =~= rest);
}

/// The part before the first separator comes first, and the rest is split in turn; a
/// text without a separator is one part.
pub proof fn law_parts_come_in_order(first: Seq<char>, rest: Seq<char>, sep: char)
    requires
        forall|k: int| 0 <= k < first.len() ==> #[trigger] first[k] != sep,
    ensures
        split(first.push(sep) + rest, sep) == seq![first] + split(rest, sep),
        split(first, sep) == seq![first],
{
    let p = seq![sep];
    let s = first.push(sep) + rest;
    let n = first.len() as int;
    lemma_first_at(s, p, 0);
    assert(s[n] == sep);
    assert(s.subrange(n, n + 1) =~= p);
    assert(occurs_at(s, p, n));
    let i = first_at(s, p, 0).unwrap();
    if i < n {
        assert(s.subrange(i, i + 1)[0] == sep);
        assert(s[i] == first[i]);
    }
    assert(s.take(n) =~= first);
    assert(s.skip(n + 1) =~= rest);
    lemma_first_at(first, p, 0);
    if let Some(k) = first_at(first, p, 0) {
        assert(first.subrange(k, k + 1)[0] == sep);
        assert(first[k] == sep);
    }
}

/// Texts that are joined hold each of them.
pub proof fn law_joined_texts_hold_each(lines: Seq<Seq<char>>, sep: Seq<char>, i: int)
    requires
        0 <= i < lines.len(),
    ensures
        contains(join(lines, sep), lines[i]),
    decreases lines.len(),
{
    let n = lines.len() as int;
    if n == 1 {
        lemma_holds_middle(seq![], lines[0], seq![]);
    } else {
        let front = join(lines.drop_last(), sep);
        if i == n - 1 {
            lemma_holds_middle(front + sep, lines.last(), seq![]);
        } else {
            assert(lines.drop_last()[i] == lines[i]);
            law_joined_texts_hold_each(lines.drop_last(), sep, i);
            law_parts_of_parts(seq![], front, sep + lines.last(), lines[i]);
            assert(join(lines, sep) =~= front + (sep + lines.last()));
        }
    }
}

} // verus!
