//! Splitting text into lines and joining lines into text.

use vstd::prelude::*;

use crate::text::chars;

verus! {

/// The index of the first line feed of `s` at or after `from`; the length of `s` where there is
/// none.
pub open spec fn next_break(s: Seq<char>, from: int) -> int
    decreases s.len() - from,
{
    if from >= s.len() {
        s.len() as int
    } else if s[from] == '\n' {
        from
    } else {
        next_break(s, from + 1)
    }
}

/// `s` without its last character, where that is a carriage return.
pub open spec fn strip_cr(s: Seq<char>) -> Seq<char> {
    if s.len() > 0 && s.last() == '\r' {
        s.drop_last()
    } else {
        s
    }
}

/// The line of `s` that starts at `from`, without its line ending.
pub open spec fn line_at(s: Seq<char>, from: int) -> Seq<char> {
    let end = next_break(s, from);
    if end < s.len() {
        strip_cr(s.subrange(from, end))
    } else {
        s.subrange(from, end)
    }
}

/// The lines of `s` from the index `from` on.
pub open spec fn lines_from(s: Seq<char>, from: int) -> Seq<Seq<char>>
    decreases s.len() + 1 - from,
{
    if from < 0 || from >= s.len() {
        seq![]
    } else {
        proof {
            lemma_next_break(s, from);
        }
        seq![line_at(s, from)] + lines_from(s, next_break(s, from) + 1)
    }
}

/// The lines of `s`. A line ends with a line feed, or with a carriage return and a line feed; the
/// last line may end with the text. Line endings are no part of the lines.
pub open spec fn lines(s: Seq<char>) -> Seq<Seq<char>> {
    lines_from(s, 0)
}

/// The concatenation of `parts`, with `sep` between each two neighbours.
pub open spec fn joined(parts: Seq<Seq<char>>, sep: Seq<char>) -> Seq<char>
    decreases parts.len(),
{
    if parts.len() == 0 {
        seq![]
    } else if parts.len() == 1 {
        parts[0]
    } else {
        parts[0] + sep + joined(parts.drop_first(), sep)
    }
}

/// A line starts at the index `p` of `s`.
pub open spec fn is_line_start(s: Seq<char>, p: int) -> bool {
    0 <= p <= s.len() && (p == 0 || s[p - 1] == '\n')
}

/// `s` has no line feed.
pub open spec fn is_one_line(s: Seq<char>) -> bool {
    forall|i: int| 0 <= i < s.len() ==> s[i] != '\n'
}

pub proof fn lemma_next_break(s: Seq<char>, from: int)
    requires
        0 <= from <= s.len(),
    ensures
        from <= next_break(s, from) <= s.len(),
        next_break(s, from) < s.len() ==> s[next_break(s, from)] == '\n',
        forall|i: int| from <= i < next_break(s, from) ==> s[i] != '\n',
    decreases s.len() - from,
{
    if from < s.len() && s[from] != '\n' {
        lemma_next_break(s, from + 1);
    }
}

/// `e` is the next break, where nothing before it is a line feed and it is one or the end.
proof fn lemma_next_break_unique(s: Seq<char>, from: int, e: int)
    requires
        0 <= from <= e <= s.len(),
        e < s.len() ==> s[e] == '\n',
        forall|i: int| from <= i < e ==> s[i] != '\n',
    ensures
        next_break(s, from) == e,
    decreases e - from,
{
    if from < e {
        lemma_next_break_unique(s, from + 1, e);
    }
}

/// The lines of `s`, each as its own string.
pub fn split_lines(s: &str) -> (v: Vec<String>)
    ensures
        chars::texts(v@) == lines(s@),
{
    let cs = chars::chars_of(s);
    let mut v: Vec<String> = Vec::new();
    let mut from: usize = 0;
    while from < cs.len()
        invariant
            from <= cs@.len(),
            chars::texts(v@) + lines_from(cs@, from as int) == lines(cs@),
        decreases cs@.len() - from,
    {
        let ghost done = chars::texts(v@);
        let mut end: usize = from;
        while end < cs.len() && cs[end] != '\n'
            invariant
                from <= end <= cs@.len(),
                forall|i: int| from <= i < end ==> cs@[i] != '\n',
            decreases cs@.len() - end,
        {
            end += 1;
        }
        proof {
            lemma_next_break_unique(cs@, from as int, end as int);
        }
        let stop: usize = if end < cs.len() && from < end && cs[end - 1] == '\r' {
            end - 1
        } else {
            end
        };
        let line = chars::text_of(&cs, from, stop);
        proof {
            assert(line@ =~= line_at(cs@, from as int));
            assert(lines_from(cs@, from as int) == seq![line@] + lines_from(
                cs@,
                end + 1,
            ));
        }
        v.push(line);
        assert(chars::texts(v@) =~= done + seq![line@]);
        assert(done + (seq![line@] + lines_from(cs@, end + 1)) =~= chars::texts(v@)
            + lines_from(cs@, end + 1));
        if end < cs.len() {
            from = end + 1;
        } else {
            assert(lines_from(cs@, end + 1) =~= seq![]);
            assert(lines_from(cs@, end as int) =~= seq![]);
            from = end;
        }
    }
    assert(lines_from(cs@, from as int) =~= seq![]);
    assert(chars::texts(v@) =~= lines(s@));
    v
}

proof fn lemma_joined_push(parts: Seq<Seq<char>>, part: Seq<char>, sep: Seq<char>)
    ensures
        joined(parts.push(part), sep) == if parts.len() == 0 {
            part
        } else {
            joined(parts, sep) + sep + part
        },
    decreases parts.len(),
{
    let more = parts.push(part);
    if parts.len() > 0 {
        assert(more.drop_first() =~= parts.drop_first().push(part));
        lemma_joined_push(parts.drop_first(), part, sep);
        if parts.len() == 1 {
            assert(more.drop_first() =~= seq![part]);
            assert(joined(more, sep) =~= joined(parts, sep) + sep + part);
        } else {
            assert(joined(more, sep) =~= joined(parts, sep) + sep + part);
        }
    }
}

/// `parts` in one string, with `sep` between each two neighbours.
pub fn join(parts: &Vec<String>, sep: &str) -> (s: String)
    ensures
        s@ == joined(chars::texts(parts@), sep@),
{
    let mut s = String::new();
    let ghost all = chars::texts(parts@);
    let mut i: usize = 0;
    while i < parts.len()
        invariant
            all == chars::texts(parts@),
            i <= parts@.len(),
            s@ == joined(all.take(i as int), sep@),
        decreases parts@.len() - i,
    {
        proof {
            lemma_joined_push(all.take(i as int), all[i as int], sep@);
            assert(all.take(i as int).push(all[i as int]) =~= all.take(i + 1));
        }
        if i > 0 {
            s.append(sep);
        }
        s.append(parts[i].as_str());
        i += 1;
        assert(s@ =~= joined(all.take(i as int), sep@));
    }
    assert(all.take(i as int) =~= all);
    s
}

/// Where a line starts in joined lines, what follows is some of the last of them, joined.
proof fn lemma_joined_line_start(parts: Seq<Seq<char>>, p: int) -> (k: int)
    requires
        forall|i: int| 0 <= i < parts.len() ==> is_one_line(#[trigger] parts[i]),
        is_line_start(joined(parts, seq!['\n']), p),
    ensures
        0 <= k <= parts.len(),
        joined(parts, seq!['\n']).skip(p) == joined(parts.skip(k), seq!['\n']),
    decreases parts.len(),
{
    let sep = seq!['\n'];
    let s = joined(parts, sep);
    if p == 0 {
        assert(s.skip(0) =~= s);
        assert(parts.skip(0) =~= parts);
        0
    } else {
        let first = parts[0];
        assert(is_one_line(first));
        if parts.len() == 1 {
            assert(s[p - 1] == first[p - 1]);
            0
        } else {
            let rest = parts.drop_first();
            let t = joined(rest, sep);
            assert(s == first + sep + t);
            let n = first.len() as int;
            if p <= n {
                assert(s[p - 1] == first[p - 1]);
                0
            } else {
                assert forall|i: int| 0 <= i < rest.len() implies is_one_line(
                    #[trigger] rest[i],
                ) by {
                    assert(rest[i] == parts[i + 1]);
                }
                if p > n + 1 {
                    assert(s[p - 1] == t[p - 1 - n - 1]);
                }
                let k = lemma_joined_line_start(rest, p - n - 1);
                assert(s.skip(p) =~= t.skip(p - n - 1));
                assert(rest.skip(k) =~= parts.skip(k + 1));
                k + 1
            }
        }
    }
}

/// Every line of joined lines is one of them, or one of them without a carriage return at its end.
pub proof fn lemma_lines_of_joined(parts: Seq<Seq<char>>, j: int)
    requires
        forall|i: int| 0 <= i < parts.len() ==> is_one_line(#[trigger] parts[i]),
        0 <= j < lines(joined(parts, seq!['\n'])).len(),
    ensures
        exists|k: int|
            0 <= k < parts.len() && {
                let line = lines(joined(parts, seq!['\n']))[j];
                line == #[trigger] parts[k] || line == strip_cr(parts[k])
            },
{
    let sep = seq!['\n'];
    let s = joined(parts, sep);
    let from = lemma_line_position(s, 0, j);
    let k = lemma_joined_line_start(parts, from);
    let tail = parts.skip(k);
    assert(s.skip(from).len() > 0);
    assert(tail.len() > 0);
    assert(tail[0] == parts[k]);
    assert(is_one_line(parts[k]));
    let end = from + parts[k].len();
    let line = line_at(s, from);
    assert(joined(tail, sep) == s.skip(from));
    if tail.len() == 1 {
        assert(s.skip(from) == parts[k]);
        assert(end == s.len());
    } else {
        assert(s.skip(from) == parts[k] + sep + joined(tail.drop_first(), sep));
        assert(s[end] == s.skip(from)[end - from]);
    }
    assert forall|i: int| from <= i < end implies s[i] != '\n' by {
        assert(s[i] == s.skip(from)[i - from]);
        assert(s[i] == parts[k][i - from]);
    }
    lemma_next_break_unique(s, from, end);
    assert(s.subrange(from, end) =~= parts[k]) by {
        assert forall|i: int| 0 <= i < parts[k].len() implies s.subrange(from, end)[i]
            == parts[k][i] by {
            assert(s[from + i] == s.skip(from)[i]);
        }
    }
}

/// The `j`th line from `from` on is the line at some line start of `s`.
pub proof fn lemma_line_position(s: Seq<char>, from: int, j: int) -> (p: int)
    requires
        is_line_start(s, from),
        0 <= j < lines_from(s, from).len(),
    ensures
        from <= p < s.len(),
        is_line_start(s, p),
        lines_from(s, from)[j] == line_at(s, p),
    decreases j,
{
    lemma_next_break(s, from);
    if j == 0 {
        from
    } else {
        let next = next_break(s, from) + 1;
        assert(lines_from(s, from)[j] == lines_from(s, next)[j - 1]);
        assert(next <= s.len());
        lemma_line_position(s, next, j - 1)
    }
}

/// No line holds a line feed.
pub proof fn lemma_lines_are_lines(s: Seq<char>, j: int)
    requires
        0 <= j < lines(s).len(),
    ensures
        is_one_line(lines(s)[j]),
{
    let p = lemma_line_position(s, 0, j);
    lemma_next_break(s, p);
    let line = line_at(s, p);
    assert forall|i: int| 0 <= i < line.len() implies line[i] != '\n' by {
        assert(line[i] == s[p + i]);
    }
}

proof fn lemma_rejoin_from(s: Seq<char>, from: int)
    requires
        0 <= from < s.len(),
        s.last() != '\n',
        forall|i: int| 0 < i < s.len() && s[i] == '\n' ==> #[trigger] s[i - 1] != '\r',
    ensures
        joined(lines_from(s, from), seq!['\n']) == s.skip(from),
    decreases s.len() - from,
{
    let sep = seq!['\n'];
    lemma_next_break(s, from);
    let end = next_break(s, from);
    if end < s.len() {
        assert(end + 1 < s.len());
        lemma_rejoin_from(s, end + 1);
        let rest = lines_from(s, end + 1);
        assert(rest.len() > 0);
        let all = lines_from(s, from);
        assert(all.drop_first() =~= rest);
        if from < end {
            assert(s[end - 1] != '\r');
        }
        assert(line_at(s, from) =~= s.subrange(from, end));
        assert(joined(all, sep) =~= s.subrange(from, end) + sep + s.skip(end + 1));
        assert(joined(all, sep) =~= s.skip(from));
    } else {
        assert(lines_from(s, end + 1) =~= seq![]);
        assert(lines_from(s, from) =~= seq![s.subrange(from, end)]);
        assert(s.subrange(from, end) =~= s.skip(from));
    }
}

/// Splitting text into lines and joining them with line feeds gives the text back, where it does
/// not end with a line feed and has no carriage return before a line feed.
pub proof fn law_lines_rejoin(s: Seq<char>)
    requires
        s.len() > 0 ==> s.last() != '\n',
        forall|i: int| 0 < i < s.len() && s[i] == '\n' ==> #[trigger] s[i - 1] != '\r',
    ensures
        joined(lines(s), seq!['\n']) == s,
{
    if s.len() > 0 {
        lemma_rejoin_from(s, 0);
        assert(s.skip(0) =~= s);
    } else {
        assert(s =~= seq![]);
    }
}

/// The line at every line start is one of the lines.
pub proof fn lemma_line_start_in_lines(s: Seq<char>, from: int, p: int) -> (j: int)
    requires
        is_line_start(s, from),
        is_line_start(s, p),
        from <= p < s.len(),
    ensures
        0 <= j < lines_from(s, from).len(),
        lines_from(s, from)[j] == line_at(s, p),
    decreases p - from,
{
    if from == p {
        0
    } else {
        lemma_next_break(s, from);
        let next = next_break(s, from) + 1;
        assert(next <= p);
        let j = lemma_line_start_in_lines(s, next, p);
        assert(lines_from(s, from)[j + 1] == lines_from(s, next)[j]);
        j + 1
    }
}

/// Lines do not depend on what stands before the line start.
proof fn lemma_lines_shift(a: Seq<char>, b: Seq<char>, k: int)
    requires
        0 <= k,
    ensures
        lines_from(a + b, a.len() + k) == lines_from(b, k),
    decreases b.len() + 1 - k,
{
    let s = a + b;
    let n = a.len() as int;
    if k < b.len() {
        lemma_next_break(b, k);
        let e = next_break(b, k);
        assert forall|i: int| n + k <= i < n + e implies s[i] != '\n' by {
            assert(s[i] == b[i - n]);
        }
        lemma_next_break_unique(s, n + k, n + e);
        assert(s.subrange(n + k, n + e) =~= b.subrange(k, e));
        assert(line_at(s, n + k) == line_at(b, k));
        lemma_lines_shift(a, b, e + 1);
        assert(n + e + 1 == n + (e + 1));
    } else {
        assert(lines_from(s, n + k) =~= seq![]);
        assert(lines_from(b, k) =~= seq![]);
    }
}

/// Joining lines with line feeds and splitting the text gives the lines back, where the last one
/// is not empty and none ends with a carriage return.
pub proof fn law_joined_lines_split(parts: Seq<Seq<char>>)
    requires
        parts.len() > 0 ==> parts.last().len() > 0,
        forall|i: int|
            0 <= i < parts.len() ==> {
                &&& is_one_line(#[trigger] parts[i])
                &&& strip_cr(parts[i]) == parts[i]
            },
    ensures
        lines(joined(parts, seq!['\n'])) == parts,
    decreases parts.len(),
{
    let sep = seq!['\n'];
    let s = joined(parts, sep);
    if parts.len() == 0 {
        assert(lines(s) =~= parts);
    } else {
        let first = parts[0];
        let n = first.len() as int;
        assert(is_one_line(first));
        if parts.len() == 1 {
            assert(s == first);
            lemma_next_break_unique(s, 0, n);
            assert(s.subrange(0, n) =~= first);
            assert(lines_from(s, n + 1) =~= seq![]);
            assert(lines(s) =~= parts);
        } else {
            let rest = parts.drop_first();
            let t = joined(rest, sep);
            assert forall|i: int| 0 <= i < rest.len() implies is_one_line(#[trigger] rest[i])
                && strip_cr(rest[i]) == rest[i] by {
                assert(rest[i] == parts[i + 1]);
            }
            law_joined_lines_split(rest);
            assert(s == (first + sep) + t);
            assert forall|i: int| 0 <= i < n implies s[i] != '\n' by {
                assert(s[i] == first[i]);
            }
            assert(s[n] == '\n');
            lemma_next_break_unique(s, 0, n);
            assert(s.subrange(0, n) =~= first);
            assert((first + sep).len() == n + 1);
            lemma_lines_shift(first + sep, t, 0);
            assert(lines(s) == seq![first] + lines_from(s, n + 1));
            assert(lines(s) =~= parts);
        }
    }
}

/// Text without a line feed is one line, as it stands; no text has no line.
pub proof fn law_last_line(s: Seq<char>)
    requires
        !s.contains('\n'),
    ensures
        lines(s) == if s.len() == 0 {
            Seq::<Seq<char>>::empty()
        } else {
            seq![s]
        },
{
    assert forall|i: int| 0 <= i < s.len() implies s[i] != '\n' by {
        assert(s.contains(s[i]));
    }
    lemma_next_break_unique(s, 0, s.len() as int);
    assert(s.subrange(0, s.len() as int) =~= s);
    if s.len() > 0 {
        assert(lines_from(s, s.len() as int + 1) =~= seq![]);
        assert(lines(s) =~= seq![s]);
    }
}

/// A line ends with the first line feed, less a carriage return before that. The lines of what
/// follows come after it.
pub proof fn law_first_line(a: Seq<char>, rest: Seq<char>)
    requires
        !a.contains('\n'),
    ensures
        lines(a + seq!['\n'] + rest) == seq![
            if a.len() > 0 && a.last() == '\r' {
                a.take(a.len() - 1)
            } else {
                a
            },
        ] + lines(rest),
{
    let sep = seq!['\n'];
    let s = a + sep + rest;
    let n = a.len() as int;
    assert forall|i: int| 0 <= i < n implies s[i] != '\n' by {
        assert(s[i] == a[i]);
        assert(a.contains(a[i]));
    }
    assert(s[n] == '\n');
    lemma_next_break_unique(s, 0, n);
    assert(s.subrange(0, n) =~= a);
    if n > 0 && a.last() == '\r' {
        assert(a.drop_last() =~= a.take(n - 1));
    }
    assert((a + sep).len() == n + 1);
    lemma_lines_shift(a + sep, rest, 0);
}

/// Joining is concatenation with the separator in between, however the parts are grouped.
pub proof fn law_joined_groups(a: Seq<Seq<char>>, b: Seq<Seq<char>>, sep: Seq<char>)
    ensures
        joined(Seq::empty(), sep) == Seq::<char>::empty(),
        a.len() == 1 ==> joined(a, sep) == a[0],
        a.len() > 0 && b.len() > 0 ==> joined(a + b, sep) == joined(a, sep) + sep + joined(b, sep),
    decreases a.len(),
{
    if a.len() > 0 && b.len() > 0 {
        let all = a + b;
        assert(all.drop_first() =~= a.drop_first() + b);
        if a.len() == 1 {
            assert(a.drop_first() + b =~= b);
        } else {
            law_joined_groups(a.drop_first(), b, sep);
        }
        assert(joined(all, sep) =~= joined(a, sep) + sep + joined(b, sep));
    }
}

proof fn lemma_final_line_feed(s: Seq<char>, from: int)
    requires
        0 <= from < s.len(),
        s.last() != '\n',
        s.last() != '\r',
    ensures
        lines_from(s + seq!['\n'], from) == lines_from(s, from),
    decreases s.len() - from,
{
    let t = s + seq!['\n'];
    lemma_next_break(s, from);
    let e = next_break(s, from);
    assert forall|i: int| from <= i < e implies t[i] != '\n' by {
        assert(t[i] == s[i]);
    }
    lemma_next_break_unique(t, from, e);
    assert(t.subrange(from, e) =~= s.subrange(from, e));
    if e < s.len() {
        lemma_final_line_feed(s, e + 1);
    } else {
        assert(s.subrange(from, e).last() == s.last());
        assert(lines_from(t, e + 1) =~= seq![]);
        assert(lines_from(s, e + 1) =~= seq![]);
    }
}

/// A line feed at the end of the last line makes no difference to the lines.
pub proof fn law_final_line_feed(s: Seq<char>)
    requires
        s.len() > 0,
        s.last() != '\n',
        s.last() != '\r',
    ensures
        lines(s + seq!['\n']) == lines(s),
{
    lemma_final_line_feed(s, 0);
}

} // verus!
