//! What a round shows of its standard output.

use vstd::prelude::*;

use crate::text::bytes;
use crate::text::chars;
use crate::text::filter;
use crate::text::lines;
use crate::text::number;
use crate::text::search;

verus! {

/// Starts the line that asks for a sub-LLM completion.
pub const LLM_QUERY_MARKER: &'static str = "__REPL_LLM_QUERY__::";

/// Starts the line that carries a final answer.
pub const FINAL_MARKER: &'static str = "__REPL_FINAL__::";

/// Starts the line that reports an exception of the user code.
pub const ERROR_MARKER: &'static str = "__REPL_ERROR__::";

/// Starts the line that ends a round.
pub const DONE_MARKER: &'static str = "__REPL_DONE__";

/// Starts the line that announces a REPL that is ready.
pub const READY_MARKER: &'static str = "__REPL_READY__";

/// The bytes that a truncated output leaves for its note.
pub const NOTE_RESERVE: usize = 80;

/// `line` belongs to the protocol between the REPL and its host, not to the output of the user
/// code.
pub open spec fn is_protocol_line(line: Seq<char>) -> bool {
    ||| LLM_QUERY_MARKER@.is_prefix_of(line)
    ||| FINAL_MARKER@.is_prefix_of(line)
    ||| ERROR_MARKER@.is_prefix_of(line)
    ||| DONE_MARKER@.is_prefix_of(line)
    ||| READY_MARKER@.is_prefix_of(line)
}

/// The lines that are no protocol lines.
pub open spec fn ordinary() -> spec_fn(Seq<char>) -> bool {
    |line: Seq<char>| !is_protocol_line(line)
}

/// The lines of `raw` that are no protocol lines, in order, with a line feed between each two.
pub open spec fn cleaned(raw: Seq<char>) -> Seq<char> {
    lines::joined(lines::lines(raw).filter(ordinary()), seq!['\n'])
}

/// The note at the end of an output from which `omitted` bytes were left out.
pub open spec fn truncation_note(omitted: nat) -> Seq<char> {
    "\n\n[... REPL output truncated: "@ + number::decimal(omitted) + " bytes omitted ...]\n"@
}

/// The start of `stdout` that stays when it has to be truncated to `limit` bytes.
pub open spec fn kept_stdout(stdout: Seq<char>, limit: nat) -> Seq<char> {
    bytes::fitting_prefix(
        stdout,
        if limit >= NOTE_RESERVE {
            limit - NOTE_RESERVE
        } else {
            0
        },
    )
}

/// `stdout` itself where it has at most `limit` bytes; else its start and a note that says how
/// many bytes are left out.
pub open spec fn truncated(stdout: Seq<char>, limit: nat) -> Seq<char> {
    if bytes::byte_len(stdout) <= limit {
        stdout
    } else {
        let kept = kept_stdout(stdout, limit);
        kept + truncation_note((bytes::byte_len(stdout) - bytes::byte_len(kept)) as nat)
    }
}

fn protocol_line(line: &str) -> (b: bool)
    ensures
        b == is_protocol_line(line@),
{
    search::starts_with(line, LLM_QUERY_MARKER) || search::starts_with(line, FINAL_MARKER)
        || search::starts_with(line, ERROR_MARKER) || search::starts_with(line, DONE_MARKER)
        || search::starts_with(line, READY_MARKER)
}

/// Takes the protocol lines out of `raw`.
pub fn clean_repl_output(raw: &str) -> (s: String)
    ensures
        s@ == cleaned(raw@),
{
    let all = lines::split_lines(raw);
    let mut kept: Vec<String> = Vec::new();
    let ghost src = lines::lines(raw@);
    let mut i: usize = 0;
    reveal(Seq::filter);
    while i < all.len()
        invariant
            i <= all@.len(),
            chars::texts(all@) == src,
            chars::texts(kept@) == src.take(i as int).filter(ordinary()),
        decreases all@.len() - i,
    {
        reveal(Seq::filter);
        assert(src.take(i + 1).drop_last() =~= src.take(i as int));
        assert(src[i as int] == all@[i as int]@);
        let ghost before = chars::texts(kept@);
        if !protocol_line(all[i].as_str()) {
            kept.push(all[i].clone());
            assert(chars::texts(kept@) =~= before.push(src[i as int]));
        }
        i += 1;
    }
    assert(src.take(i as int) =~= src);
    proof {
        reveal_strlit("\n");
        assert("\n"@ =~= seq!['\n']);
    }
    lines::join(&kept, "\n")
}

/// Cuts `stdout` to `limit` bytes, with a note that says how many bytes are left out.
pub fn truncate_stdout(stdout: &str, limit: usize) -> (s: String)
    ensures
        s@ == truncated(stdout@, limit as nat),
        limit >= NOTE_RESERVE ==> bytes::byte_len(s@) <= limit,
{
    let total: usize = bytes::len_in_bytes(stdout);
    proof {
        assert(total <= u64::MAX);
        if limit >= NOTE_RESERVE {
            law_truncated_fits(stdout@, limit as nat);
        }
    }
    if total <= limit {
        return stdout.to_owned();
    }
    let take: usize = limit.saturating_sub(NOTE_RESERVE);
    let mut out = bytes::take_bytes(stdout, take);
    let kept: usize = bytes::len_in_bytes(out.as_str());
    proof {
        bytes::law_fitting_prefix_is_longest(stdout@, take as int);
        assert(out@ == kept_stdout(stdout@, limit as nat));
    }
    let ghost start = out@;
    out.append("\n\n[... REPL output truncated: ");
    number::push_decimal(&mut out, (total - kept) as u64);
    out.append(" bytes omitted ...]\n");
    assert(out@ =~= start + truncation_note((total - kept) as nat));
    out
}

/// `m` is one of the markers.
pub open spec fn is_marker(m: Seq<char>) -> bool {
    ||| m == LLM_QUERY_MARKER@
    ||| m == FINAL_MARKER@
    ||| m == ERROR_MARKER@
    ||| m == DONE_MARKER@
    ||| m == READY_MARKER@
}

/// Every marker starts with an underscore and holds no line ending.
proof fn lemma_marker(m: Seq<char>)
    requires
        is_marker(m),
    ensures
        m.len() > 0,
        m[0] == '_',
        forall|i: int| 0 <= i < m.len() ==> m[i] != '\n' && m[i] != '\r',
{
    reveal_strlit("__REPL_LLM_QUERY__::");
    reveal_strlit("__REPL_FINAL__::");
    reveal_strlit("__REPL_ERROR__::");
    reveal_strlit("__REPL_DONE__");
    reveal_strlit("__REPL_READY__");
}

/// A protocol line starts with a marker.
proof fn lemma_protocol_marker(line: Seq<char>) -> (m: Seq<char>)
    requires
        is_protocol_line(line),
    ensures
        is_marker(m),
        m.is_prefix_of(line),
{
    if LLM_QUERY_MARKER@.is_prefix_of(line) {
        LLM_QUERY_MARKER@
    } else if FINAL_MARKER@.is_prefix_of(line) {
        FINAL_MARKER@
    } else if ERROR_MARKER@.is_prefix_of(line) {
        ERROR_MARKER@
    } else if DONE_MARKER@.is_prefix_of(line) {
        DONE_MARKER@
    } else {
        READY_MARKER@
    }
}

/// A line that starts with a protocol line is a protocol line.
proof fn lemma_protocol_prefix(a: Seq<char>, b: Seq<char>)
    requires
        a.is_prefix_of(b),
        is_protocol_line(a),
    ensures
        is_protocol_line(b),
{
    let m = lemma_protocol_marker(a);
    assert(m =~= b.subrange(0, m.len() as int)) by {
        assert forall|i: int| 0 <= i < m.len() implies m[i] == b[i] by {
            assert(m[i] == a.subrange(0, m.len() as int)[i]);
            assert(a[i] == b.subrange(0, a.len() as int)[i]);
        }
    }
    assert(m.is_prefix_of(b));
}

/// No line of a cleaned output is a protocol line.
pub proof fn law_cleaned_has_no_protocol_line(raw: Seq<char>, j: int)
    requires
        0 <= j < lines::lines(cleaned(raw)).len(),
    ensures
        !is_protocol_line(lines::lines(cleaned(raw))[j]),
{
    let all = lines::lines(raw);
    let parts = all.filter(ordinary());
    assert forall|i: int| 0 <= i < parts.len() implies lines::is_one_line(#[trigger] parts[i]) by {
        let at = filter::lemma_filter_origin(all, ordinary(), i);
        lines::lemma_lines_are_lines(raw, at);
    }
    lines::lemma_lines_of_joined(parts, j);
    let line = lines::lines(cleaned(raw))[j];
    let k = choose|k: int|
        0 <= k < parts.len() && (line == #[trigger] parts[k] || line == lines::strip_cr(parts[k]));
    let at = filter::lemma_filter_origin(all, ordinary(), k);
    assert(!is_protocol_line(parts[k]));
    assert(line.is_prefix_of(parts[k]));
    if is_protocol_line(line) {
        lemma_protocol_prefix(line, parts[k]);
    }
}

/// Cleaning leaves an output without protocol lines as it is, where the output does not end with a
/// line feed and has no carriage return before a line feed.
pub proof fn law_clean_keeps_ordinary_output(raw: Seq<char>)
    requires
        forall|j: int|
            0 <= j < lines::lines(raw).len() ==> !is_protocol_line(#[trigger] lines::lines(raw)[j]),
        raw.len() > 0 ==> raw.last() != '\n',
        forall|i: int| 0 < i < raw.len() && raw[i] == '\n' ==> #[trigger] raw[i - 1] != '\r',
    ensures
        cleaned(raw) == raw,
{
    filter::lemma_filter_all(lines::lines(raw), ordinary());
    lines::law_lines_rejoin(raw);
}

/// The digits of a numeral are ASCII, and none is an underscore.
proof fn lemma_decimal_chars(n: nat)
    ensures
        forall|i: int|
            0 <= i < number::decimal(n).len() ==> {
                let c = #[trigger] number::decimal(n)[i];
                c != '_' && '\0' <= c <= '\u{7f}'
            },
    decreases n,
{
    let last = number::digit_char(n % 10);
    assert(last != '_' && '\0' <= last <= '\u{7f}');
    if n >= 10 {
        lemma_decimal_chars(n / 10);
        let head = number::decimal(n / 10);
        assert forall|i: int| 0 <= i < number::decimal(n).len() implies {
            let c = #[trigger] number::decimal(n)[i];
            c != '_' && '\0' <= c <= '\u{7f}'
        } by {
            if i < head.len() {
                assert(number::decimal(n)[i] == head[i]);
            }
        }
    }
}

/// A note starts with a line feed, is ASCII, and has no underscore.
proof fn lemma_note(omitted: nat)
    ensures
        truncation_note(omitted).len() == 50 + number::decimal(omitted).len(),
        truncation_note(omitted)[0] == '\n',
        forall|i: int|
            0 <= i < truncation_note(omitted).len() ==> {
                let c = #[trigger] truncation_note(omitted)[i];
                c != '_' && '\0' <= c <= '\u{7f}'
            },
{
    reveal_strlit("\n\n[... REPL output truncated: ");
    reveal_strlit(" bytes omitted ...]\n");
    lemma_decimal_chars(omitted);
    let note = truncation_note(omitted);
    let a = "\n\n[... REPL output truncated: "@;
    let d = number::decimal(omitted);
    assert forall|i: int| 0 <= i < note.len() implies {
        let c = #[trigger] note[i];
        c != '_' && '\0' <= c <= '\u{7f}'
    } by {
        if i >= a.len() && i < a.len() + d.len() {
            assert(note[i] == d[i - a.len()]);
        }
    }
}

/// Where a marker starts a line, that line is a protocol line.
proof fn lemma_marker_at_line_start(s: Seq<char>, m: Seq<char>, p: int)
    requires
        is_marker(m),
        lines::is_line_start(s, p),
        search::occurs_at(s, m, p),
    ensures
        is_protocol_line(lines::line_at(s, p)),
{
    lemma_marker(m);
    lines::lemma_next_break(s, p);
    let e = lines::next_break(s, p);
    let line = lines::line_at(s, p);
    assert forall|i: int| 0 <= i < m.len() implies s[p + i] == m[i] by {
        assert(s.subrange(p, p + m.len())[i] == m[i]);
    }
    if e < p + m.len() {
        assert(s[p + (e - p)] == m[e - p]);
    }
    assert(s.subrange(p, e)[m.len() - 1] == m[m.len() - 1]);
    assert(line.len() >= m.len());
    assert(m =~= line.subrange(0, m.len() as int)) by {
        assert forall|i: int| 0 <= i < m.len() implies m[i] == line[i] by {
            assert(line[i] == s[p + i]);
        }
    }
    assert(m.is_prefix_of(line));
}

/// No line of a truncated output is a protocol line, where none was before.
pub proof fn law_truncated_has_no_protocol_line(stdout: Seq<char>, limit: nat, j: int)
    requires
        forall|i: int|
            0 <= i < lines::lines(stdout).len() ==> !is_protocol_line(
                #[trigger] lines::lines(stdout)[i],
            ),
        0 <= j < lines::lines(truncated(stdout, limit)).len(),
    ensures
        !is_protocol_line(lines::lines(truncated(stdout, limit))[j]),
{
    let t = truncated(stdout, limit);
    if bytes::byte_len(stdout) > limit && is_protocol_line(lines::lines(t)[j]) {
        let kept = kept_stdout(stdout, limit);
        let omitted = (bytes::byte_len(stdout) - bytes::byte_len(kept)) as nat;
        let note = truncation_note(omitted);
        bytes::law_fitting_prefix_is_longest(
            stdout,
            if limit >= NOTE_RESERVE {
                limit - NOTE_RESERVE
            } else {
                0
            },
        );
        lemma_note(omitted);
        assert(t == kept + note);
        let n = kept.len() as int;
        assert(t[n] == note[0]);
        let p = lines::lemma_line_position(t, 0, j);
        let line = lines::line_at(t, p);
        let m = lemma_protocol_marker(line);
        lemma_marker(m);
        lines::lemma_next_break(t, p);
        assert forall|i: int| 0 <= i < m.len() implies t[p + i] == m[i] by {
            assert(m[i] == line.subrange(0, m.len() as int)[i]);
            assert(line[i] == t[p + i]);
        }
        if p >= n {
            assert(t[p + 0] == m[0]);
            assert(t[p] == note[p - n]);
        } else if p + m.len() > n {
            assert(t[p + (n - p)] == m[n - p]);
        } else {
            assert forall|i: int| 0 <= i < n implies t[i] == stdout[i] by {
                assert(kept[i] == stdout.subrange(0, n)[i]);
            }
            assert(stdout.subrange(p, p + m.len()) =~= m) by {
                assert forall|i: int| 0 <= i < m.len() implies stdout[p + i] == m[i] by {
                    assert(t[p + i] == m[i]);
                }
            }
            lemma_marker_at_line_start(stdout, m, p);
            let k = lines::lemma_line_start_in_lines(stdout, 0, p);
            assert(!is_protocol_line(lines::lines(stdout)[k]));
        }
    }
}

/// A truncated output fits its limit, where that leaves room for the note.
pub proof fn law_truncated_fits(stdout: Seq<char>, limit: nat)
    requires
        limit >= NOTE_RESERVE,
        bytes::byte_len(stdout) <= u64::MAX,
    ensures
        bytes::byte_len(truncated(stdout, limit)) <= limit,
{
    if bytes::byte_len(stdout) > limit {
        let kept = kept_stdout(stdout, limit);
        let omitted = (bytes::byte_len(stdout) - bytes::byte_len(kept)) as nat;
        let note = truncation_note(omitted);
        bytes::law_fitting_prefix_is_longest(stdout, limit - NOTE_RESERVE);
        lemma_note(omitted);
        assert(vstd::arithmetic::power::pow(10, 20) > u64::MAX) by {
            reveal(vstd::arithmetic::power::pow);
            reveal_with_fuel(vstd::arithmetic::power::pow, 21);
        }
        number::lemma_decimal_len(omitted, 20);
        assert(vstd::utf8::is_ascii_chars(note));
        vstd::utf8::is_ascii_chars_encode_utf8(note);
        bytes::lemma_byte_len_add(kept, note);
    }
}

/// The protocol lines are those that start with one of five markers, whatever follows it.
pub proof fn law_protocol_lines(line: Seq<char>, rest: Seq<char>)
    ensures
        is_protocol_line("__REPL_LLM_QUERY__::"@ + rest),
        is_protocol_line("__REPL_FINAL__::"@ + rest),
        is_protocol_line("__REPL_ERROR__::"@ + rest),
        is_protocol_line("__REPL_DONE__"@ + rest),
        is_protocol_line("__REPL_READY__"@ + rest),
        is_protocol_line(line) ==> {
            ||| "__REPL_LLM_QUERY__::"@.is_prefix_of(line)
            ||| "__REPL_FINAL__::"@.is_prefix_of(line)
            ||| "__REPL_ERROR__::"@.is_prefix_of(line)
            ||| "__REPL_DONE__"@.is_prefix_of(line)
            ||| "__REPL_READY__"@.is_prefix_of(line)
        },
{
    lemma_prefix_of_sum("__REPL_LLM_QUERY__::"@, rest);
    lemma_prefix_of_sum("__REPL_FINAL__::"@, rest);
    lemma_prefix_of_sum("__REPL_ERROR__::"@, rest);
    lemma_prefix_of_sum("__REPL_DONE__"@, rest);
    lemma_prefix_of_sum("__REPL_READY__"@, rest);
}

proof fn lemma_prefix_of_sum(a: Seq<char>, b: Seq<char>)
    ensures
        a.is_prefix_of(a + b),
{
    assert(a =~= (a + b).subrange(0, a.len() as int));
}

/// Cleaning shows exactly the lines that are no protocol lines, in their order, each as often as
/// it stands in the output, with a line feed between each two: `shown` lists their indices.
pub proof fn law_clean_shows_the_ordinary_lines(raw: &str, s: String) -> (shown: Seq<int>)
    requires
        call_ensures(clean_repl_output, (raw,), s),
    ensures
        forall|j: int, k: int| 0 <= j < k < shown.len() ==> #[trigger] shown[j] < #[trigger] shown[k],
        forall|i: int|
            #[trigger] shown.contains(i) <==> 0 <= i < lines::lines(raw@).len()
                && !is_protocol_line(lines::lines(raw@)[i]),
        s@ == lines::joined(
            Seq::new(shown.len(), |j: int| lines::lines(raw@)[shown[j]]),
            seq!['\n'],
        ),
{
    let all = lines::lines(raw@);
    let shown = filter::lemma_filter_selection(all, ordinary());
    assert forall|i: int|
        #[trigger] shown.contains(i) <==> 0 <= i < all.len() && !is_protocol_line(all[i]) by {
        if 0 <= i < all.len() && !is_protocol_line(all[i]) {
            assert(ordinary()(all[i]));
        }
    }
    shown
}

/// Output is cleaned line by line: a protocol line before other output makes no difference; any
/// other line stands before the cleaned rest, and a line feed between them unless the rest shows
/// no line. How the line ends, with a line feed alone or with a carriage return before it, makes
/// no difference.
pub proof fn law_clean_line_by_line(
    line: Seq<char>,
    all: &str,
    rest: &str,
    cleaned_all: String,
    cleaned_rest: String,
)
    requires
        !line.contains('\n'),
        line.len() > 0 ==> line.last() != '\r',
        all@ == line + seq!['\n'] + rest@ || all@ == line + seq!['\r', '\n'] + rest@,
        call_ensures(clean_repl_output, (all,), cleaned_all),
        call_ensures(clean_repl_output, (rest,), cleaned_rest),
    ensures
        cleaned_all@ == if is_protocol_line(line) {
            cleaned_rest@
        } else if forall|j: int|
            0 <= j < lines::lines(rest@).len() ==> is_protocol_line(
                #[trigger] lines::lines(rest@)[j],
            ) {
            line
        } else {
            line + seq!['\n'] + cleaned_rest@
        },
{
    let tail = lines::lines(rest@);
    let f = tail.filter(ordinary());
    if all@ == line + seq!['\n'] + rest@ {
        lines::law_first_line(line, rest@);
    } else {
        let a = line + seq!['\r'];
        assert(all@ =~= a + seq!['\n'] + rest@);
        assert(!a.contains('\n')) by {
            if a.contains('\n') {
                let i = choose|i: int| 0 <= i < a.len() && a[i] == '\n';
                assert(line[i] == '\n');
            }
        }
        lines::law_first_line(a, rest@);
        assert(a.take(a.len() - 1) =~= line);
    }
    assert(lines::lines(all@) == seq![line] + tail);
    Seq::filter_distributes_over_add(seq![line], tail, ordinary());
    assert(seq![line].filter(ordinary()) =~= if is_protocol_line(line) {
        seq![]
    } else {
        seq![line]
    }) by {
        reveal_with_fuel(Seq::filter, 2);
        assert(seq![line].drop_last() =~= seq![]);
        assert(seq![line].last() == line);
    }
    if is_protocol_line(line) {
        assert(lines::lines(all@).filter(ordinary()) =~= f);
    } else if f.len() == 0 {
        assert forall|j: int| 0 <= j < tail.len() implies is_protocol_line(#[trigger] tail[j]) by {
            if !is_protocol_line(tail[j]) {
                tail.lemma_filter_contains(ordinary(), j);
                assert(f.contains(tail[j]));
            }
        }
        assert(lines::lines(all@).filter(ordinary()) =~= seq![line]);
    } else {
        let at = filter::lemma_filter_origin(tail, ordinary(), 0);
        assert(!is_protocol_line(tail[at]));
        lines::law_joined_groups(seq![line], f, seq!['\n']);
    }
}

/// Output without protocol lines and carriage returns is shown as it is, and a line feed at its
/// end, which a print leaves there, is the only thing that goes.
pub proof fn law_clean_keeps_printed_lines(
    raw: &str,
    printed: &str,
    cleaned_raw: String,
    cleaned_printed: String,
)
    requires
        !raw@.contains('\r'),
        raw@.len() > 0,
        raw@.last() != '\n',
        forall|j: int|
            0 <= j < lines::lines(raw@).len() ==> !is_protocol_line(
                #[trigger] lines::lines(raw@)[j],
            ),
        printed@ == raw@ + seq!['\n'],
        call_ensures(clean_repl_output, (raw,), cleaned_raw),
        call_ensures(clean_repl_output, (printed,), cleaned_printed),
    ensures
        cleaned_raw@ == raw@,
        cleaned_printed@ == raw@,
{
    assert forall|i: int| 0 <= i < raw@.len() implies raw@[i] != '\r' by {
        assert(raw@.contains(raw@[i]));
    }
    law_clean_keeps_ordinary_output(raw@);
    lines::law_final_line_feed(raw@);
}

/// Output within the limit is left as it is. Else the result is the longest start of the output
/// that leaves eighty bytes of the limit, and a note of the bytes that are left out: `kept` is
/// that start.
pub proof fn law_truncate_keeps_what_fits(stdout: &str, limit: usize, s: String) -> (kept: Seq<
    char,
>)
    requires
        call_ensures(truncate_stdout, (stdout, limit), s),
    ensures
        vstd::utf8::encode_utf8(stdout@).len() <= limit ==> kept == stdout@ && s@ == stdout@,
        vstd::utf8::encode_utf8(stdout@).len() > limit ==> {
            let budget: int = if limit >= 80 {
                limit - 80
            } else {
                0
            };
            &&& kept == stdout@.take(kept.len() as int)
            &&& kept.len() <= stdout@.len()
            &&& vstd::utf8::encode_utf8(kept).len() <= budget
            &&& forall|n: int|
                kept.len() < n <= stdout@.len() ==> vstd::utf8::encode_utf8(
                    #[trigger] stdout@.take(n),
                ).len() > budget
            &&& s@ == kept + "\n\n[... REPL output truncated: "@ + number::decimal(
                (vstd::utf8::encode_utf8(stdout@).len() - vstd::utf8::encode_utf8(
                    kept,
                ).len()) as nat,
            ) + " bytes omitted ...]\n"@
        },
{
    if bytes::byte_len(stdout@) <= limit {
        stdout@
    } else {
        let budget: int = if limit >= 80 {
            limit - 80
        } else {
            0
        };
        bytes::law_fitting_prefix_is_longest(stdout@, budget);
        let kept = bytes::fitting_prefix(stdout@, budget);
        assert forall|n: int| kept.len() < n <= stdout@.len() implies vstd::utf8::encode_utf8(
            #[trigger] stdout@.take(n),
        ).len() > budget by {
            assert(bytes::byte_len(stdout@.take(n)) > budget);
        }
        assert(kept_stdout(stdout@, limit as nat) == kept);
        let omitted = (bytes::byte_len(stdout@) - bytes::byte_len(kept)) as nat;
        assert(s@ =~= kept + "\n\n[... REPL output truncated: "@ + number::decimal(omitted)
            + " bytes omitted ...]\n"@);
        kept
    }
}

} // verus!
