//! The Python script that a round runs.

use vstd::prelude::*;

use crate::text::chars;
use crate::text::lines;
use crate::text::number;

verus! {

/// The start of every script. It loads the persistent variables from the file that
/// `REPL_STATE_FILE` names, and defines `llm_query()`, `sub_rlm()`, `FINAL()`, `FINAL_VAR()`,
/// `repl_get()`, `repl_set()` and `_save_state()`.
///
/// `llm_query()` and `sub_rlm()` post to the sidecar, at the URLs in `REPL_LLM_URL` and
/// `REPL_RLM_URL`. Without a sidecar they return a text that says that they are unavailable.
pub const PYTHON_BOOTSTRAP: &'static str = r#"
import sys, json, os, urllib.request, urllib.error

# --- Persistent variable store ---
_repl_vars = {}
_STATE_FILE = os.environ.get('REPL_STATE_FILE', '')
if _STATE_FILE and os.path.exists(_STATE_FILE):
    try:
        with open(_STATE_FILE, 'r') as f:
            _repl_vars = json.load(f)
    except:
        pass

# --- HTTP sidecar URLs (set by the RLM driver) ---
_LLM_URL = os.environ.get('REPL_LLM_URL', '')
_RLM_URL = os.environ.get('REPL_RLM_URL', '')

def _post_json(url, body, timeout):
    data = json.dumps(body).encode('utf-8')
    req = urllib.request.Request(
        url, data=data,
        headers={'Content-Type': 'application/json'},
        method='POST',
    )
    with urllib.request.urlopen(req, timeout=timeout) as resp:
        return json.loads(resp.read().decode('utf-8'))

def llm_query(prompt, model=None, max_tokens=None, system=None):
    """One-shot sub-LLM call. Returns the completion text as a string.

    Routed through the local Rust sidecar; uses the configured child_model
    by default, or whatever `model` you pass.
    """
    if not _LLM_URL:
        return '[llm_query unavailable: no sidecar URL — RLM not active]'
    body = {'prompt': str(prompt), 'model': model,
            'max_tokens': max_tokens, 'system': system}
    try:
        data = _post_json(_LLM_URL, body, timeout=180)
    except urllib.error.URLError as e:
        return f'[llm_query transport error: {e}]'
    except Exception as e:
        return f'[llm_query error: {e}]'
    if data.get('error'):
        return f'[llm_query: {data["error"]}]'
    return data.get('text', '')

def sub_rlm(prompt):
    """Recursive sub-RLM call (paper's `sub_RLM`). Runs a full RLM turn on
    `prompt` at depth-1 and returns its final answer string. Bounded by the
    parent turn's recursion budget.
    """
    if not _RLM_URL:
        return '[sub_rlm unavailable: no sidecar URL — RLM not active]'
    try:
        data = _post_json(_RLM_URL, {'prompt': str(prompt)}, timeout=600)
    except urllib.error.URLError as e:
        return f'[sub_rlm transport error: {e}]'
    except Exception as e:
        return f'[sub_rlm error: {e}]'
    if data.get('error'):
        return f'[sub_rlm: {data["error"]}]'
    return data.get('text', '')

# --- FINAL / FINAL_VAR ---
def FINAL(value):
    """Signal the REPL to stop with this final answer."""
    print(f'__REPL_FINAL__::{json.dumps(str(value))}', flush=True)

def FINAL_VAR(name):
    """Signal the REPL to stop, returning the named variable."""
    val = _repl_vars.get(str(name), f'<variable {name!r} not found>')
    print(f'__REPL_FINAL__::{json.dumps(str(val))}', flush=True)

# --- State helpers ---
def repl_get(name, default=None):
    return _repl_vars.get(str(name), default)

def repl_set(name, value):
    _repl_vars[str(name)] = value

# --- Save state after execution ---
def _save_state():
    if _STATE_FILE:
        try:
            with open(_STATE_FILE, 'w') as f:
                json.dump(_repl_vars, f)
        except:
            pass
"#;

/// The end of every script: it saves the persistent variables after code that raised no exception.
pub const PYTHON_SUFFIX: &'static str = r#"
# --- Save state after execution ---
_save_state()
"#;

/// The spaces by which a script indents the user code.
pub const USER_CODE_INDENT: usize = 4;

/// `n` spaces.
pub open spec fn spaces(n: nat) -> Seq<char> {
    Seq::new(n, |i: int| ' ')
}

/// `line` behind `n` spaces; an empty line stays empty.
pub open spec fn indented_line(line: Seq<char>, n: nat) -> Seq<char> {
    if line.len() == 0 {
        line
    } else {
        spaces(n) + line
    }
}

/// Indents a line by `n` spaces.
pub open spec fn indenting(n: nat) -> spec_fn(Seq<char>) -> Seq<char> {
    |line: Seq<char>| indented_line(line, n)
}

/// The lines of `code`, each indented by `n` spaces unless it is empty, with a line feed between
/// each two.
pub open spec fn indented(code: Seq<char>, n: nat) -> Seq<char> {
    lines::joined(lines::lines(code).map_values(indenting(n)), seq!['\n'])
}

/// What stands between the bootstrap and the user code of round `round`.
pub open spec fn script_head(round: nat) -> Seq<char> {
    "\n\n# --- User code (round "@ + number::decimal(round) + ") ---\ntry:\n"@
}

/// What stands between the user code and the suffix. An exception of the user code is reported on
/// a protocol line, the persistent variables are saved, and the process fails: its exit status
/// tells an exception from output that only looks like one.
pub const SCRIPT_EXCEPT: &'static str =
    "\nexcept Exception as _repl_err:\n    print(f'__REPL_ERROR__::{_repl_err}', flush=True)\n    _save_state()\n    raise SystemExit(1)\n\n";

/// The script of round `round`: the bootstrap, `code` inside a `try` statement, the suffix.
pub open spec fn script_text(code: Seq<char>, round: nat) -> Seq<char> {
    PYTHON_BOOTSTRAP@ + script_head(round) + indented(code, USER_CODE_INDENT as nat)
        + SCRIPT_EXCEPT@ + PYTHON_SUFFIX@
}

/// Indents the lines of `code` by `spaces` spaces, but for the empty ones.
pub fn indent_code(code: &str, spaces: usize) -> (s: String)
    ensures
        s@ == indented(code@, spaces as nat),
{
    let all = lines::split_lines(code);
    let ghost src = lines::lines(code@);
    let ghost f = indenting(spaces as nat);
    let mut out: Vec<String> = Vec::new();
    let mut i: usize = 0;
    while i < all.len()
        invariant
            i <= all@.len(),
            chars::texts(all@) == src,
            f == indenting(spaces as nat),
            chars::texts(out@) == src.take(i as int).map_values(f),
        decreases all@.len() - i,
    {
        let ghost before = chars::texts(out@);
        assert(src[i as int] == all@[i as int]@);
        let mut line = String::new();
        if !all[i].as_str().is_empty() {
            line = space_run(spaces);
            line.append(all[i].as_str());
        }
        assert(line@ =~= f(src[i as int]));
        out.push(line);
        i += 1;
        assert(chars::texts(out@) =~= before.push(line@));
        assert(src.take(i as int).map_values(f) =~= src.take(i - 1).map_values(f).push(
            f(src[i - 1]),
        ));
    }
    assert(src.take(i as int) =~= src);
    proof {
        reveal_strlit("\n");
        assert("\n"@ =~= seq!['\n']);
    }
    lines::join(&out, "\n")
}

fn space_run(n: usize) -> (s: String)
    ensures
        s@ == spaces(n as nat),
{
    let mut s = String::new();
    let mut i: usize = 0;
    while i < n
        invariant
            i <= n,
            s@ == spaces(i as nat),
        decreases n - i,
    {
        s.push(' ');
        i += 1;
        assert(s@ =~= spaces(i as nat));
    }
    s
}

/// The script of round `round` for the user code `code`.
pub fn build_script(code: &str, round: u64) -> (s: String)
    ensures
        s@ == script_text(code@, round as nat),
{
    let mut s = PYTHON_BOOTSTRAP.to_owned();
    s.append("\n\n# --- User code (round ");
    number::push_decimal(&mut s, round);
    s.append(") ---\ntry:\n");
    s.append(indent_code(code, USER_CODE_INDENT).as_str());
    s.append(SCRIPT_EXCEPT);
    s.append(PYTHON_SUFFIX);
    assert(s@ =~= script_text(code@, round as nat));
    s
}

proof fn lemma_indented_parts(code: Seq<char>, n: nat, i: int)
    requires
        0 <= i < lines::lines(code).len(),
    ensures
        lines::is_one_line(indented_line(lines::lines(code)[i], n)),
{
    let line = lines::lines(code)[i];
    lines::lemma_lines_are_lines(code, i);
    let out = indented_line(line, n);
    assert forall|k: int| 0 <= k < out.len() implies out[k] != '\n' by {
        if line.len() > 0 && k >= n {
            assert(out[k] == line[k - n]);
        }
    }
}

/// Every line of indented code, as `lines` splits it, is empty or starts with the spaces.
pub proof fn law_indented_lines_are_indented(code: Seq<char>, n: nat, j: int)
    requires
        0 <= j < lines::lines(indented(code, n)).len(),
    ensures
        lines::lines(indented(code, n))[j].len() == 0 || spaces(n).is_prefix_of(
            lines::lines(indented(code, n))[j],
        ),
{
    let parts = lines::lines(code).map_values(indenting(n));
    assert forall|i: int| 0 <= i < parts.len() implies lines::is_one_line(#[trigger] parts[i]) by {
        lemma_indented_parts(code, n, i);
    }
    lines::lemma_lines_of_joined(parts, j);
    let line = lines::lines(indented(code, n))[j];
    let k = choose|k: int|
        0 <= k < parts.len() && (line == #[trigger] parts[k] || line == lines::strip_cr(parts[k]));
    let src = lines::lines(code)[k];
    assert(parts[k] == indented_line(src, n));
    if src.len() > 0 {
        assert(parts[k] == spaces(n) + src);
        assert(line.len() >= n);
        assert(spaces(n) =~= line.subrange(0, n as int)) by {
            assert forall|i: int| 0 <= i < n implies line[i] == ' ' by {
                assert(line[i] == parts[k][i]);
            }
        }
        assert(spaces(n).is_prefix_of(line));
    }
}

/// The lines of indented code are the lines of the code, each indented, where the last line is
/// not empty and no line ends with a carriage return.
pub proof fn law_indent_keeps_lines(code: Seq<char>, n: nat)
    requires
        lines::lines(code).len() > 0 ==> lines::lines(code).last().len() > 0,
        forall|i: int|
            0 <= i < lines::lines(code).len() ==> lines::strip_cr(
                #[trigger] lines::lines(code)[i],
            ) == lines::lines(code)[i],
    ensures
        lines::lines(indented(code, n)) == lines::lines(code).map_values(indenting(n)),
{
    let all = lines::lines(code);
    let parts = all.map_values(indenting(n));
    assert forall|i: int| 0 <= i < parts.len() implies lines::is_one_line(#[trigger] parts[i])
        && lines::strip_cr(parts[i]) == parts[i] by {
        lemma_indented_parts(code, n, i);
        let line = all[i];
        assert(lines::strip_cr(line) == line);
        assert(parts[i] == indented_line(line, n));
        if line.len() > 0 {
            if line.last() == '\r' {
                assert(line.drop_last().len() != line.len());
            }
            assert(parts[i].last() == line.last());
        }
    }
    if parts.len() > 0 {
        assert(parts.last() == indented_line(all.last(), n));
    }
    lines::law_joined_lines_split(parts);
}

/// A script starts with the bootstrap and ends with the suffix, whatever the code.
pub proof fn law_script_frames_the_code(code: Seq<char>, round: nat)
    ensures
        PYTHON_BOOTSTRAP@.is_prefix_of(script_text(code, round)),
        PYTHON_SUFFIX@.is_suffix_of(script_text(code, round)),
{
    let s = script_text(code, round);
    assert(PYTHON_BOOTSTRAP@ =~= s.subrange(0, PYTHON_BOOTSTRAP@.len() as int));
    assert(PYTHON_SUFFIX@ =~= s.subrange(
        s.len() - PYTHON_SUFFIX@.len(),
        s.len() as int,
    ));
}

/// Every line of the code stands whole behind the spaces, and an empty one stays empty: `parts`
/// are the indented lines, one for each line of the code.
pub proof fn law_indent_keeps_each_line_whole(code: &str, n: usize, s: String) -> (parts: Seq<
    Seq<char>,
>)
    requires
        call_ensures(indent_code, (code, n), s),
    ensures
        s@ == lines::joined(parts, seq!['\n']),
        parts.len() == lines::lines(code@).len(),
        forall|i: int|
            0 <= i < parts.len() ==> {
                let line = lines::lines(code@)[i];
                if line.len() == 0 {
                    (#[trigger] parts[i]).len() == 0
                } else {
                    &&& parts[i].len() == n + line.len()
                    &&& forall|k: int| 0 <= k < n ==> #[trigger] parts[i][k] == ' '
                    &&& parts[i].skip(n as int) == line
                }
            },
{
    let all = lines::lines(code@);
    let parts = all.map_values(indenting(n as nat));
    assert forall|i: int| 0 <= i < parts.len() implies {
        let line = all[i];
        if line.len() == 0 {
            (#[trigger] parts[i]).len() == 0
        } else {
            &&& parts[i].len() == n + line.len()
            &&& forall|k: int| 0 <= k < n ==> #[trigger] parts[i][k] == ' '
            &&& parts[i].skip(n as int) == line
        }
    } by {
        let line = all[i];
        assert(parts[i] == indented_line(line, n as nat));
        if line.len() > 0 {
            assert(parts[i].skip(n as int) =~= line);
        }
    }
    parts
}

/// A script is the bootstrap, the `try` statement with the code as `indent_code` indents it by
/// four spaces, and the suffix. The round stands in a comment; an exception is reported, the
/// variables are saved, and the process fails.
pub proof fn law_script_runs_the_code(code: &str, round: u64, indented_code: String, s: String)
    requires
        call_ensures(build_script, (code, round), s),
        call_ensures(indent_code, (code, 4usize), indented_code),
    ensures
        s@ == PYTHON_BOOTSTRAP@ + "\n\n# --- User code (round "@ + number::decimal(round as nat)
            + ") ---\ntry:\n"@ + indented_code@
            + "\nexcept Exception as _repl_err:\n    print(f'__REPL_ERROR__::{_repl_err}', flush=True)\n    _save_state()\n    raise SystemExit(1)\n\n"@
            + "\n# --- Save state after execution ---\n_save_state()\n"@,
{
    reveal_strlit("\n# --- Save state after execution ---\n_save_state()\n");
    assert(s@ =~= PYTHON_BOOTSTRAP@ + "\n\n# --- User code (round "@ + number::decimal(
        round as nat,
    ) + ") ---\ntry:\n"@ + indented_code@ + SCRIPT_EXCEPT@ + PYTHON_SUFFIX@);
}

} // verus!
