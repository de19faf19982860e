use rlm_repl::repl::environment::STATE_FILE_VAR;
use rlm_repl::repl::output::{clean_repl_output, truncate_stdout, ERROR_MARKER, FINAL_MARKER};
use rlm_repl::repl::runtime::{
    is_not_later, repl_dir, state_file_name, PythonRuntime, RoundAttempt, RoundOutput,
    DEFAULT_STDOUT_LIMIT,
};
use rlm_repl::repl::script::{
    build_script, indent_code, PYTHON_BOOTSTRAP, PYTHON_SUFFIX, SCRIPT_EXCEPT,
};
use std::path::PathBuf;
use std::time::{Duration, Instant};

fn runtime() -> PythonRuntime {
    PythonRuntime::with_state_path(PathBuf::from("/tmp/state.json"))
}

fn pair(key: &str, value: &str) -> (String, String) {
    (key.to_string(), value.to_string())
}

fn ran(stdout: &[u8], stderr: &[u8], success: bool) -> RoundOutput {
    match PythonRuntime::collect_output(RoundAttempt::Ran {
        stdout: stdout.to_vec(),
        stderr: stderr.to_vec(),
        success,
    }) {
        Ok(output) => output,
        Err(e) => panic!("no output: {e}"),
    }
}

#[test]
fn clean_output_removes_protocol_lines() {
    let raw = "hello\n__REPL_FINAL__::\"done\"\nworld\n__REPL_LLM_QUERY__::{}";
    let cleaned = clean_repl_output(raw);
    assert!(cleaned.contains("hello"));
    assert!(cleaned.contains("world"));
    assert!(!cleaned.contains("__REPL_FINAL__"));
    assert!(!cleaned.contains("__REPL_LLM_QUERY__"));
}

#[test]
fn indent_preserves_empty_lines() {
    let code = "print(1)\n\nprint(2)";
    let result = indent_code(code, 4);
    assert_eq!(result, "    print(1)\n\n    print(2)");
}

#[test]
fn clean_output_knows_every_marker() {
    let raw = "__REPL_READY__\na\r\n__REPL_ERROR__::x\n\n __REPL_DONE__\n__REPL_DONE__ 1\n__REPL_FINAL__\nb\n";
    assert_eq!(clean_repl_output(raw), "a\n\n __REPL_DONE__\n__REPL_FINAL__\nb");
    assert_eq!(clean_repl_output(""), "");
    assert_eq!(clean_repl_output("__REPL_DONE__\n"), "");
}

#[test]
fn clean_output_keeps_ordinary_output() {
    let raw = "one\n  two\n\nthree __REPL_FINAL__::";
    assert_eq!(clean_repl_output(raw), raw);
}

#[test]
fn indent_takes_any_width() {
    assert_eq!(indent_code("a\r\nb\n", 2), "  a\n  b");
    assert_eq!(indent_code("a\n b", 0), "a\n b");
    assert_eq!(indent_code("", 4), "");
    assert_eq!(indent_code("\n\n", 4), "\n");
}

#[test]
fn indented_lines_stay_in_their_block() {
    let code = "x = 1\r\n\n\ty\nexcept:\r\r\n  pass";
    for line in indent_code(code, 4).lines() {
        assert!(line.is_empty() || line.starts_with("    "));
    }
}

#[test]
fn short_output_is_not_truncated() {
    assert_eq!(truncate_stdout("abc", 3), "abc");
    assert_eq!(truncate_stdout("", 0), "");
}

#[test]
fn long_output_is_truncated_with_a_note() {
    let s = "x".repeat(200);
    let expected = format!(
        "{}\n\n[... REPL output truncated: 130 bytes omitted ...]\n",
        "x".repeat(70)
    );
    assert_eq!(truncate_stdout(&s, 150), expected);
    assert_eq!(
        truncate_stdout("abcd", 3),
        "\n\n[... REPL output truncated: 4 bytes omitted ...]\n"
    );
}

#[test]
fn truncation_counts_bytes() {
    // 100 characters of two bytes each; 71 bytes hold 35 of them.
    let s = "é".repeat(100);
    let out = truncate_stdout(&s, 151);
    let expected = format!(
        "{}\n\n[... REPL output truncated: 130 bytes omitted ...]\n",
        "é".repeat(35)
    );
    assert_eq!(out, expected);
    assert!(out.len() <= 151);
}

#[test]
fn scripts_frame_the_code() {
    let script = build_script("print(1)\n\nprint(2)", 12);
    let expected = format!(
        "{}\n\n# --- User code (round 12) ---\ntry:\n    print(1)\n\n    print(2)\nexcept Exception as _repl_err:\n    print(f'__REPL_ERROR__::{{_repl_err}}', flush=True)\n    _save_state()\n    raise SystemExit(1)\n\n{}",
        PYTHON_BOOTSTRAP, PYTHON_SUFFIX
    );
    assert_eq!(script, expected);
    assert!(script.ends_with("_save_state()\n"));
    assert!(PYTHON_BOOTSTRAP.starts_with("\nimport sys, json, os, urllib.request, urllib.error\n"));
}

#[test]
fn state_files_carry_the_process_id() {
    assert_eq!(state_file_name(4711), "state_4711.json");
    assert_eq!(state_file_name(0), "state_0.json");
}

#[test]
fn a_runtime_needs_its_directory() {
    let temp = PathBuf::from("/tmp");
    assert_eq!(repl_dir(&temp), PathBuf::from("/tmp/deepseek_repl"));
    let e = PythonRuntime::new(Err("denied".to_string()), &temp, 7).unwrap_err();
    assert_eq!(e, "Failed to create REPL temp dir: denied");
    let mut rt = PythonRuntime::new(Ok(()), &temp, 7).unwrap();
    assert_eq!(rt.round_count(), 0);
    assert_eq!(
        rt.begin_round("x").env,
        vec![pair("REPL_STATE_FILE", "/tmp/deepseek_repl/state_7.json")]
    );
}

#[test]
fn rounds_are_counted() {
    let mut rt = runtime();
    assert_eq!(rt.round_count(), 0);
    let first = rt.begin_round("a = 1");
    assert_eq!(rt.round_count(), 1);
    assert_eq!(first.program, "python3");
    assert_eq!(first.args, vec!["-u".to_string(), "-c".to_string(), build_script("a = 1", 1)]);
    let second = rt.begin_round("b = 2");
    assert_eq!(rt.round_count(), 2);
    assert_eq!(second.args[2], build_script("b = 2", 2));
}

#[test]
fn set_env_replaces_an_earlier_value() {
    let mut rt = runtime();
    rt.set_env("A", "1");
    rt.set_env("B", "2".to_string());
    rt.set_env("A", "3");
    assert_eq!(rt.round_count(), 0);
    let plan = rt.begin_round("pass");
    assert_eq!(
        plan.env,
        vec![pair("REPL_STATE_FILE", "/tmp/state.json"), pair("B", "2"), pair("A", "3")]
    );
}

#[test]
fn set_env_twice_is_setting_once() {
    let mut once = runtime();
    once.set_env("A", "2");
    let mut twice = runtime();
    twice.set_env("A", "1");
    twice.set_env("A", "2");
    assert_eq!(once.begin_round("x").env, twice.begin_round("x").env);
}

#[test]
fn the_state_file_can_be_overridden() {
    let mut rt = runtime();
    rt.set_env("REPL_STATE_FILE", "/other");
    let env = rt.begin_round("x").env;
    assert_eq!(env[0], pair("REPL_STATE_FILE", "/tmp/state.json"));
    assert_eq!(env[1], pair("REPL_STATE_FILE", "/other"));
}

#[test]
fn clones_go_their_own_way() {
    let mut rt = runtime();
    rt.set_env("A", "1");
    rt.begin_round("x");
    let mut copy = rt.clone();
    assert_eq!(copy.round_count(), 1);
    copy.set_env("A", "2");
    let plan = copy.begin_round("x");
    assert_eq!(plan.env[1], pair("A", "2"));
    assert_eq!(rt.round_count(), 1);
    assert_eq!(rt.begin_round("x").env[1], pair("A", "1"));
}

#[test]
fn attempts_without_output_say_why() {
    assert_eq!(
        PythonRuntime::collect_output(RoundAttempt::TimedOut).unwrap_err(),
        "Python REPL round timed out after 120s"
    );
    assert_eq!(
        PythonRuntime::collect_output(RoundAttempt::NotRun("not found".to_string())).unwrap_err(),
        "Failed to execute python3: not found"
    );
}

#[test]
fn output_is_decoded_lossily() {
    let output = ran(b"ok \xff\xc3\xa9", b"\xe2\x80\xa6", true);
    assert_eq!(output.full_stdout, "ok \u{fffd}é");
    assert_eq!(output.stderr, "…");
    assert!(output.success);
}

#[test]
fn state_paths_are_decoded_lossily() {
    let path = PathBuf::from("/tmp/a b/é.json");
    let mut rt = PythonRuntime::with_state_path(path.clone());
    assert_eq!(rt.begin_round("").env[0].1, path.to_string_lossy());
}

#[test]
fn a_round_shows_ordinary_output() {
    let rt = runtime();
    let output = ran(b"hello from repl\n", b"", true);
    let display = output.full_stdout.clone();
    let round = rt.finish_round(output, &display, None, Duration::from_millis(5));
    assert!(round.stdout.contains("hello from repl"));
    assert_eq!(round.stdout, "hello from repl");
    assert_eq!(round.full_stdout, "hello from repl\n");
    assert!(!round.has_error);
    assert!(round.final_value.is_none());
    assert_eq!(round.elapsed, Duration::from_millis(5));
}

#[test]
fn a_round_carries_its_final_value() {
    let rt = runtime();
    let output = ran(b"a\n__REPL_FINAL__::\"the answer is 42\"\n", b"warn", true);
    let round = rt.finish_round(
        output,
        "a\n",
        Some("the answer is 42".to_string()),
        Duration::ZERO,
    );
    assert_eq!(round.final_value.as_deref(), Some("the answer is 42"));
    assert_eq!(round.stdout, "a");
    assert_eq!(round.stderr, "warn");
    let copy = round.clone();
    assert_eq!(copy.full_stdout, round.full_stdout);
    assert_eq!(copy.final_value, round.final_value);
}

#[test]
fn a_round_fails_with_its_process() {
    let rt = runtime();
    for (stdout, success) in [
        ("fine", true),
        ("fine", false),
        ("x\n__REPL_ERROR__::boom\n", false),
        ("__REPL_ERROR__::\n", true),
        ("in the middle __REPL_ERROR__:: too", true),
    ] {
        let output = ran(stdout.as_bytes(), b"", success);
        let round = rt.finish_round(output, stdout, None, Duration::ZERO);
        assert_eq!(round.has_error, !success);
    }
}

#[test]
fn a_round_shows_no_protocol_line_and_fits() {
    let rt = runtime();
    let mut raw = String::new();
    for i in 0..2000 {
        raw.push_str(&format!("…line {i}\n__REPL_LLM_QUERY__::{i}\n"));
    }
    let output = ran(raw.as_bytes(), b"", true);
    let round = rt.finish_round(output, &raw, None, Duration::ZERO);
    assert!(round.stdout.len() <= DEFAULT_STDOUT_LIMIT);
    assert!(round.stdout.starts_with("…line 0\n…line 1\n"));
    assert!(round.stdout.ends_with(" bytes omitted ...]\n"));
    for line in round.stdout.lines() {
        assert!(!line.starts_with("__REPL_"));
    }
}

#[test]
fn uptime_runs_from_the_start() {
    let before = Instant::now();
    let rt = runtime();
    let after = Instant::now();
    let later = after + Duration::from_secs(7);
    assert!(rt.uptime_at(later) >= Duration::from_secs(7));
    assert!(rt.uptime_at(later) <= later - before);
    assert_eq!(rt.uptime_at(before), Duration::ZERO);
    let first = rt.uptime();
    assert!(first <= before.elapsed());
    let mut rt = rt;
    rt.set_env("A", "1");
    rt.begin_round("x");
    assert!(first <= rt.uptime());
    assert!(rt.uptime_at(after) <= rt.uptime_at(later));
}

#[test]
fn the_script_speaks_the_protocol() {
    assert!(PYTHON_BOOTSTRAP.contains(&format!("print(f'{FINAL_MARKER}{{json.dumps(str(value))}}', flush=True)")));
    assert!(PYTHON_BOOTSTRAP.contains(&format!("os.environ.get('{STATE_FILE_VAR}', '')")));
    assert!(SCRIPT_EXCEPT.contains(ERROR_MARKER));
}

#[test]
fn uptime_never_goes_back() {
    let mut rt = runtime();
    let first = Instant::now();
    let t1 = rt.uptime_at(first);
    rt.set_env("A", "1");
    rt.begin_round("x");
    let second = first + Duration::from_nanos(1);
    let t2 = rt.uptime_at(second);
    assert!(is_not_later(first, first));
    assert!(is_not_later(first, second));
    assert!(!is_not_later(second, first));
    assert_eq!(t2.as_nanos(), t1.as_nanos() + 1);
}
