//! The REPL runtime: its state between rounds, and the start and the end of a round.

use std::path::PathBuf;
use std::time::Duration;
use std::time::Instant;
use vstd::prelude::*;

use crate::repl::environment;
use crate::repl::output;
use crate::repl::script;
use crate::text::bytes;
use crate::text::chars;
use crate::text::lines;
use crate::text::number;

verus! {

/// The most bytes of standard output that a round shows.
pub const DEFAULT_STDOUT_LIMIT: usize = 8_192;

/// The seconds after which a round is given up.
pub const ROUND_TIMEOUT_SECS: u64 = 120;

/// The program that runs scripts.
pub const PYTHON_PROGRAM: &'static str = "python3";

/// Has Python write its output unbuffered.
pub const PYTHON_UNBUFFERED: &'static str = "-u";

/// Has Python run its next argument.
pub const PYTHON_COMMAND: &'static str = "-c";

/// The directory for state files, inside the directory for temporary files.
pub const REPL_DIR_NAME: &'static str = "deepseek_repl";

#[verifier::external_type_specification]
#[verifier::external_body]
pub struct ExPathBuf(PathBuf);

#[verifier::external_type_specification]
#[verifier::external_body]
pub struct ExInstant(Instant);

/// The text of a path, with U+FFFD where it is no Unicode.
pub uninterp spec fn path_text(path: PathBuf) -> Seq<char>;

/// `Path::to_string_lossy`. Its result depends on the path alone; `path_text` names it.
#[verifier::external_body]
fn path_to_string_lossy(path: &PathBuf) -> (text: String)
    ensures
        text@ == path_text(*path),
{
    path.to_string_lossy().into_owned()
}

/// A path with a part behind it.
pub uninterp spec fn path_join(base: PathBuf, part: Seq<char>) -> PathBuf;

/// `Path::join`. Its result depends on the path and the part alone; `path_join` names it.
#[verifier::external_body]
fn join_path(base: &PathBuf, part: &str) -> (path: PathBuf)
    ensures
        path == path_join(*base, part@),
{
    base.join(part)
}

/// The text of bytes, with U+FFFD where they are no UTF-8.
pub uninterp spec fn lossy_text(bytes: Seq<u8>) -> Seq<char>;

/// `String::from_utf8_lossy`. Its result depends on the bytes alone; `lossy_text` names it. Bytes
/// that are UTF-8 are decoded as they stand.
#[verifier::external_body]
fn string_from_utf8_lossy(bytes: &Vec<u8>) -> (text: String)
    ensures
        text@ == lossy_text(bytes@),
        vstd::utf8::valid_utf8(bytes@) ==> text@ == vstd::utf8::decode_utf8(bytes@),
{
    String::from_utf8_lossy(bytes).into_owned()
}

/// `Instant::now` reads the clock: nothing is claimed of what it returns.
pub assume_specification[ Instant::now ]() -> Instant;

/// The time from one instant to another; none where the second is the earlier one.
pub uninterp spec fn time_between(earlier: Instant, later: Instant) -> Duration;

/// `Instant::saturating_duration_since`. Its result depends on the two instants alone;
/// `time_between` names it. It is the time from the one to the other, or none where the one is
/// later: so to an instant that is not later, the time from the same start is not longer.
pub assume_specification[ Instant::saturating_duration_since ](
    later: &Instant,
    earlier: Instant,
) -> (d: Duration)
    ensures
        d == time_between(earlier, *later),
        forall|mid: Instant| #[trigger]
            not_later(mid, *later) ==> duration_nanos(time_between(earlier, mid)) <= duration_nanos(
                d,
            ),
;

/// The length of a duration in nanoseconds.
pub uninterp spec fn duration_nanos(d: Duration) -> nat;

/// `Duration::as_nanos`. Its result depends on the duration alone; `duration_nanos` names it.
pub assume_specification[ Duration::as_nanos ](d: &Duration) -> (n: u128)
    ensures
        n == duration_nanos(*d),
;

/// `a` is not later than `b`: no time passes from `b` to `a`.
pub open spec fn not_later(a: Instant, b: Instant) -> bool {
    duration_nanos(time_between(b, a)) == 0
}

/// Whether `a` is not later than `b`.
pub fn is_not_later(a: Instant, b: Instant) -> (r: bool)
    ensures
        r == not_later(a, b),
{
    a.saturating_duration_since(b).as_nanos() == 0
}

/// `PathBuf::clone` gives an equal path.
pub assume_specification[ <PathBuf as Clone>::clone ](path: &PathBuf) -> (r: PathBuf)
    ensures
        r == *path,
;

/// Runs code blocks in Python processes of their own, with variables that persist in a state
/// file.
#[derive(Debug)]
pub struct PythonRuntime {
    /// The file of the persistent variables.
    state_path: PathBuf,
    /// The most bytes of standard output that a round shows.
    stdout_limit: usize,
    /// The rounds that were started.
    round_count: u64,
    /// When the runtime was made.
    started: Instant,
    /// Environment variables for every round, beside the state file.
    extra_env: Vec<(String, String)>,
}

/// What a round gave.
#[derive(Debug)]
pub struct ReplRound {
    /// Standard output without protocol lines, truncated.
    pub stdout: String,
    /// Standard output as it came.
    pub full_stdout: String,
    /// Standard error.
    pub stderr: String,
    /// Whether the code raised an unhandled Python exception: its process failed.
    pub has_error: bool,
    /// The final answer, if one was given.
    pub final_value: Option<String>,
    /// How long the round took.
    pub elapsed: Duration,
}

impl Clone for ReplRound {
    fn clone(&self) -> (r: Self)
        ensures
            r == *self,
    {
        ReplRound {
            stdout: self.stdout.clone(),
            full_stdout: self.full_stdout.clone(),
            stderr: self.stderr.clone(),
            has_error: self.has_error,
            final_value: self.final_value.clone(),
            elapsed: self.elapsed,
        }
    }
}

/// The process of a round.
#[derive(Debug)]
pub struct RoundPlan {
    /// The program to run.
    pub program: String,
    /// Its arguments.
    pub args: Vec<String>,
    /// The environment variables to set for it, in order.
    pub env: Vec<(String, String)>,
}

/// What came of an attempt to run a round.
#[derive(Debug)]
pub enum RoundAttempt {
    /// The process did not end in time.
    TimedOut,
    /// The process could not be run, for the reason given.
    NotRun(String),
    /// The process ended.
    Ran { stdout: Vec<u8>, stderr: Vec<u8>, success: bool },
}

/// The output of a round as text.
#[derive(Debug)]
pub struct RoundOutput {
    /// Standard output as it came.
    pub full_stdout: String,
    /// Standard error.
    pub stderr: String,
    /// Whether the process ended without failing. The process of code that raises an unhandled
    /// exception fails.
    pub success: bool,
}

/// What a round shows of its output, once the final marker is taken out.
pub open spec fn shown_stdout(display: Seq<char>, limit: nat) -> Seq<char> {
    output::truncated(output::cleaned(display), limit)
}

/// Why an attempt that gave no output failed.
pub open spec fn attempt_error(attempt: RoundAttempt) -> Seq<char> {
    match attempt {
        RoundAttempt::TimedOut => "Python REPL round timed out after "@ + number::decimal(
            ROUND_TIMEOUT_SECS as nat,
        ) + "s"@,
        RoundAttempt::NotRun(reason) => "Failed to execute python3: "@ + reason@,
        RoundAttempt::Ran { .. } => seq![],
    }
}

/// The name of the state file of the process `pid`.
pub open spec fn state_file_text(pid: nat) -> Seq<char> {
    "state_"@ + number::decimal(pid) + ".json"@
}

/// The state file of the process `pid`, where `temp_dir` is the directory for temporary files.
pub open spec fn state_path_in(temp_dir: PathBuf, pid: nat) -> PathBuf {
    path_join(path_join(temp_dir, REPL_DIR_NAME@), state_file_text(pid))
}

/// The name of the state file of the process `pid`.
pub fn state_file_name(pid: u32) -> (name: String)
    ensures
        name@ == state_file_text(pid as nat),
        name@ == "state_"@ + number::decimal(pid as nat) + ".json"@,
{
    let mut name = String::from("state_");
    number::push_decimal(&mut name, pid as u64);
    name.append(".json");
    name
}

/// The directory for state files, where `temp_dir` is the one for temporary files.
pub fn repl_dir(temp_dir: &PathBuf) -> (dir: PathBuf)
    ensures
        dir == path_join(*temp_dir, REPL_DIR_NAME@),
        dir == path_join(*temp_dir, "deepseek_repl"@),
{
    join_path(temp_dir, REPL_DIR_NAME)
}

impl Clone for PythonRuntime {
    fn clone(&self) -> (r: Self)
        ensures
            r.state_path() == self.state_path(),
            r.limit() == self.limit(),
            r.rounds() == self.rounds(),
            r.started() == self.started(),
            r.extra_env() == self.extra_env(),
    {
        proof {
            use_type_invariant(self);
        }
        let mut extra_env: Vec<(String, String)> = Vec::new();
        environment::append_entries(&mut extra_env, &self.extra_env);
        assert(environment::entries(extra_env@) =~= environment::entries(self.extra_env@));
        PythonRuntime {
            state_path: self.state_path.clone(),
            stdout_limit: self.stdout_limit,
            round_count: self.round_count,
            started: self.started,
            extra_env,
        }
    }
}

impl PythonRuntime {
    /// No variable stands twice among the extra ones.
    #[verifier::type_invariant]
    spec fn extra_env_distinct(self) -> bool {
        environment::keys_distinct(environment::entries(self.extra_env@))
    }

    /// The file of the persistent variables.
    pub closed spec fn state_path(&self) -> PathBuf {
        self.state_path
    }

    /// The most bytes of standard output that a round shows.
    pub closed spec fn limit(&self) -> nat {
        self.stdout_limit as nat
    }

    /// The number of rounds that were started.
    pub closed spec fn rounds(&self) -> nat {
        self.round_count as nat
    }

    /// When the runtime was made.
    pub closed spec fn started(&self) -> Instant {
        self.started
    }

    /// The environment variables for every round, beside the state file.
    pub closed spec fn extra_env(&self) -> Seq<(Seq<char>, Seq<char>)> {
        environment::entries(self.extra_env@)
    }

    /// The environment variables of a round: the state file, then the extra ones.
    pub open spec fn round_env(&self) -> Seq<(Seq<char>, Seq<char>)> {
        seq![(environment::STATE_FILE_VAR@, path_text(self.state_path()))] + self.extra_env()
    }

    /// A runtime for the process `pid`, with its state file below the directory for temporary
    /// files, `temp_dir`. `made` says whether the directory of `repl_dir` could be made, and else
    /// why not.
    pub fn new(made: Result<(), String>, temp_dir: &PathBuf, pid: u32) -> (r: Result<Self, String>)
        ensures
            r is Ok <==> made is Ok,
            r matches Ok(runtime) ==> {
                &&& runtime.state_path() == state_path_in(*temp_dir, pid as nat)
                &&& runtime.state_path() == path_join(
                    path_join(*temp_dir, "deepseek_repl"@),
                    "state_"@ + number::decimal(pid as nat) + ".json"@,
                )
                &&& call_ensures(Instant::now, (), runtime.started())
                &&& runtime.limit() == DEFAULT_STDOUT_LIMIT
                &&& runtime.rounds() == 0
                &&& runtime.extra_env() == Seq::<(Seq<char>, Seq<char>)>::empty()
            },
            r matches Err(e) ==> e@ == "Failed to create REPL temp dir: "@ + made->Err_0@,
    {
        match made {
            Ok(_) => {
                let name = state_file_name(pid);
                Ok(Self::with_state_path(join_path(&repl_dir(temp_dir), name.as_str())))
            },
            Err(reason) => {
                let mut e = String::from("Failed to create REPL temp dir: ");
                e.append(reason.as_str());
                Err(e)
            },
        }
    }

    /// A runtime with the state file `path`.
    pub fn with_state_path(path: PathBuf) -> (runtime: Self)
        ensures
            runtime.state_path() == path,
            call_ensures(Instant::now, (), runtime.started()),
            runtime.limit() == DEFAULT_STDOUT_LIMIT,
            runtime.limit() == 8192,
            runtime.rounds() == 0,
            runtime.extra_env() == Seq::<(Seq<char>, Seq<char>)>::empty(),
    {
        let extra_env: Vec<(String, String)> = Vec::new();
        assert(environment::entries(extra_env@) =~= Seq::<(Seq<char>, Seq<char>)>::empty());
        PythonRuntime {
            state_path: path,
            stdout_limit: DEFAULT_STDOUT_LIMIT,
            round_count: 0,
            started: Instant::now(),
            extra_env,
        }
    }

    /// Sets an environment variable for every later round.
    pub fn set_env<K: Into<String>, V: Into<String>>(&mut self, key: K, value: V)
        ensures
            exists|k: String, v: String|
                {
                    &&& #[trigger] call_ensures(<K as Into<String>>::into, (key,), k)
                    &&& #[trigger] call_ensures(<V as Into<String>>::into, (value,), v)
                    &&& final(self).extra_env() == environment::env_set(
                        old(self).extra_env(),
                        k@,
                        v@,
                    )
                },
            final(self).state_path() == old(self).state_path(),
            final(self).limit() == old(self).limit(),
            final(self).rounds() == old(self).rounds(),
            final(self).started() == old(self).started(),
    {
        proof {
            use_type_invariant(&*self);
        }
        let key: String = key.into();
        let value: String = value.into();
        proof {
            environment::law_env_set_keeps_keys_distinct(
                environment::entries(self.extra_env@),
                key@,
                value@,
            );
        }
        let extra_env = environment::set_entry(&self.extra_env, key, value);
        self.extra_env = extra_env;
    }

    /// Starts the next round, for the user code `code`.
    pub fn begin_round(&mut self, code: &str) -> (plan: RoundPlan)
        requires
            old(self).rounds() < u64::MAX,
        ensures
            final(self).rounds() == old(self).rounds() + 1,
            final(self).state_path() == old(self).state_path(),
            final(self).limit() == old(self).limit(),
            final(self).started() == old(self).started(),
            final(self).extra_env() == old(self).extra_env(),
            plan.program@ == PYTHON_PROGRAM@,
            chars::texts(plan.args@) == seq![
                PYTHON_UNBUFFERED@,
                PYTHON_COMMAND@,
                script::script_text(code@, final(self).rounds()),
            ],
            plan.program@ == "python3"@,
            plan.args@.len() == 3,
            plan.args@[0]@ == "-u"@,
            plan.args@[1]@ == "-c"@,
            plan.args@[2]@ == script::script_text(code@, old(self).rounds() + 1),
            environment::entries(plan.env@) == final(self).round_env(),
            plan.env@.len() == old(self).extra_env().len() + 1,
            plan.env@[0].0@ == "REPL_STATE_FILE"@,
            plan.env@[0].1@ == path_text(old(self).state_path()),
            forall|i: int|
                0 <= i < old(self).extra_env().len() ==> {
                    &&& (#[trigger] plan.env@[i + 1]).0@ == old(self).extra_env()[i].0
                    &&& plan.env@[i + 1].1@ == old(self).extra_env()[i].1
                },
            environment::keys_distinct(final(self).extra_env()),
    {
        proof {
            use_type_invariant(&*self);
        }
        self.round_count = self.round_count + 1;
        let mut env: Vec<(String, String)> = Vec::new();
        env.push((String::from(environment::STATE_FILE_VAR), path_to_string_lossy(&self.state_path)));
        assert(environment::entries(env@) =~= seq![
            (environment::STATE_FILE_VAR@, path_text(self.state_path)),
        ]);
        environment::append_entries(&mut env, &self.extra_env);
        let mut args: Vec<String> = Vec::new();
        args.push(String::from(PYTHON_UNBUFFERED));
        args.push(String::from(PYTHON_COMMAND));
        args.push(script::build_script(code, self.round_count));
        assert(chars::texts(args@) =~= seq![
            PYTHON_UNBUFFERED@,
            PYTHON_COMMAND@,
            script::script_text(code@, self.rounds()),
        ]);
        proof {
            let all = environment::entries(env@);
            assert(all.len() == env@.len());
            assert(all == seq![(environment::STATE_FILE_VAR@, path_text(self.state_path))]
                + self.extra_env());
            assert(all[0] == (env@[0].0@, env@[0].1@));
            assert forall|i: int| 0 <= i < self.extra_env().len() implies (#[trigger] env@[i
                + 1]).0@ == self.extra_env()[i].0 && env@[i + 1].1@ == self.extra_env()[i].1 by {
                assert(all[i + 1] == (env@[i + 1].0@, env@[i + 1].1@));
            }
            assert(chars::texts(args@)[2] == args@[2]@);
        }
        RoundPlan { program: String::from(PYTHON_PROGRAM), args, env }
    }

    /// The output of a round as text, or why there is none.
    pub fn collect_output(attempt: RoundAttempt) -> (r: Result<RoundOutput, String>)
        ensures
            r is Ok <==> attempt is Ran,
            r matches Ok(o) ==> {
                &&& o.full_stdout@ == lossy_text(attempt->stdout@)
                &&& o.stderr@ == lossy_text(attempt->stderr@)
                &&& o.success == attempt->success
                &&& vstd::utf8::valid_utf8(attempt->stdout@) ==> o.full_stdout@
                    == vstd::utf8::decode_utf8(attempt->stdout@)
                &&& vstd::utf8::valid_utf8(attempt->stderr@) ==> o.stderr@
                    == vstd::utf8::decode_utf8(attempt->stderr@)
            },
            r matches Err(e) ==> e@ == attempt_error(attempt),
    {
        match attempt {
            RoundAttempt::TimedOut => {
                let mut e = String::from("Python REPL round timed out after ");
                number::push_decimal(&mut e, ROUND_TIMEOUT_SECS);
                e.append("s");
                Err(e)
            },
            RoundAttempt::NotRun(reason) => {
                let mut e = String::from("Failed to execute python3: ");
                e.append(reason.as_str());
                Err(e)
            },
            RoundAttempt::Ran { stdout, stderr, success } => Ok(
                RoundOutput {
                    full_stdout: string_from_utf8_lossy(&stdout),
                    stderr: string_from_utf8_lossy(&stderr),
                    success,
                },
            ),
        }
    }

    /// Ends a round. `display` is its standard output without the final marker, `final_value` the
    /// answer that the marker carried, `elapsed` how long the round took.
    pub fn finish_round(
        &self,
        round: RoundOutput,
        display: &str,
        final_value: Option<String>,
        elapsed: Duration,
    ) -> (r: ReplRound)
        ensures
            r.stdout@ == shown_stdout(display@, self.limit()),
            r.stdout@ == output::truncated(output::cleaned(display@), self.limit()),
            self.limit() >= output::NOTE_RESERVE ==> bytes::byte_len(r.stdout@) <= self.limit(),
            r.full_stdout == round.full_stdout,
            r.stderr == round.stderr,
            r.has_error == !round.success,
            r.final_value == final_value,
            r.elapsed == elapsed,
    {
        let shown = output::clean_repl_output(display);
        let stdout = output::truncate_stdout(shown.as_str(), self.stdout_limit);
        ReplRound {
            stdout,
            full_stdout: round.full_stdout,
            stderr: round.stderr,
            has_error: !round.success,
            final_value,
            elapsed,
        }
    }

    /// The number of rounds that were started.
    pub fn round_count(&self) -> (n: u64)
        ensures
            n == self.rounds(),
    {
        self.round_count
    }

    /// How long the runtime had been there at the instant `now`.
    pub fn uptime_at(&self, now: Instant) -> (d: Duration)
        ensures
            d == time_between(self.started(), now),
            forall|mid: Instant| #[trigger]
                not_later(mid, now) ==> duration_nanos(time_between(self.started(), mid))
                    <= duration_nanos(d),
    {
        now.saturating_duration_since(self.started)
    }

    /// How long the runtime has been there.
    pub fn uptime(&self) -> (d: Duration)
        ensures
            exists|now: Instant|
                {
                    &&& #[trigger] call_ensures(Instant::now, (), now)
                    &&& d == time_between(self.started(), now)
                    &&& forall|mid: Instant| #[trigger]
                        not_later(mid, now) ==> duration_nanos(time_between(self.started(), mid))
                            <= duration_nanos(d)
                },
    {
        self.uptime_at(Instant::now())
    }
}

/// No line that a round shows is a protocol line.
pub proof fn law_shown_stdout_has_no_protocol_line(display: Seq<char>, limit: nat, j: int)
    requires
        0 <= j < lines::lines(shown_stdout(display, limit)).len(),
    ensures
        !output::is_protocol_line(lines::lines(shown_stdout(display, limit))[j]),
{
    let shown = output::cleaned(display);
    assert forall|i: int| 0 <= i < lines::lines(shown).len() implies !output::is_protocol_line(
        #[trigger] lines::lines(shown)[i],
    ) by {
        output::law_cleaned_has_no_protocol_line(display, i);
    }
    output::law_truncated_has_no_protocol_line(shown, limit, j);
}

/// What a round shows fits the limit of its runtime.
pub proof fn law_shown_stdout_fits(display: Seq<char>)
    requires
        bytes::byte_len(output::cleaned(display)) <= u64::MAX,
    ensures
        bytes::byte_len(shown_stdout(display, DEFAULT_STDOUT_LIMIT as nat))
            <= DEFAULT_STDOUT_LIMIT,
{
    output::law_truncated_fits(output::cleaned(display), DEFAULT_STDOUT_LIMIT as nat);
}

proof fn lemma_value_behind(
    first: (Seq<char>, Seq<char>),
    env: Seq<(Seq<char>, Seq<char>)>,
    key: Seq<char>,
)
    ensures
        environment::env_value(seq![first] + env, key) == match environment::env_value(env, key) {
            Some(value) => Some(value),
            None => if first.0 == key {
                Some(first.1)
            } else {
                None
            },
        },
    decreases env.len(),
{
    let all = seq![first] + env;
    if env.len() > 0 {
        assert(all.drop_last() =~= seq![first] + env.drop_last());
        assert(all.last() == env.last());
        lemma_value_behind(first, env.drop_last(), key);
    } else {
        assert(all.last() == first);
        assert(all.drop_last() =~= env);
    }
}

/// A round sees a variable that was set, and every other one as it would have without that.
pub proof fn law_round_env_after_set(
    before: PythonRuntime,
    after: PythonRuntime,
    key: Seq<char>,
    value: Seq<char>,
    other: Seq<char>,
)
    requires
        after.state_path() == before.state_path(),
        after.extra_env() == environment::env_set(before.extra_env(), key, value),
    ensures
        environment::env_value(after.round_env(), key) == Some(value),
        other != key ==> environment::env_value(after.round_env(), other)
            == environment::env_value(before.round_env(), other),
{
    let first = (environment::STATE_FILE_VAR@, path_text(before.state_path()));
    environment::law_env_value_after_set(before.extra_env(), key, value, other);
    lemma_value_behind(first, after.extra_env(), key);
    lemma_value_behind(first, after.extra_env(), other);
    lemma_value_behind(first, before.extra_env(), other);
}

/// A round finds its state file, unless the variable that names it was set to something else.
pub proof fn law_round_env_names_the_state_file(runtime: PythonRuntime)
    requires
        environment::env_value(runtime.extra_env(), environment::STATE_FILE_VAR@) is None,
    ensures
        environment::env_value(runtime.round_env(), environment::STATE_FILE_VAR@) == Some(
            path_text(runtime.state_path()),
        ),
{
    let first = (environment::STATE_FILE_VAR@, path_text(runtime.state_path()));
    lemma_value_behind(first, runtime.extra_env(), environment::STATE_FILE_VAR@);
}

/// Uptime never goes back: whatever was done with the runtime in between, as long as it keeps its
/// start, a later reading of the clock gives no shorter uptime.
pub proof fn law_uptime_never_goes_back(
    before: PythonRuntime,
    after: PythonRuntime,
    first: Instant,
    second: Instant,
    t1: Duration,
    t2: Duration,
)
    requires
        after.started() == before.started(),
        not_later(first, second),
        call_ensures(PythonRuntime::uptime_at, (&before, first), t1),
        call_ensures(PythonRuntime::uptime_at, (&after, second), t2),
    ensures
        duration_nanos(t1) <= duration_nanos(t2),
{
}

/// A round that ran gives its output, and one that did not says why.
pub proof fn law_attempts_are_answered(
    reason: String,
    timed_out: Result<RoundOutput, String>,
    not_run: Result<RoundOutput, String>,
)
    requires
        call_ensures(PythonRuntime::collect_output, (RoundAttempt::TimedOut,), timed_out),
        call_ensures(PythonRuntime::collect_output, (RoundAttempt::NotRun(reason),), not_run),
    ensures
        timed_out matches Err(e) && e@ == "Python REPL round timed out after 120s"@,
        not_run matches Err(e) && e@ == "Failed to execute python3: "@ + reason@,
{
    reveal_strlit("Python REPL round timed out after ");
    reveal_strlit("s");
    reveal_strlit("Python REPL round timed out after 120s");
    number::law_decimal_places(0, 1);
    number::law_decimal_places(1, 2);
    number::law_decimal_places(12, 0);
    reveal_with_fuel(number::decimal, 4);
    assert(number::decimal(120) =~= seq!['1', '2', '0']);
    assert(timed_out->Err_0@ =~= "Python REPL round timed out after 120s"@);
}

/// A process that writes the UTF-8 of a text is read as that text.
pub proof fn law_utf8_output_is_read_back(
    stdout: Vec<u8>,
    stderr: Vec<u8>,
    success: bool,
    out_text: Seq<char>,
    err_text: Seq<char>,
    r: Result<RoundOutput, String>,
)
    requires
        stdout@ == vstd::utf8::encode_utf8(out_text),
        stderr@ == vstd::utf8::encode_utf8(err_text),
        call_ensures(
            PythonRuntime::collect_output,
            (RoundAttempt::Ran { stdout, stderr, success },),
            r,
        ),
    ensures
        r matches Ok(o) && o.full_stdout@ == out_text && o.stderr@ == err_text && o.success
            == success,
{
    vstd::utf8::encode_utf8_valid_utf8(out_text);
    vstd::utf8::encode_utf8_valid_utf8(err_text);
    vstd::utf8::encode_utf8_decode_utf8(out_text);
    vstd::utf8::encode_utf8_decode_utf8(err_text);
}

/// A round shows what cleaning and then truncating its output to the limit of the runtime gives,
/// fails with its process alone, and hands everything else on as it came.
pub proof fn law_round_is_cleaned_then_truncated(
    runtime: PythonRuntime,
    round: RoundOutput,
    display: &str,
    final_value: Option<String>,
    elapsed: Duration,
    limit: usize,
    cleaned: String,
    cleaned_text: &str,
    truncated: String,
    r: ReplRound,
)
    requires
        limit == runtime.limit(),
        call_ensures(output::clean_repl_output, (display,), cleaned),
        cleaned_text@ == cleaned@,
        call_ensures(output::truncate_stdout, (cleaned_text, limit), truncated),
        call_ensures(
            PythonRuntime::finish_round,
            (&runtime, round, display, final_value, elapsed),
            r,
        ),
    ensures
        r.stdout@ == truncated@,
        r.full_stdout@ == round.full_stdout@,
        r.stderr@ == round.stderr@,
        r.has_error == !round.success,
        r.final_value == final_value,
        r.elapsed == elapsed,
{
}

/// The next round runs `python3` on the script of its code and its number, with the state file and
/// the extra variables of the runtime, and changes nothing of the runtime but the count.
pub proof fn law_round_runs_its_script(
    runtime: &mut PythonRuntime,
    code: &str,
    round: u64,
    script: String,
    plan: RoundPlan,
)
    requires
        round == runtime.rounds() + 1,
        call_ensures(script::build_script, (code, round), script),
        call_ensures(PythonRuntime::begin_round, (runtime, code), plan),
    ensures
        plan.program@ == "python3"@,
        plan.args@.len() == 3,
        plan.args@[0]@ == "-u"@,
        plan.args@[1]@ == "-c"@,
        plan.args@[2]@ == script@,
        plan.env@.len() == old(runtime).extra_env().len() + 1,
        plan.env@[0].0@ == "REPL_STATE_FILE"@,
        plan.env@[0].1@ == path_text(old(runtime).state_path()),
        forall|i: int|
            0 <= i < old(runtime).extra_env().len() ==> {
                &&& (#[trigger] plan.env@[i + 1]).0@ == old(runtime).extra_env()[i].0
                &&& plan.env@[i + 1].1@ == old(runtime).extra_env()[i].1
            },
        final(runtime).rounds() == old(runtime).rounds() + 1,
        final(runtime).extra_env() == old(runtime).extra_env(),
        final(runtime).state_path() == old(runtime).state_path(),
        final(runtime).limit() == old(runtime).limit(),
        final(runtime).started() == old(runtime).started(),
{
}

/// A round after a call of `set_env` sees the value that was set, and every other variable as it
/// would have without that; nothing else of the runtime changes.
pub proof fn law_set_env_reaches_the_rounds(
    runtime: &mut PythonRuntime,
    key: &str,
    value: &str,
    other: Seq<char>,
)
    requires
        call_ensures(PythonRuntime::set_env::<&str, &str>, (runtime, key, value), ()),
    ensures
        environment::env_value(final(runtime).round_env(), key@) == Some(value@),
        other != key@ ==> environment::env_value(final(runtime).round_env(), other)
            == environment::env_value(old(runtime).round_env(), other),
        final(runtime).extra_env().len() <= old(runtime).extra_env().len() + 1,
        final(runtime).extra_env().last() == (key@, value@),
        final(runtime).rounds() == old(runtime).rounds(),
        final(runtime).state_path() == old(runtime).state_path(),
        final(runtime).limit() == old(runtime).limit(),
        final(runtime).started() == old(runtime).started(),
{
    law_round_env_after_set(*runtime, *final(runtime), key@, value@, other);
    runtime.extra_env().lemma_filter_len(environment::other_than(key@));
}

/// A runtime starts without rounds and without extra variables, with its state file, and shows at
/// most 8192 bytes of a round.
pub proof fn law_runtime_starts_fresh(path: PathBuf, runtime: PythonRuntime, n: u64)
    requires
        call_ensures(PythonRuntime::with_state_path, (path,), runtime),
        call_ensures(PythonRuntime::round_count, (&runtime,), n),
    ensures
        n == 0,
        runtime.state_path() == path,
        runtime.limit() == 8192,
        runtime.extra_env().len() == 0,
{
}

/// A runtime is made if and only if the directory for its state file was, and keeps the file
/// there, under the number of its process.
pub proof fn law_state_file_is_below_the_temp_dir(
    made: Result<(), String>,
    temp_dir: PathBuf,
    pid: u32,
    r: Result<PythonRuntime, String>,
)
    requires
        call_ensures(PythonRuntime::new, (made, &temp_dir, pid), r),
    ensures
        made is Ok <==> r is Ok,
        r matches Ok(runtime) ==> {
            &&& runtime.state_path() == path_join(
                path_join(temp_dir, "deepseek_repl"@),
                "state_"@ + number::decimal(pid as nat) + ".json"@,
            )
            &&& runtime.limit() == 8192
            &&& runtime.rounds() == 0
            &&& runtime.extra_env().len() == 0
        },
        r matches Err(e) ==> e@ == "Failed to create REPL temp dir: "@ + made->Err_0@,
{
}

/// The number of rounds that a runtime tells is the number of those that it has started.
pub proof fn law_rounds_are_counted(
    runtime: &mut PythonRuntime,
    code: &str,
    plan: RoundPlan,
    before: u64,
    after: u64,
)
    requires
        call_ensures(PythonRuntime::round_count, (&*runtime,), before),
        call_ensures(PythonRuntime::begin_round, (runtime, code), plan),
        call_ensures(PythonRuntime::round_count, (&*final(runtime),), after),
    ensures
        after == before + 1,
{
}

} // verus!
