//! Execution engine.
//!
//! The engine owns at most one in-flight external command. Starting a
//! command first cancels whatever still runs, resets the result, and hands
//! the caller a spawn directive with the channel endpoints the worker tasks
//! use; the caller performs the actual process work and feeds events back.
//! Polling drains the event channel into the result without blocking. The
//! built-in `cd` never spawns: the caller attempts the directory change and
//! reports the outcome back synchronously.

use std::sync::mpsc::Receiver;
use std::sync::mpsc::Sender;
use std::time::Instant;
use vstd::prelude::*;
use vstd::string::StringExecFns;

verus! {

/// How long a privileged-session credential stays fresh, in milliseconds.
pub const SUDO_SESSION_MILLIS: u64 = 900000;

/// How many events one poll drains at most, so that a poll call is bounded
/// even while the workers keep producing; what remains arrives on the next
/// poll.
pub const POLL_BUDGET: usize = 4096;

/// Result of command execution.
#[derive(Debug)]
pub struct ExecutionResult {
    /// Exit code of the command.
    pub exit_code: Option<i32>,
    /// Standard output lines.
    pub stdout: Vec<String>,
    /// Standard error lines.
    pub stderr: Vec<String>,
}

/// Type of output from command execution: the only values that cross from
/// the reader tasks to the polling consumer.
#[derive(Debug)]
pub enum ExecutionOutput {
    /// Standard output line.
    Stdout(String),
    /// Standard error line.
    Stderr(String),
    /// Command finished with exit code.
    Finished(Option<i32>),
}

/// Errors of the engine's synchronous entry points.
#[derive(Debug, Clone, PartialEq, Eq, Structural)]
pub enum ExecError {
    /// The command line held no words at all.
    EmptyCommand,
}

#[verifier::external_type_specification]
#[verifier::external_body]
#[verifier::reject_recursive_types(T)]
pub struct ExSender<T>(Sender<T>);

#[verifier::external_type_specification]
#[verifier::external_body]
#[verifier::reject_recursive_types(T)]
pub struct ExReceiver<T>(Receiver<T>);

#[verifier::external_type_specification]
#[verifier::external_body]
pub struct ExInstant(Instant);

/// Relies on `std::sync::mpsc::channel`: yields a connected sender/receiver
/// pair.
#[verifier::external_body]
fn make_channel<T>() -> (Sender<T>, Receiver<T>) {
    std::sync::mpsc::channel()
}

/// Relies on `Receiver::try_recv`: a non-blocking receive. What arrives, if
/// anything, depends on the sending workers, so nothing is promised of the
/// value; an empty as well as a disconnected channel yields `None`.
#[verifier::external_body]
fn try_recv_event(rx: &Receiver<ExecutionOutput>) -> Option<ExecutionOutput> {
    match rx.try_recv() {
        Ok(ev) => Some(ev),
        Err(_) => None,
    }
}

/// Relies on `Sender::send`: hands one cancellation signal to the channel.
/// A send to a channel whose receiver is gone is ignored: the command is
/// already dead, which is all a cancellation asks for.
#[verifier::external_body]
fn send_cancel(tx: &Sender<()>) {
    let _ = tx.send(());
}

/// Relies on `Instant::now`: a reading of the monotonic clock; nothing is
/// promised of its value.
#[verifier::external_body]
fn instant_now() -> Instant {
    Instant::now()
}

/// Relies on `Instant::elapsed`: the time since the reading was taken; the
/// value depends on the clock, so nothing is promised of it.
#[verifier::external_body]
fn elapsed_of(t: &Instant) -> std::time::Duration {
    t.elapsed()
}

/// Relies on `Duration::as_millis`: the duration in whole milliseconds,
/// truncated into the return type.
#[verifier::external_body]
fn millis_of(d: &std::time::Duration) -> u64 {
    d.as_millis() as u64
}

/// ASCII whitespace: the separators of the engine's command-line split.
///
/// This split is independent of, and simpler than, the editor's quote-aware
/// tokenizer: quoted arguments with embedded spaces are not preserved here.
pub open spec fn is_ascii_ws(c: char) -> bool {
    c == ' ' || c == '\t' || c == '\n' || c == '\r' || c == '\u{c}'
}

fn is_ascii_ws_exec(c: char) -> (r: bool)
    ensures
        r == is_ascii_ws(c),
{
    c == ' ' || c == '\t' || c == '\n' || c == '\r' || c == '\u{c}'
}

/// The whitespace split carried from character index `i` to the end of `s`,
/// with the words found so far and the word in progress.
pub open spec fn ws_scan(acc: Seq<Seq<char>>, cur: Seq<char>, s: Seq<char>, i: int) -> Seq<
    Seq<char>,
>
    decreases s.len() - i,
{
    if i < 0 || i >= s.len() {
        if cur.len() > 0 {
            acc.push(cur)
        } else {
            acc
        }
    } else if is_ascii_ws(s[i]) {
        if cur.len() > 0 {
            ws_scan(acc.push(cur), seq![], s, i + 1)
        } else {
            ws_scan(acc, seq![], s, i + 1)
        }
    } else {
        ws_scan(acc, cur.push(s[i]), s, i + 1)
    }
}

/// The words of a command line: maximal runs of characters between ASCII
/// whitespace.
pub open spec fn split_ws(s: Seq<char>) -> Seq<Seq<char>> {
    ws_scan(seq![], seq![], s, 0)
}

/// Split a command line on ASCII whitespace.
fn split_command(line: &str) -> (parts: Vec<String>)
    ensures
        parts.deep_view() == split_ws(line@),
{
    let ghost s: Seq<char> = line@;
    let chars = crate::input::chars_of(line);
    let n = chars.len();
    let mut parts: Vec<String> = Vec::new();
    let mut cur: String = String::new();
    let mut i: usize = 0;
    proof {
        assert(parts.deep_view() =~= Seq::<Seq<char>>::empty());
        assert(cur@ =~= Seq::<char>::empty());
    }
    while i < n
        invariant
            i <= n,
            n == s.len(),
            chars@ == s,
            ws_scan(parts.deep_view(), cur@, s, i as int) == split_ws(s),
        decreases n - i,
    {
        let ghost prev_acc = parts.deep_view();
        let ghost prev_cur = cur@;
        proof {
            assert(ws_scan(prev_acc, prev_cur, s, i as int) == split_ws(s));
        }
        let c = chars[i];
        if is_ascii_ws_exec(c) {
            if !cur.as_str().is_empty() {
                let ghost pushed = cur@;
                parts.push(cur);
                cur = String::new();
                proof {
                    assert(parts.deep_view() =~= prev_acc.push(pushed));
                    assert(cur@ =~= Seq::<char>::empty());
                    assert(ws_scan(prev_acc, prev_cur, s, i as int) == ws_scan(
                        prev_acc.push(prev_cur),
                        seq![],
                        s,
                        i as int + 1,
                    ));
                }
            } else {
                proof {
                    assert(prev_cur =~= Seq::<char>::empty());
                    assert(ws_scan(prev_acc, prev_cur, s, i as int) == ws_scan(
                        prev_acc,
                        seq![],
                        s,
                        i as int + 1,
                    ));
                    assert(cur@ =~= seq![]);
                }
            }
        } else {
            crate::input::push_char(&mut cur, c);
            proof {
                assert(ws_scan(prev_acc, prev_cur, s, i as int) == ws_scan(
                    prev_acc,
                    prev_cur.push(s[i as int]),
                    s,
                    i as int + 1,
                ));
            }
        }
        i = i + 1;
    }
    if !cur.as_str().is_empty() {
        let ghost prev_acc = parts.deep_view();
        let ghost pushed = cur@;
        parts.push(cur);
        proof {
            assert(parts.deep_view() =~= prev_acc.push(pushed));
        }
    }
    parts
}

/// Whether a command line invokes the privileged-execution prefix with at
/// least one following argument.
pub open spec fn is_sudo_invocation(s: Seq<char>) -> bool {
    split_ws(s).len() >= 2 && split_ws(s)[0] == "sudo"@
}

impl ExecutionResult {
    /// True when no output has arrived and no exit code is set.
    pub open spec fn is_empty_spec(self) -> bool {
        &&& self.exit_code is None
        &&& self.stdout@ == Seq::<String>::empty()
        &&& self.stderr@ == Seq::<String>::empty()
    }

    /// Apply one output event: an output line appends to its stream and
    /// leaves the exit code alone; a `Finished` event touches neither stream
    /// and hands its exit code back.
    pub fn apply_event(&mut self, ev: ExecutionOutput) -> (fin: Option<Option<i32>>)
        ensures
            match ev {
                ExecutionOutput::Stdout(line) => {
                    &&& final(self).stdout@ == old(self).stdout@.push(line)
                    &&& final(self).stderr@ == old(self).stderr@
                    &&& final(self).exit_code == old(self).exit_code
                    &&& fin is None
                },
                ExecutionOutput::Stderr(line) => {
                    &&& final(self).stdout@ == old(self).stdout@
                    &&& final(self).stderr@ == old(self).stderr@.push(line)
                    &&& final(self).exit_code == old(self).exit_code
                    &&& fin is None
                },
                ExecutionOutput::Finished(code) => {
                    &&& *final(self) == *old(self)
                    &&& fin == Some(code)
                },
            },
    {
        match ev {
            ExecutionOutput::Stdout(line) => {
                self.stdout.push(line);
                None
            },
            ExecutionOutput::Stderr(line) => {
                self.stderr.push(line);
                None
            },
            ExecutionOutput::Finished(code) => Some(code),
        }
    }
}

impl Default for ExecutionResult {
    fn default() -> (r: Self)
        ensures
            r.is_empty_spec(),
    {
        ExecutionResult { exit_code: None, stdout: Vec::new(), stderr: Vec::new() }
    }
}

/// What a start call asks its caller to do next. The engine has already
/// cancelled the previous command and reset the result either way.
pub enum StartOutcome {
    /// The built-in `cd`, run synchronously and never spawned: the caller
    /// attempts the directory change (to the target, or to the user's home
    /// directory when there is none) and reports back through
    /// `record_cd_success` or `record_cd_failure`.
    ChangeDir {
        /// The requested target directory, if one was given.
        target: Option<String>,
    },
    /// An external program to spawn with both output streams captured. The
    /// spawned workers push lines and the final `Finished` event into
    /// `events`; a cancellation request, when one comes, waits on `cancel`.
    Spawn {
        /// The program name: the command line's first word.
        program: String,
        /// The remaining words, passed as arguments.
        args: Vec<String>,
        /// The worker's sending end of the event stream.
        events: Sender<ExecutionOutput>,
        /// The worker's receiving end for cancellation.
        cancel: Receiver<()>,
    },
}

/// A privileged start: the caller spawns the privileged-execution wrapper,
/// writes `password_line` to its standard input before consuming any output,
/// then proceeds as for any spawned command.
pub struct SudoStart {
    /// The command line's words after the leading `sudo` itself.
    pub rest_args: Vec<String>,
    /// The secret with its trailing newline, written to the child once and
    /// not retained by the engine.
    pub password_line: String,
    /// The worker's sending end of the event stream.
    pub events: Sender<ExecutionOutput>,
    /// The worker's receiving end for cancellation.
    pub cancel: Receiver<()>,
}

/// Command executor: the engine's state between start calls.
pub struct Executor {
    /// Channel for receiving command output; present exactly while a spawned
    /// command counts as running.
    output_rx: Option<Receiver<ExecutionOutput>>,
    /// Channel for sending the termination signal.
    terminate_tx: Option<Sender<()>>,
    /// Current execution result.
    result: ExecutionResult,
    /// Reading of the monotonic clock at the last privileged invocation.
    sudo_timestamp: Option<Instant>,
}

impl Executor {
    /// Whether a spawned command counts as running: its event channel is
    /// still attached.
    pub closed spec fn is_running_spec(self) -> bool {
        self.output_rx is Some
    }

    /// The current execution result.
    pub closed spec fn result_spec(self) -> ExecutionResult {
        self.result
    }

    /// Whether a privileged invocation has ever stamped the session.
    pub closed spec fn has_sudo_timestamp(self) -> bool {
        self.sudo_timestamp is Some
    }
}

impl Default for Executor {
    fn default() -> (r: Self)
        ensures
            !r.is_running_spec(),
            r.result_spec().is_empty_spec(),
            !r.has_sudo_timestamp(),
    {
        Executor {
            output_rx: None,
            terminate_tx: None,
            result: ExecutionResult::default(),
            sudo_timestamp: None,
        }
    }
}

impl Executor {
    /// Create a new command executor.
    pub fn new() -> (r: Self)
        ensures
            !r.is_running_spec(),
            r.result_spec().is_empty_spec(),
            !r.has_sudo_timestamp(),
    {
        Self::default()
    }

    /// Start a command.
    ///
    /// Any running command is cancelled first and the result is reset: the
    /// next start is itself the engine's only reset. The line splits on ASCII
    /// whitespace, with no quoting; an all-whitespace line is refused. The
    /// built-in `cd` comes back as a directive and spawns nothing; everything
    /// else comes back as a spawn directive with fresh channels, and the
    /// engine counts as running. A privileged invocation found to be inside
    /// the session window re-stamps the session before the child confirms
    /// anything; this optimistic extension is deliberate.
    pub fn execute(&mut self, command: &str) -> (res: Result<StartOutcome, ExecError>)
        ensures
            final(self).result_spec().is_empty_spec(),
            old(self).has_sudo_timestamp() == final(self).has_sudo_timestamp(),
            !is_sudo_invocation(command@) ==> final(self).sudo_unchanged(*old(self)),
            res is Err <==> split_ws(command@).len() == 0,
            match res {
                Err(e) => {
                    &&& e == ExecError::EmptyCommand
                    &&& !final(self).is_running_spec()
                },
                Ok(out) => match out {
                    StartOutcome::ChangeDir { target } => {
                        &&& split_ws(command@)[0] == "cd"@
                        &&& !final(self).is_running_spec()
                        &&& final(self).sudo_unchanged(*old(self))
                        &&& (split_ws(command@).len() >= 2 ==> target is Some && target->0@
                            == split_ws(command@)[1])
                        &&& (split_ws(command@).len() == 1 ==> target is None)
                    },
                    StartOutcome::Spawn { program, args, events, cancel } => {
                        &&& split_ws(command@)[0] != "cd"@
                        &&& program@ == split_ws(command@)[0]
                        &&& args.deep_view() == split_ws(command@).drop_first()
                        &&& final(self).is_running_spec()
                    },
                },
            },
    {
        self.terminate();
        self.result = ExecutionResult::default();

        let mut parts = split_command(command);
        if parts.len() == 0 {
            return Err(ExecError::EmptyCommand);
        }
        let ghost words = split_ws(command@);
        let program = parts.remove(0);
        let mut args = parts;
        proof {
            assert(program@ == words[0]);
            assert(args.deep_view() =~= words.drop_first());
        }

        if program == String::from_str("cd") {
            let target: Option<String> = if args.len() == 0 {
                None
            } else {
                Some(args.remove(0))
            };
            return Ok(StartOutcome::ChangeDir { target });
        }

        if program == String::from_str("sudo") && args.len() > 0 {
            if self.is_sudo_session_valid() {
                self.sudo_timestamp = Some(instant_now());
            }
        }

        let (events_tx, events_rx) = make_channel();
        let (cancel_tx, cancel_rx) = make_channel();
        self.output_rx = Some(events_rx);
        self.terminate_tx = Some(cancel_tx);

        Ok(StartOutcome::Spawn { program, args, events: events_tx, cancel: cancel_rx })
    }

    /// The privileged-session timestamp is the very value it was.
    pub closed spec fn sudo_unchanged(self, prev: Self) -> bool {
        self.sudo_timestamp == prev.sudo_timestamp
    }

    /// Start a privileged command with a credential.
    ///
    /// Any running command is cancelled first and the result is reset. The
    /// session is stamped before the child confirms the credential — the
    /// optimistic extension again, preserved deliberately. The caller spawns
    /// the privileged wrapper with the returned arguments and writes the
    /// password line to its standard input before consuming output.
    pub fn execute_sudo(&mut self, command: &str, password: &str) -> (start: SudoStart)
        ensures
            final(self).result_spec().is_empty_spec(),
            final(self).has_sudo_timestamp(),
            final(self).is_running_spec(),
            split_ws(command@).len() == 0 ==> start.rest_args.deep_view() == Seq::<
                Seq<char>,
            >::empty(),
            split_ws(command@).len() > 0 ==> start.rest_args.deep_view() == split_ws(
                command@,
            ).drop_first(),
            start.password_line@ == password@ + "\n"@,
    {
        self.terminate();
        self.result = ExecutionResult::default();

        let mut parts = split_command(command);
        if parts.len() > 0 {
            let _first = parts.remove(0);
        }
        let rest_args = parts;
        proof {
            if split_ws(command@).len() == 0 {
                assert(rest_args.deep_view() =~= Seq::<Seq<char>>::empty());
            } else {
                assert(rest_args.deep_view() =~= split_ws(command@).drop_first());
            }
        }

        let password_line = String::from_str(password).concat("\n");

        self.sudo_timestamp = Some(instant_now());

        let (events_tx, events_rx) = make_channel();
        let (cancel_tx, cancel_rx) = make_channel();
        self.output_rx = Some(events_rx);
        self.terminate_tx = Some(cancel_tx);

        SudoStart { rest_args, password_line, events: events_tx, cancel: cancel_rx }
    }

    /// Whether an elapsed time in milliseconds still falls inside the
    /// privileged-session window. The clock readout happens outside; this is
    /// the decision the engine applies to whatever it reads.
    pub fn session_valid_for(elapsed_ms: u64) -> (r: bool)
        ensures
            r == (elapsed_ms < SUDO_SESSION_MILLIS),
    {
        elapsed_ms < SUDO_SESSION_MILLIS
    }

    /// Check if the privileged session is still valid: a credential (or an
    /// optimistic re-stamp) lies less than the session window ago. Advisory
    /// only: the engine itself enforces nothing with it. Without any stamp
    /// the session is never valid; with one, the answer follows the clock.
    pub fn is_sudo_session_valid(&self) -> (r: bool)
        ensures
            !self.has_sudo_timestamp() ==> r == false,
    {
        match &self.sudo_timestamp {
            Some(t) => {
                let d = elapsed_of(t);
                let ms = millis_of(&d);
                Self::session_valid_for(ms)
            },
            None => false,
        }
    }

    /// Check for new output from the command: drain what waits on the event
    /// channel into the result, without blocking.
    ///
    /// Output lines append to their streams in arrival order; old lines are
    /// never touched. A `Finished` event records the exit code and detaches
    /// the channels: the engine then no longer counts as running. Safe to
    /// call with nothing pending — it reports whether anything arrived. At
    /// most `POLL_BUDGET` events drain per call, so a poll stays bounded even
    /// while workers keep producing; the rest arrive on the next poll.
    pub fn check_output(&mut self) -> (updated: bool)
        ensures
            final(self).sudo_unchanged(*old(self)),
            final(self).result_spec().stdout@.len() >= old(self).result_spec().stdout@.len(),
            final(self).result_spec().stdout@.take(old(self).result_spec().stdout@.len() as int)
                == old(self).result_spec().stdout@,
            final(self).result_spec().stderr@.len() >= old(self).result_spec().stderr@.len(),
            final(self).result_spec().stderr@.take(old(self).result_spec().stderr@.len() as int)
                == old(self).result_spec().stderr@,
            !updated ==> *final(self) == *old(self),
            !old(self).is_running_spec() ==> !updated,
            final(self).is_running_spec() ==> old(self).is_running_spec(),
            final(self).is_running_spec() ==> final(self).result_spec().exit_code == old(
                self,
            ).result_spec().exit_code,
    {
        let mut updated = false;
        let mut finished = false;
        let mut exit_code: Option<i32> = None;

        let mut rx_opt: Option<Receiver<ExecutionOutput>> = None;
        core::mem::swap(&mut self.output_rx, &mut rx_opt);

        match rx_opt {
            Some(rx) => {
                let mut budget: usize = POLL_BUDGET;
                let mut more = true;
                while more && budget > 0
                    invariant
                        self.terminate_tx == old(self).terminate_tx,
                        self.sudo_timestamp == old(self).sudo_timestamp,
                        self.output_rx is None,
                        self.result.stdout@.len() >= old(self).result.stdout@.len(),
                        self.result.stdout@.take(old(self).result.stdout@.len() as int) == old(
                            self,
                        ).result.stdout@,
                        self.result.stderr@.len() >= old(self).result.stderr@.len(),
                        self.result.stderr@.take(old(self).result.stderr@.len() as int) == old(
                            self,
                        ).result.stderr@,
                        self.result.exit_code == old(self).result.exit_code,
                        !updated ==> self.result == old(self).result && !finished,
                    decreases budget,
                {
                    match try_recv_event(&rx) {
                        Some(ev) => {
                            let fin = self.result.apply_event(ev);
                            proof {
                                assert(self.result.stdout@.take(
                                    old(self).result.stdout@.len() as int,
                                ) =~= old(self).result.stdout@);
                                assert(self.result.stderr@.take(
                                    old(self).result.stderr@.len() as int,
                                ) =~= old(self).result.stderr@);
                            }
                            match fin {
                                Some(code) => {
                                    exit_code = code;
                                    finished = true;
                                },
                                None => {},
                            }
                            updated = true;
                        },
                        None => {
                            more = false;
                        },
                    }
                    budget = budget - 1;
                }
                if finished {
                    self.result.exit_code = exit_code;
                    self.terminate_tx = None;
                } else {
                    self.output_rx = Some(rx);
                }
            },
            None => {},
        }

        updated
    }

    /// Record a successful directory change: the confirmation line, then the
    /// chained listing's output if one ran, land in the result, and the exit
    /// code is 0.
    pub fn record_cd_success(&mut self, dir_display: &str, listing: Option<ExecutionResult>)
        ensures
            final(self).is_running_spec() == old(self).is_running_spec(),
            final(self).sudo_unchanged(*old(self)),
            final(self).result_spec().exit_code == Some(0i32),
            final(self).result_spec().stdout.deep_view() == old(
                self,
            ).result_spec().stdout.deep_view() + seq![cd_success_line(dir_display@)] + (match listing {
                Some(l) => l.stdout.deep_view(),
                None => Seq::<Seq<char>>::empty(),
            }),
            final(self).result_spec().stderr.deep_view() == old(
                self,
            ).result_spec().stderr.deep_view() + (match listing {
                Some(l) => l.stderr.deep_view(),
                None => Seq::<Seq<char>>::empty(),
            }),
    {
        let msg = String::from_str("Changed directory to: ").concat(dir_display);
        let ghost pre_out = self.result.stdout.deep_view();
        let ghost pre_err = self.result.stderr.deep_view();
        self.result.stdout.push(msg);
        proof {
            assert(self.result.stdout.deep_view() =~= pre_out.push(cd_success_line(dir_display@)));
        }
        match listing {
            Some(mut l) => {
                let ghost mid_out = self.result.stdout.deep_view();
                let ghost add_out = l.stdout.deep_view();
                let ghost add_err = l.stderr.deep_view();
                self.result.stdout.append(&mut l.stdout);
                self.result.stderr.append(&mut l.stderr);
                proof {
                    assert(self.result.stdout.deep_view() =~= mid_out + add_out);
                    assert(self.result.stderr.deep_view() =~= pre_err + add_err);
                    assert(mid_out + add_out =~= pre_out + seq![cd_success_line(dir_display@)]
                        + add_out);
                }
            },
            None => {
                proof {
                    assert(self.result.stdout.deep_view() =~= pre_out + seq![
                        cd_success_line(dir_display@),
                    ] + Seq::<Seq<char>>::empty());
                    assert(self.result.stderr.deep_view() =~= pre_err
                        + Seq::<Seq<char>>::empty());
                }
            },
        }
        self.result.exit_code = Some(0);
    }

    /// Record a failed directory change: an error line lands on stderr, the
    /// exit code is 1, and — the caller not having changed it — the working
    /// directory stands as it was.
    pub fn record_cd_failure(&mut self, error_display: &str)
        ensures
            final(self).is_running_spec() == old(self).is_running_spec(),
            final(self).sudo_unchanged(*old(self)),
            final(self).result_spec().exit_code == Some(1i32),
            final(self).result_spec().stdout@ == old(self).result_spec().stdout@,
            final(self).result_spec().stderr.deep_view() == old(
                self,
            ).result_spec().stderr.deep_view().push(cd_failure_line(error_display@)),
    {
        let msg = String::from_str("Failed to change directory: ").concat(error_display);
        let ghost pre_err = self.result.stderr.deep_view();
        self.result.stderr.push(msg);
        proof {
            assert(self.result.stderr.deep_view() =~= pre_err.push(
                cd_failure_line(error_display@),
            ));
        }
        self.result.exit_code = Some(1);
    }

    /// Terminate the running command: send the cancellation signal, if a
    /// command runs, and detach; idempotent, and never waits for the child
    /// to actually die.
    pub fn terminate(&mut self)
        ensures
            !final(self).is_running_spec(),
            final(self).result_spec() == old(self).result_spec(),
            final(self).sudo_unchanged(*old(self)),
    {
        let mut tx_opt: Option<Sender<()>> = None;
        core::mem::swap(&mut self.terminate_tx, &mut tx_opt);
        match tx_opt {
            Some(tx) => send_cancel(&tx),
            None => {},
        }
        self.output_rx = None;
    }

    /// Check if a command is currently running.
    pub fn is_running(&self) -> (r: bool)
        ensures
            r == self.is_running_spec(),
    {
        self.output_rx.is_some()
    }

    /// Get the current execution result.
    pub fn result(&self) -> (r: &ExecutionResult)
        ensures
            *r == self.result_spec(),
    {
        &self.result
    }

    /// Get all output lines: stdout first, then stderr.
    pub fn all_output(&self) -> (r: Vec<String>)
        ensures
            r.deep_view() == self.result_spec().stdout.deep_view()
                + self.result_spec().stderr.deep_view(),
    {
        let mut r: Vec<String> = Vec::new();
        let mut i: usize = 0;
        let n = self.result.stdout.len();
        while i < n
            invariant
                i <= n,
                n == self.result.stdout@.len(),
                r.deep_view() == self.result.stdout.deep_view().take(i as int),
            decreases n - i,
        {
            let ghost prev = r.deep_view();
            let ghost v = self.result.stdout@[i as int];
            r.push(self.result.stdout[i].clone());
            proof {
                assert(r@[r@.len() - 1] == v);
                assert(r.deep_view() =~= prev.push(v@));
                assert(self.result.stdout.deep_view().take(i as int + 1) =~= prev.push(v@));
            }
            i = i + 1;
        }
        let m = self.result.stderr.len();
        let mut j: usize = 0;
        proof {
            assert(self.result.stdout.deep_view().take(n as int) =~= self.result.stdout.deep_view());
        }
        while j < m
            invariant
                j <= m,
                m == self.result.stderr@.len(),
                r.deep_view() == self.result.stdout.deep_view() + self.result.stderr.deep_view().take(
                    j as int,
                ),
            decreases m - j,
        {
            let ghost prev = r.deep_view();
            let ghost v = self.result.stderr@[j as int];
            r.push(self.result.stderr[j].clone());
            proof {
                assert(r@[r@.len() - 1] == v);
                assert(r.deep_view() =~= prev.push(v@));
                assert(self.result.stdout.deep_view() + self.result.stderr.deep_view().take(
                    j as int + 1,
                ) =~= prev.push(v@));
            }
            j = j + 1;
        }
        proof {
            assert(self.result.stderr.deep_view().take(m as int) =~= self.result.stderr.deep_view());
        }
        r
    }
}

/// The confirmation line a successful directory change appends to stdout.
pub open spec fn cd_success_line(dir: Seq<char>) -> Seq<char> {
    "Changed directory to: "@ + dir
}

/// The error line a failed directory change appends to stderr.
pub open spec fn cd_failure_line(err: Seq<char>) -> Seq<char> {
    "Failed to change directory: "@ + err
}

} // verus!
