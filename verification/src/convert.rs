//! Handing the patched manifest to the external converter.
//!
//! Two things are decided here and proved: the exact argument vector the
//! converter is spawned with, and the order of the process interaction. The
//! caller owns the process itself; it performs one action at a time and feeds
//! the outcome back into the state machine, which alone decides what happens
//! next. The machine releases the input pipe's write end before the process
//! is waited on — most converters read standard input to end-of-stream before
//! finalizing output, so waiting with the pipe still open hangs forever.

use vstd::prelude::*;
use vstd::string::*;
use crate::error::{ErrorKind, TwitchError};
use crate::util::push_char;

verus! {

/// A space becomes an underscore; every other character stays.
pub open spec fn despace_char(c: char) -> char {
    if c == ' ' {
        '_'
    } else {
        c
    }
}

/// The destination path with every space replaced by an underscore.
pub open spec fn despace(s: Seq<char>) -> Seq<char> {
    s.map_values(|c: char| despace_char(c))
}

/// Replaces every space in the destination path with an underscore, so the
/// path survives argument handling that splits on whitespace.
pub fn remove_spaces(path: &str) -> (r: String)
    ensures
        r@ == despace(path@),
{
    let n = path.unicode_len();
    let mut out = String::new();
    let mut i: usize = 0;
    proof {
        assert(out@ =~= despace(path@.take(0)));
    }
    while i < n
        invariant
            i <= n,
            n == path@.len(),
            out@ == despace(path@.take(i as int)),
        decreases n - i,
    {
        let c = path.get_char(i);
        if c == ' ' {
            push_char(&mut out, '_');
        } else {
            push_char(&mut out, c);
        }
        proof {
            assert(out@ =~= despace(path@.take(i + 1)));
        }
        i += 1;
    }
    proof {
        assert(path@.take(n as int) =~= path@);
    }
    out
}

/// ASCII whitespace, the separator of caller-supplied argument fragments.
pub open spec fn is_space(c: char) -> bool {
    c == ' ' || c == '\t' || c == '\n' || c == '\r'
}

/// The first position at or after `i` holding whitespace, or the end.
pub open spec fn token_end(s: Seq<char>, i: int) -> int
    decreases s.len() - i,
{
    if i < 0 || i >= s.len() {
        i
    } else if is_space(s[i]) {
        i
    } else {
        token_end(s, i + 1)
    }
}

proof fn lemma_token_end_bounds(s: Seq<char>, i: int)
    requires
        0 <= i <= s.len(),
    ensures
        i <= token_end(s, i) <= s.len(),
    decreases s.len() - i,
{
    if i < s.len() && !is_space(s[i]) {
        lemma_token_end_bounds(s, i + 1);
    }
}

/// The whitespace-separated words of `s` from position `i` on, in order,
/// empty words dropped.
pub open spec fn split_ws_from(s: Seq<char>, i: int) -> Seq<Seq<char>>
    decreases s.len() - i,
        via split_ws_from_dec
{
    if i < 0 || i >= s.len() {
        Seq::empty()
    } else if is_space(s[i]) {
        split_ws_from(s, i + 1)
    } else {
        seq![s.subrange(i, token_end(s, i))] + split_ws_from(s, token_end(s, i))
    }
}

#[via_fn]
proof fn split_ws_from_dec(s: Seq<char>, i: int) {
    if 0 <= i < s.len() && !is_space(s[i]) {
        lemma_token_end_bounds(s, i + 1);
    }
}

/// A maximal non-whitespace run pins down `token_end`.
proof fn lemma_token_end_pin(s: Seq<char>, i: int, j: int)
    requires
        0 <= i <= j <= s.len(),
        forall|k: int| i <= k < j ==> !is_space(#[trigger] s[k]),
        j == s.len() || is_space(s[j]),
    ensures
        token_end(s, i) == j,
    decreases j - i,
{
    if i < j {
        lemma_token_end_pin(s, i + 1, j);
    }
}

/// Whether the character of `s` at position `i` is ASCII whitespace.
fn space_at(s: &str, i: usize) -> (b: bool)
    requires
        i < s@.len(),
    ensures
        b == is_space(s@[i as int]),
{
    let c = s.get_char(i);
    c == ' ' || c == '\t' || c == '\n' || c == '\r'
}

/// Splits a caller-supplied argument fragment on whitespace, as the argument
/// vector is built word by word. The separator set is ASCII whitespace
/// (space, tab, carriage return, line feed), not the full Unicode whitespace
/// of a general splitter.
pub fn split_args(s: &str) -> (r: Vec<String>)
    ensures
        r.deep_view() == split_ws_from(s@, 0),
{
    let n = s.unicode_len();
    let mut out: Vec<String> = Vec::new();
    let mut i: usize = 0;
    proof {
        assert(out.deep_view() + split_ws_from(s@, 0) =~= split_ws_from(s@, 0));
    }
    while i < n
        invariant
            i <= n,
            n == s@.len(),
            split_ws_from(s@, 0) == out.deep_view() + split_ws_from(s@, i as int),
        decreases n - i,
    {
        if space_at(s, i) {
            i += 1;
        } else {
            let mut j = i + 1;
            while j < n && !space_at(s, j)
                invariant
                    i < j <= n,
                    n == s@.len(),
                    forall|k: int| i <= k < j ==> !is_space(#[trigger] s@[k]),
                decreases n - j,
            {
                j += 1;
            }
            proof {
                lemma_token_end_pin(s@, i as int, j as int);
            }
            let w = s.substring_char(i, j);
            let ghost dv_before = out.deep_view();
            out.push(w.to_owned());
            proof {
                assert(out.deep_view() =~= dv_before.push(s@.subrange(i as int, j as int)));
                assert(split_ws_from(s@, i as int) == seq![s@.subrange(i as int, j as int)]
                    + split_ws_from(s@, j as int));
                assert(dv_before.push(s@.subrange(i as int, j as int)) + split_ws_from(
                    s@, j as int) =~= dv_before + split_ws_from(s@, i as int));
            }
            i = j;
        }
    }
    proof {
        assert(out.deep_view() + split_ws_from(s@, n as int) =~= out.deep_view());
    }
    out
}

/// The words of an optional argument fragment; nothing when none was given.
pub open spec fn opt_split(o: Option<Seq<char>>) -> Seq<Seq<char>> {
    match o {
        Some(s) => split_ws_from(s, 0),
        None => Seq::empty(),
    }
}

/// The fixed flags the converter is always started with: overwrite the
/// destination, keep the log level, restrict input schemes to the small set
/// the platform uses, and declare the input format as HLS.
pub open spec fn fixed_converter_args() -> Seq<Seq<char>> {
    seq![
        "-y"@,
        "-loglevel"@,
        "info"@,
        "-protocol_whitelist"@,
        "http,https,tls,tcp,file,pipe"@,
        "-f"@,
        "hls"@,
    ]
}

/// The full argument vector: fixed flags, the caller's input arguments,
/// `-i pipe:0` (read from the pipe), the caller's output arguments, and the
/// space-sanitized destination path last.
pub open spec fn converter_args(
    input_args: Option<Seq<char>>,
    output_args: Option<Seq<char>>,
    out_file: Seq<char>,
) -> Seq<Seq<char>> {
    fixed_converter_args() + opt_split(input_args) + seq!["-i"@, "pipe:0"@] + opt_split(
        output_args,
    ) + seq![despace(out_file)]
}

/// Builds the converter's argument vector as a structured list, one word per
/// element, ending with the sanitized destination path. The path is passed
/// through as one argument even when empty: handing the converter an empty
/// destination is its caller's mistake to see, not this layer's to hide.
pub fn build_converter_args(
    input_args: Option<&str>,
    output_args: Option<&str>,
    out_file: &str,
) -> (r: Vec<String>)
    ensures
        r.deep_view() == converter_args(
            match input_args {
                Some(a) => Some(a@),
                None => None,
            },
            match output_args {
                Some(a) => Some(a@),
                None => None,
            },
            out_file@,
        ),
{
    let mut args: Vec<String> = Vec::new();
    args.push("-y".to_owned());
    args.push("-loglevel".to_owned());
    args.push("info".to_owned());
    args.push("-protocol_whitelist".to_owned());
    args.push("http,https,tls,tcp,file,pipe".to_owned());
    args.push("-f".to_owned());
    args.push("hls".to_owned());
    proof {
        assert(args.deep_view() =~= fixed_converter_args());
    }
    let ghost in_view: Option<Seq<char>> = match input_args {
        Some(a) => Some(a@),
        None => None,
    };
    let ghost out_view: Option<Seq<char>> = match output_args {
        Some(a) => Some(a@),
        None => None,
    };
    match input_args {
        Some(a) => {
            let mut words = split_args(a);
            args.append(&mut words);
        },
        None => {},
    }
    proof {
        assert(args.deep_view() =~= fixed_converter_args() + opt_split(in_view));
    }
    args.push("-i".to_owned());
    args.push("pipe:0".to_owned());
    proof {
        assert(args.deep_view() =~= fixed_converter_args() + opt_split(in_view) + seq![
            "-i"@,
            "pipe:0"@,
        ]);
    }
    match output_args {
        Some(a) => {
            let mut words = split_args(a);
            args.append(&mut words);
        },
        None => {},
    }
    proof {
        assert(args.deep_view() =~= fixed_converter_args() + opt_split(in_view) + seq![
            "-i"@,
            "pipe:0"@,
        ] + opt_split(out_view));
    }
    args.push(remove_spaces(out_file));
    proof {
        assert(args.deep_view() =~= converter_args(in_view, out_view, out_file@));
    }
    args
}

/// Where the conversion pipeline stands. The write end of the converter's
/// input pipe is still held in `ProcessSpawned` and `StdinWriting`, and has
/// been released in `StdinClosed` and after.
#[derive(Clone, Copy, Debug)]
pub enum PipeState {
    /// Nothing has happened yet; the converter must be spawned.
    NotStarted,
    /// The converter runs and its input pipe is open; the manifest must be
    /// written into it.
    ProcessSpawned,
    /// The manifest has been fully written and flushed; the pipe's write end
    /// must be released.
    StdinWriting,
    /// The write end has been released; only now may the process be waited on.
    StdinClosed,
    /// The process has exited with the recorded status; the verdict is next.
    Waited { code: Option<i32> },
    /// The conversion succeeded.
    Succeeded,
    /// The conversion failed; the error kind says at which step, and a
    /// recorded exit status is kept when one was observed.
    Failed { error: ErrorKind, code: Option<i32> },
}

/// The outcome of one performed action, fed back into the machine.
#[derive(Clone, Copy, Debug)]
pub enum PipeEvent {
    /// The converter process started.
    SpawnOk,
    /// The converter could not be started.
    SpawnFailed,
    /// The whole manifest was written and flushed into the pipe.
    WriteOk,
    /// Writing into the pipe failed.
    WriteFailed,
    /// The pipe's write end was released.
    CloseOk,
    /// The process exited; `None` means it was terminated without a code.
    Exited { code: Option<i32> },
    /// No outside work: the machine turns a recorded exit into a verdict.
    Finalize,
}

/// The next piece of outside work the caller must perform.
#[derive(Clone, Copy, Debug, PartialEq, Eq, Structural)]
pub enum PipeAction {
    /// Spawn the converter with its standard input piped.
    Spawn,
    /// Write the patched manifest into the pipe and flush it.
    WriteManifest,
    /// Release the pipe's write end.
    CloseStdin,
    /// Wait for the process to exit.
    Wait,
    /// Nothing outside: feed `Finalize` back in.
    Finalize,
}

/// The transition relation. An event that does not answer the state's action
/// leaves the state unchanged.
pub open spec fn pipe_next(s: PipeState, e: PipeEvent) -> PipeState {
    match (s, e) {
        (PipeState::NotStarted, PipeEvent::SpawnOk) => PipeState::ProcessSpawned,
        (PipeState::NotStarted, PipeEvent::SpawnFailed) => PipeState::Failed {
            error: ErrorKind::ConverterNotInstalled,
            code: None,
        },
        (PipeState::ProcessSpawned, PipeEvent::WriteOk) => PipeState::StdinWriting,
        (PipeState::ProcessSpawned, PipeEvent::WriteFailed) => PipeState::Failed {
            error: ErrorKind::PipeWriteFailed,
            code: None,
        },
        (PipeState::StdinWriting, PipeEvent::CloseOk) => PipeState::StdinClosed,
        (PipeState::StdinClosed, PipeEvent::Exited { code }) => PipeState::Waited { code },
        (PipeState::Waited { code }, PipeEvent::Finalize) => if code == Some(0i32) {
            PipeState::Succeeded
        } else {
            PipeState::Failed { error: ErrorKind::ConversionFailed, code }
        },
        (other, _) => other,
    }
}

/// Which action each state asks for; terminal states ask for none.
pub open spec fn pipe_action_of(s: PipeState) -> Option<PipeAction> {
    match s {
        PipeState::NotStarted => Some(PipeAction::Spawn),
        PipeState::ProcessSpawned => Some(PipeAction::WriteManifest),
        PipeState::StdinWriting => Some(PipeAction::CloseStdin),
        PipeState::StdinClosed => Some(PipeAction::Wait),
        PipeState::Waited { .. } => Some(PipeAction::Finalize),
        PipeState::Succeeded => None,
        PipeState::Failed { .. } => None,
    }
}

/// Advances the conversion by one recorded outcome.
pub fn pipe_step(state: PipeState, event: PipeEvent) -> (r: PipeState)
    ensures
        r == pipe_next(state, event),
{
    match (state, event) {
        (PipeState::NotStarted, PipeEvent::SpawnOk) => PipeState::ProcessSpawned,
        (PipeState::NotStarted, PipeEvent::SpawnFailed) => PipeState::Failed {
            error: ErrorKind::ConverterNotInstalled,
            code: None,
        },
        (PipeState::ProcessSpawned, PipeEvent::WriteOk) => PipeState::StdinWriting,
        (PipeState::ProcessSpawned, PipeEvent::WriteFailed) => PipeState::Failed {
            error: ErrorKind::PipeWriteFailed,
            code: None,
        },
        (PipeState::StdinWriting, PipeEvent::CloseOk) => PipeState::StdinClosed,
        (PipeState::StdinClosed, PipeEvent::Exited { code }) => PipeState::Waited { code },
        (PipeState::Waited { code }, PipeEvent::Finalize) => {
            match code {
                Some(c) if c == 0 => PipeState::Succeeded,
                _ => PipeState::Failed { error: ErrorKind::ConversionFailed, code },
            }
        },
        (other, _) => other,
    }
}

/// Which action the caller must perform next; `None` once the conversion has
/// reached a verdict.
pub fn next_pipe_action(state: &PipeState) -> (r: Option<PipeAction>)
    ensures
        r == pipe_action_of(*state),
{
    match state {
        PipeState::NotStarted => Some(PipeAction::Spawn),
        PipeState::ProcessSpawned => Some(PipeAction::WriteManifest),
        PipeState::StdinWriting => Some(PipeAction::CloseStdin),
        PipeState::StdinClosed => Some(PipeAction::Wait),
        PipeState::Waited { .. } => Some(PipeAction::Finalize),
        PipeState::Succeeded => None,
        PipeState::Failed { .. } => None,
    }
}

/// The user-facing message of each conversion failure.
pub open spec fn pipe_failure_message(k: ErrorKind) -> Seq<char> {
    match k {
        ErrorKind::ConverterNotInstalled => "FFmpeg could not be started!\nPlease install it by either downloading and placing the executable in the same directory as twitch_archiver, or install it globally by adding the FFmpeg directory to your PATH variable (or equivalent for non-windows systems)\nhttps://ffmpeg.org/download.html"@,
        ErrorKind::PipeWriteFailed => "Could not pipe input to ffmpeg!"@,
        ErrorKind::ConversionFailed => "FFmpeg did not exit with code 0 (OK). Please check FFmpeg output logs above."@,
        _ => ""@,
    }
}

/// The verdict of a finished conversion: success, or the failure with its
/// canonical message; `None` while the machine still asks for work.
pub fn pipe_outcome(state: &PipeState) -> (r: Option<Result<(), TwitchError>>)
    ensures
        *state is Succeeded ==> (r matches Some(o) && o is Ok),
        *state matches PipeState::Failed { error, code } ==> (r matches Some(o) && o matches Err(
            e,
        ) && e.kind == error && e.message@ == pipe_failure_message(error)),
        !(*state is Succeeded || *state is Failed) ==> r is None,
{
    match state {
        PipeState::Succeeded => Some(Ok(())),
        PipeState::Failed { error, code: _ } => {
            let m: String = match error {
                ErrorKind::ConverterNotInstalled => "FFmpeg could not be started!\nPlease install it by either downloading and placing the executable in the same directory as twitch_archiver, or install it globally by adding the FFmpeg directory to your PATH variable (or equivalent for non-windows systems)\nhttps://ffmpeg.org/download.html".to_owned(),
                ErrorKind::PipeWriteFailed => "Could not pipe input to ffmpeg!".to_owned(),
                ErrorKind::ConversionFailed => "FFmpeg did not exit with code 0 (OK). Please check FFmpeg output logs above.".to_owned(),
                _ => "".to_owned(),
            };
            Some(Err(TwitchError::with_msg(*error, m)))
        },
        _ => None,
    }
}

/// The machine run over a whole sequence of recorded outcomes.
pub open spec fn run_pipe(events: Seq<PipeEvent>) -> PipeState
    decreases events.len(),
{
    if events.len() == 0 {
        PipeState::NotStarted
    } else {
        pipe_next(run_pipe(events.drop_last()), events.last())
    }
}

/// The run has observed the process's exit.
pub open spec fn wait_recorded(s: PipeState) -> bool {
    match s {
        PipeState::Waited { .. } => true,
        PipeState::Succeeded => true,
        PipeState::Failed { error, .. } => error == ErrorKind::ConversionFailed,
        _ => false,
    }
}

/// The converter is spawned before anything is written: a run can only stand
/// in `ProcessSpawned` after a successful spawn was recorded at the start.
pub proof fn lemma_spawn_precedes_write(events: Seq<PipeEvent>)
    requires
        run_pipe(events) is ProcessSpawned,
    ensures
        exists|i: int|
            0 <= i < events.len() && events[i] is SpawnOk && run_pipe(events.take(i))
                is NotStarted,
    decreases events.len(),
{
    let prev = run_pipe(events.drop_last());
    if prev is ProcessSpawned {
        lemma_spawn_precedes_write(events.drop_last());
        let i = choose|i: int|
            0 <= i < events.drop_last().len() && events.drop_last()[i] is SpawnOk && run_pipe(
                events.drop_last().take(i),
            ) is NotStarted;
        assert(events.drop_last().take(i) =~= events.take(i));
        assert(events[i] is SpawnOk && run_pipe(events.take(i)) is NotStarted);
    } else {
        let i = events.len() - 1;
        assert(events.take(i) =~= events.drop_last());
        assert(events[i] is SpawnOk && run_pipe(events.take(i)) is NotStarted);
    }
}

/// The manifest is fully written before the pipe is closed: a run can only
/// stand in `StdinWriting` after a successful write was recorded from
/// `ProcessSpawned`.
pub proof fn lemma_write_precedes_close(events: Seq<PipeEvent>)
    requires
        run_pipe(events) is StdinWriting,
    ensures
        exists|i: int|
            0 <= i < events.len() && events[i] is WriteOk && run_pipe(events.take(i))
                is ProcessSpawned,
    decreases events.len(),
{
    let prev = run_pipe(events.drop_last());
    if prev is StdinWriting {
        lemma_write_precedes_close(events.drop_last());
        let i = choose|i: int|
            0 <= i < events.drop_last().len() && events.drop_last()[i] is WriteOk && run_pipe(
                events.drop_last().take(i),
            ) is ProcessSpawned;
        assert(events.drop_last().take(i) =~= events.take(i));
        assert(events[i] is WriteOk && run_pipe(events.take(i)) is ProcessSpawned);
    } else {
        let i = events.len() - 1;
        assert(events.take(i) =~= events.drop_last());
        assert(events[i] is WriteOk && run_pipe(events.take(i)) is ProcessSpawned);
    }
}

/// The pipe's write end is released before the process is waited on: a run
/// that records an exit passed a close acknowledged from `StdinWriting`.
/// Together with `lemma_write_precedes_close`, every observed exit was
/// preceded by a completed write and then a completed close, in that order.
pub proof fn lemma_close_precedes_wait(events: Seq<PipeEvent>)
    requires
        wait_recorded(run_pipe(events)),
    ensures
        exists|i: int|
            0 <= i < events.len() && events[i] is CloseOk && run_pipe(events.take(i))
                is StdinWriting,
    decreases events.len(),
{
    let prev = run_pipe(events.drop_last());
    if wait_recorded(prev) {
        lemma_close_precedes_wait(events.drop_last());
        let i = choose|i: int|
            0 <= i < events.drop_last().len() && events.drop_last()[i] is CloseOk && run_pipe(
                events.drop_last().take(i),
            ) is StdinWriting;
        assert(events.drop_last().take(i) =~= events.take(i));
        assert(events[i] is CloseOk && run_pipe(events.take(i)) is StdinWriting);
    } else {
        // The only way into a wait-recorded state from outside it is the
        // exit event, accepted in StdinClosed alone; that state in turn is
        // only entered by a close acknowledged from StdinWriting.
        assert(prev is StdinClosed);
        lemma_closed_after_close(events.drop_last());
        let i = choose|i: int|
            0 <= i < events.drop_last().len() && events.drop_last()[i] is CloseOk && run_pipe(
                events.drop_last().take(i),
            ) is StdinWriting;
        assert(events.drop_last().take(i) =~= events.take(i));
        assert(events[i] is CloseOk && run_pipe(events.take(i)) is StdinWriting);
    }
}

/// The critical ordering invariant of the conversion, in one statement: any
/// run that observes the process's exit first recorded a successful spawn,
/// then the completed write of the manifest, then the release of the pipe's
/// write end, in that order. Waiting can therefore never precede the
/// half-close, which is what keeps the converter from blocking forever on an
/// open input stream.
pub proof fn lemma_pipe_safe_order(events: Seq<PipeEvent>)
    requires
        wait_recorded(run_pipe(events)),
    ensures
        exists|k: int, j: int, i: int|
            0 <= k < j < i < events.len() && events[k] is SpawnOk && events[j] is WriteOk
                && events[i] is CloseOk,
{
    lemma_close_precedes_wait(events);
    let i = choose|i: int|
        0 <= i < events.len() && events[i] is CloseOk && run_pipe(events.take(i)) is StdinWriting;
    lemma_write_precedes_close(events.take(i));
    let j = choose|j: int|
        0 <= j < events.take(i).len() && events.take(i)[j] is WriteOk && run_pipe(
            events.take(i).take(j),
        ) is ProcessSpawned;
    assert(events.take(i).take(j) =~= events.take(j));
    lemma_spawn_precedes_write(events.take(j));
    let k = choose|k: int|
        0 <= k < events.take(j).len() && events.take(j)[k] is SpawnOk && run_pipe(
            events.take(j).take(k),
        ) is NotStarted;
    assert(events[k] is SpawnOk && events[j] is WriteOk && events[i] is CloseOk);
    assert(0 <= k < j < i < events.len());
}

/// A run standing in `StdinClosed` recorded a close from `StdinWriting`.
proof fn lemma_closed_after_close(events: Seq<PipeEvent>)
    requires
        run_pipe(events) is StdinClosed,
    ensures
        exists|i: int|
            0 <= i < events.len() && events[i] is CloseOk && run_pipe(events.take(i))
                is StdinWriting,
    decreases events.len(),
{
    let prev = run_pipe(events.drop_last());
    if prev is StdinClosed {
        lemma_closed_after_close(events.drop_last());
        let i = choose|i: int|
            0 <= i < events.drop_last().len() && events.drop_last()[i] is CloseOk && run_pipe(
                events.drop_last().take(i),
            ) is StdinWriting;
        assert(events.drop_last().take(i) =~= events.take(i));
        assert(events[i] is CloseOk && run_pipe(events.take(i)) is StdinWriting);
    } else {
        let i = events.len() - 1;
        assert(events.take(i) =~= events.drop_last());
        assert(events[i] is CloseOk && run_pipe(events.take(i)) is StdinWriting);
    }
}

} // verus!
