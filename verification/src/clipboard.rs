//! Copying to the clipboard: which sinks are tried, in what order, and what
//! the outcome of each attempt means for the next step. The attempts
//! themselves are the caller's work.

use vstd::prelude::*;

verus! {

/// The kind of host a run is on.
#[derive(Clone, Copy, Debug, PartialEq, Eq, Structural)]
pub enum Platform {
    /// A host where the clipboard tools of the command line are tried first.
    Linux,
    /// Any other host.
    Other,
}

/// A way to reach the clipboard.
#[derive(Clone, Copy, Debug, PartialEq, Eq, Structural)]
pub enum ClipboardSink {
    /// The tool `xclip`.
    Xclip,
    /// The tool `xsel`.
    Xsel,
    /// The tool `wl-copy`.
    WlCopy,
    /// The clipboard interface of the host itself.
    Native,
}

/// How running a clipboard tool ended.
#[derive(Clone, Copy, Debug, PartialEq, Eq, Structural)]
pub enum CommandOutcome {
    /// The tool could not be started.
    SpawnFailed,
    /// The tool was started, and its input could not be had.
    NoStdin,
    /// The content could not be written to the tool.
    WriteFailed,
    /// The end of the tool could not be waited for.
    WaitFailed,
    /// The tool ran to its end, with or without success.
    Exited { success: bool },
}

/// What is said of a clipboard tool that did not take the content; nothing
/// where it did.
pub open spec fn command_failure(name: Seq<char>, outcome: CommandOutcome) -> Option<Seq<char>> {
    match outcome {
        CommandOutcome::SpawnFailed => Some("Failed to spawn "@ + name),
        CommandOutcome::NoStdin => Some(name + " command failed"@),
        CommandOutcome::WriteFailed => Some("Failed to write to "@ + name + " stdin"@),
        CommandOutcome::WaitFailed => Some("Failed to wait for "@ + name + " process"@),
        CommandOutcome::Exited { success } => if success {
            None
        } else {
            Some(name + " command failed"@)
        },
    }
}

/// Judges a run of the clipboard tool `command_name`: it took the content
/// only where it ran to its end with success.
pub fn execute_clipboard_command(command_name: &str, outcome: CommandOutcome) -> (result: Result<
    (),
    String,
>)
    ensures
        match command_failure(command_name@, outcome) {
            None => result is Ok,
            Some(text) => result matches Err(found) && found@ == text,
        },
{
    let mut text = String::new();
    match outcome {
        CommandOutcome::SpawnFailed => {
            text.append("Failed to spawn ");
            text.append(command_name);
        },
        CommandOutcome::WriteFailed => {
            text.append("Failed to write to ");
            text.append(command_name);
            text.append(" stdin");
        },
        CommandOutcome::WaitFailed => {
            text.append("Failed to wait for ");
            text.append(command_name);
            text.append(" process");
        },
        CommandOutcome::Exited { success: true } => {
            return Ok(());
        },
        _ => {
            text.append(command_name);
            text.append(" command failed");
        },
    }
    assert(text@ =~= command_failure(command_name@, outcome)->Some_0);
    Err(text)
}

/// How an attempt at the host's own clipboard interface ended.
#[derive(Clone, Debug)]
pub enum NativeOutcome {
    /// The content was set.
    Copied,
    /// The clipboard could not be opened, with the host's account of it.
    InitFailed { cause: String },
    /// The text could not be set, with the host's account of it.
    SetTextFailed { cause: String },
}

/// The mathematical value of a [`NativeOutcome`].
pub enum NativeOutcomeView {
    Copied,
    InitFailed { cause: Seq<char> },
    SetTextFailed { cause: Seq<char> },
}

impl View for NativeOutcome {
    type V = NativeOutcomeView;

    open spec fn view(&self) -> NativeOutcomeView {
        match *self {
            NativeOutcome::Copied => NativeOutcomeView::Copied,
            NativeOutcome::InitFailed { cause } => NativeOutcomeView::InitFailed { cause: cause@ },
            NativeOutcome::SetTextFailed { cause } => NativeOutcomeView::SetTextFailed {
                cause: cause@,
            },
        }
    }
}

/// What is said of the host's clipboard interface where it did not take the
/// content; nothing where it did.
pub open spec fn native_failure(outcome: NativeOutcomeView) -> Option<Seq<char>> {
    match outcome {
        NativeOutcomeView::Copied => None,
        NativeOutcomeView::InitFailed { cause } => Some("Failed to initialize clipboard: "@ + cause),
        NativeOutcomeView::SetTextFailed { cause } => Some("Failed to copy to clipboard: "@ + cause),
    }
}

/// Judges an attempt at the host's own clipboard interface.
pub fn try_arboard_clipboard(outcome: &NativeOutcome) -> (result: Result<(), String>)
    ensures
        match native_failure(outcome@) {
            None => result is Ok,
            Some(text) => result matches Err(found) && found@ == text,
        },
{
    let mut text = String::new();
    match outcome {
        NativeOutcome::Copied => {
            return Ok(());
        },
        NativeOutcome::InitFailed { cause } => {
            text.append("Failed to initialize clipboard: ");
            text.append(cause.as_str());
        },
        NativeOutcome::SetTextFailed { cause } => {
            text.append("Failed to copy to clipboard: ");
            text.append(cause.as_str());
        },
    }
    assert(text@ =~= native_failure(outcome@)->Some_0);
    Err(text)
}

/// The sink that is tried first: the tools before the host's interface where
/// there are tools.
pub open spec fn first_sink(platform: Platform) -> ClipboardSink {
    match platform {
        Platform::Linux => ClipboardSink::Xclip,
        Platform::Other => ClipboardSink::Native,
    }
}

/// The sink that is tried after `sink` failed; none after the last one.
pub open spec fn sink_after(sink: ClipboardSink) -> Option<ClipboardSink> {
    match sink {
        ClipboardSink::Xclip => Some(ClipboardSink::Xsel),
        ClipboardSink::Xsel => Some(ClipboardSink::WlCopy),
        ClipboardSink::WlCopy => Some(ClipboardSink::Native),
        ClipboardSink::Native => None,
    }
}

/// How many sinks can still be tried after `sink`.
pub open spec fn sinks_left(sink: ClipboardSink) -> nat {
    match sink {
        ClipboardSink::Xclip => 3,
        ClipboardSink::Xsel => 2,
        ClipboardSink::WlCopy => 1,
        ClipboardSink::Native => 0,
    }
}

/// The command line that reaches `sink`, the program first; empty for the
/// host's own interface, which is no program.
pub open spec fn sink_command(sink: ClipboardSink) -> Seq<Seq<char>> {
    match sink {
        ClipboardSink::Xclip => seq!["xclip"@, "-selection"@, "clipboard"@],
        ClipboardSink::Xsel => seq!["xsel"@, "--clipboard"@, "--input"@, "--keep"@],
        ClipboardSink::WlCopy => seq!["wl-copy"@],
        ClipboardSink::Native => Seq::empty(),
    }
}

impl ClipboardSink {
    /// The command line that reaches this sink, the program first.
    pub fn command(&self) -> (line: Vec<String>)
        ensures
            line.deep_view() == sink_command(*self),
    {
        let mut line: Vec<String> = Vec::new();
        match self {
            ClipboardSink::Xclip => {
                line.push(String::from_str("xclip"));
                line.push(String::from_str("-selection"));
                line.push(String::from_str("clipboard"));
            },
            ClipboardSink::Xsel => {
                line.push(String::from_str("xsel"));
                line.push(String::from_str("--clipboard"));
                line.push(String::from_str("--input"));
                line.push(String::from_str("--keep"));
            },
            ClipboardSink::WlCopy => {
                line.push(String::from_str("wl-copy"));
            },
            ClipboardSink::Native => {},
        }
        assert(line.deep_view() =~= sink_command(*self));
        line
    }
}

/// A copy that is under way: the content, and the sink to try next.
#[derive(Clone, Debug)]
pub struct ClipboardJob {
    /// What is to be copied.
    pub content: String,
    /// The sink that the next attempt goes to.
    pub sink: ClipboardSink,
}

/// What follows an attempt.
#[derive(Debug)]
pub enum ClipboardStep {
    /// Another sink is to be tried.
    Attempt(ClipboardJob),
    /// The copy is over: done, or failed for the reason given.
    Finished(Result<(), String>),
}

/// Starts a copy of `content`: nothing has been tried yet, and the first
/// sink of the host is next.
pub fn copy_to_clipboard(content: String, platform: Platform) -> (job: ClipboardJob)
    ensures
        job.content@ == content@,
        job.sink == first_sink(platform),
{
    let sink = match platform {
        Platform::Linux => ClipboardSink::Xclip,
        Platform::Other => ClipboardSink::Native,
    };
    ClipboardJob { content, sink }
}

impl ClipboardJob {
    /// Takes the outcome of the attempt at this job's sink. A success ends
    /// the copy. After a failure the next sink is tried with the same
    /// content; the failure of the last sink is the failure of the copy.
    pub fn record(self, attempt: Result<(), String>) -> (step: ClipboardStep)
        ensures
            match attempt {
                Ok(done) => step matches ClipboardStep::Finished(Ok(copied)),
                Err(reason) => match sink_after(self.sink) {
                    Some(next) => step matches ClipboardStep::Attempt(job) && job.sink == next
                        && job.content@ == self.content@ && sinks_left(job.sink) < sinks_left(
                        self.sink,
                    ),
                    None => step matches ClipboardStep::Finished(Err(found)) && found@ == reason@,
                },
            },
    {
        match attempt {
            Ok(done) => ClipboardStep::Finished(Ok(())),
            Err(reason) => {
                let next = match self.sink {
                    ClipboardSink::Xclip => ClipboardSink::Xsel,
                    ClipboardSink::Xsel => ClipboardSink::WlCopy,
                    ClipboardSink::WlCopy => ClipboardSink::Native,
                    ClipboardSink::Native => {
                        return ClipboardStep::Finished(Err(reason));
                    },
                };
                ClipboardStep::Attempt(ClipboardJob { content: self.content, sink: next })
            },
        }
    }
}

} // verus!
