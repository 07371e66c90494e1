use vstd::prelude::*;
use vstd::string::*;

use crate::status::{CompilerStateManager, StatusView};

verus! {

/// What the compile worker reports to the editor.
#[derive(Debug, Clone, PartialEq)]
pub enum CompilerMessage {
    /// A compile step is running: what it works on, and its number.
    Indexing(String, usize),
    /// The editor library was rebuilt.
    CompileSuccess,
    /// The compile failed, with the reason.
    CompileError(String),
}

/// The abstract value of a `CompilerMessage`.
pub enum MessageView {
    Indexing(Seq<char>, nat),
    CompileSuccess,
    CompileError(Seq<char>),
}

impl View for CompilerMessage {
    type V = MessageView;

    open spec fn view(&self) -> MessageView {
        match self {
            CompilerMessage::Indexing(f, n) => MessageView::Indexing(f@, *n as nat),
            CompilerMessage::CompileSuccess => MessageView::CompileSuccess,
            CompilerMessage::CompileError(e) => MessageView::CompileError(e@),
        }
    }
}

/// How running one `cargo` command went.
#[derive(Debug, Clone, Copy, PartialEq, Eq, Structural)]
pub enum ToolOutcome {
    /// The command could not be started.
    NotStarted,
    /// It ran and reported failure.
    Failed,
    /// It ran and succeeded.
    Succeeded,
}

/// The report after `cargo check`, and whether the build is to run next.
pub open spec fn after_check_spec(check: ToolOutcome) -> (MessageView, bool) {
    match check {
        ToolOutcome::Succeeded => (MessageView::Indexing("Compiling dynamic module..."@, 1), true),
        ToolOutcome::Failed => (MessageView::CompileError("Cargo check failed."@), false),
        ToolOutcome::NotStarted => (MessageView::CompileError("Failed to invoke cargo check."@), false),
    }
}

/// The report after `cargo build`.
pub open spec fn after_build_spec(build: ToolOutcome) -> MessageView {
    match build {
        ToolOutcome::Succeeded => MessageView::CompileSuccess,
        _ => MessageView::CompileError("Build failed."@),
    }
}

/// What to report once `cargo check` has run, and whether to build.
pub fn after_check(check: ToolOutcome) -> (r: (CompilerMessage, bool))
    ensures
        (r.0@, r.1) == after_check_spec(check),
{
    match check {
        ToolOutcome::Succeeded => (
            CompilerMessage::Indexing(String::from_str("Compiling dynamic module..."), 1),
            true,
        ),
        ToolOutcome::Failed => (CompilerMessage::CompileError(String::from_str("Cargo check failed.")), false),
        ToolOutcome::NotStarted => (
            CompilerMessage::CompileError(String::from_str("Failed to invoke cargo check.")),
            false,
        ),
    }
}

/// What to report once `cargo build` has run.
pub fn after_build(build: ToolOutcome) -> (r: CompilerMessage)
    ensures
        r@ == after_build_spec(build),
{
    match build {
        ToolOutcome::Succeeded => CompilerMessage::CompileSuccess,
        _ => CompilerMessage::CompileError(String::from_str("Build failed.")),
    }
}

/// The status that a message leaves, and whether the editor library is to
/// be reloaded. A failure is shown as `Error` whatever its reason.
pub open spec fn status_after(msg: MessageView) -> (StatusView, bool) {
    match msg {
        MessageView::Indexing(f, n) => (StatusView::Compiling { current_file: f, progress: n }, false),
        MessageView::CompileSuccess => (StatusView::Success, true),
        MessageView::CompileError(_) => (StatusView::Error("Error"@), false),
    }
}

/// Applies one message from the compile worker to the editor's status;
/// returns whether the editor library is to be reloaded.
pub fn apply_message(manager: &mut CompilerStateManager, msg: &CompilerMessage) -> (reload: bool)
    ensures
        (final(manager).status@, reload) == status_after(msg@),
{
    match msg {
        CompilerMessage::Indexing(file, count) => {
            manager.set_compiling(file.as_str(), *count);
            false
        },
        CompilerMessage::CompileSuccess => {
            manager.set_success();
            true
        },
        CompilerMessage::CompileError(_) => {
            manager.set_error("Error");
            false
        },
    }
}

/// The editor library is reloaded only after a build that succeeded: the
/// report after `cargo check` never asks for it, whatever the outcome, and
/// the report after `cargo build` asks for it exactly when the build
/// succeeded. A successful check shows the compile as step 1 in progress.
pub proof fn law_reload_only_after_successful_build(check: ToolOutcome, build: ToolOutcome)
    ensures
        !status_after(after_check_spec(check).0).1,
        status_after(after_build_spec(build)).1 <==> build == ToolOutcome::Succeeded,
        after_check_spec(check).1 <==> check == ToolOutcome::Succeeded,
        check == ToolOutcome::Succeeded ==> status_after(after_check_spec(check).0).0 == (
        StatusView::Compiling { current_file: "Compiling dynamic module..."@, progress: 1 }),
{
}

/// Lets one compile run at a time.
pub struct CompileGate {
    busy: bool,
}

impl CompileGate {
    /// A gate with no compile running.
    pub fn new() -> (g: Self)
        ensures
            !g.is_busy(),
    {
        CompileGate { busy: false }
    }

    /// Whether a compile is running.
    pub closed spec fn is_busy(&self) -> bool {
        self.busy
    }

    /// Whether a compile is running.
    pub fn busy(&self) -> (r: bool)
        ensures
            r == self.is_busy(),
    {
        self.busy
    }

    /// Starts a compile unless one is running; returns whether it started.
    pub fn try_begin(&mut self) -> (started: bool)
        ensures
            started == !old(self).is_busy(),
            final(self).is_busy(),
    {
        if self.busy {
            false
        } else {
            self.busy = true;
            true
        }
    }

    /// Records that the running compile has ended.
    pub fn finish(&mut self)
        ensures
            !final(self).is_busy(),
    {
        self.busy = false;
    }
}

} // verus!
