use vstd::prelude::*;
use vstd::string::*;

verus! {

/// What the compile pipeline is doing at the moment, as the status
/// indicator shows it.
#[derive(Debug, Clone, PartialEq)]
pub enum CompileStatus {
    Idle,
    Compiling { current_file: String, progress: usize },
    Success,
    Error(String),
}

/// The abstract value of a `CompileStatus`: strings taken by their characters.
pub enum StatusView {
    Idle,
    Compiling { current_file: Seq<char>, progress: nat },
    Success,
    Error(Seq<char>),
}

impl View for CompileStatus {
    type V = StatusView;

    open spec fn view(&self) -> StatusView {
        match self {
            CompileStatus::Idle => StatusView::Idle,
            CompileStatus::Compiling { current_file, progress } => StatusView::Compiling {
                current_file: current_file@,
                progress: *progress as nat,
            },
            CompileStatus::Success => StatusView::Success,
            CompileStatus::Error(msg) => StatusView::Error(msg@),
        }
    }
}

/// Holds the status that the editor shows for the compile pipeline.
pub struct CompilerStateManager {
    pub status: CompileStatus,
}

impl CompilerStateManager {
    /// A manager whose status is `Idle`.
    pub fn new() -> (m: Self)
        ensures
            m.status@ == StatusView::Idle,
    {
        CompilerStateManager { status: CompileStatus::Idle }
    }

    /// Records that `file` is being compiled, as step `progress`.
    pub fn set_compiling(&mut self, file: &str, progress: usize)
        ensures
            final(self).status@ == (StatusView::Compiling {
                current_file: file@,
                progress: progress as nat,
            }),
    {
        self.status = CompileStatus::Compiling { current_file: String::from_str(file), progress };
    }

    /// Records that the last compile succeeded.
    pub fn set_success(&mut self)
        ensures
            final(self).status@ == StatusView::Success,
    {
        self.status = CompileStatus::Success;
    }

    /// Records that the last compile failed with message `err`.
    pub fn set_error(&mut self, err: &str)
        ensures
            final(self).status@ == StatusView::Error(err@),
    {
        self.status = CompileStatus::Error(String::from_str(err));
    }
}

} // verus!
