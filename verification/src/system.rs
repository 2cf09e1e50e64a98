//! The boundary with the operating system: the commands the library asks the
//! caller to run, and what the caller reports back.
use vstd::prelude::*;
use crate::model::{InspectionReport, ReportView};

verus! {

/// What running one command produced: whether it exited successfully, and its
/// standard output and standard error, each trimmed.
#[derive(Debug, Clone)]
pub struct CommandOutput {
    pub success: bool,
    pub stdout: String,
    pub stderr: String,
}

pub struct OutputView {
    pub success: bool,
    pub stdout: Seq<char>,
    pub stderr: Seq<char>,
}

impl View for CommandOutput {
    type V = OutputView;

    open spec fn view(&self) -> OutputView {
        OutputView { success: self.success, stdout: self.stdout@, stderr: self.stderr@ }
    }
}

pub open spec fn output_views(v: Seq<CommandOutput>) -> Seq<OutputView> {
    v.map_values(|o: CommandOutput| o@)
}

/// A command to run: a program and its arguments.
#[derive(Debug)]
pub struct CommandRequest {
    pub program: String,
    pub args: Vec<String>,
}

pub struct RequestView {
    pub program: Seq<char>,
    pub args: Seq<Seq<char>>,
}

impl View for CommandRequest {
    type V = RequestView;

    open spec fn view(&self) -> RequestView {
        RequestView { program: self.program@, args: self.args.deep_view() }
    }
}

/// What a command needs next: one more command run, or nothing, with the
/// final report.
#[derive(Debug)]
pub enum Step {
    Run(CommandRequest),
    Done(InspectionReport),
}

pub enum StepView {
    Run(RequestView),
    Done(ReportView),
}

impl View for Step {
    type V = StepView;

    open spec fn view(&self) -> StepView {
        match self {
            Step::Run(r) => StepView::Run(r@),
            Step::Done(r) => StepView::Done(r@),
        }
    }
}

} // verus!
