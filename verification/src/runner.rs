//! The status of a program that the host ran.

use crate::number::{decimal, decimal_string};
use crate::protocol::{
    complaint, silent, ChildExit, ChildExitView, Next, NextView, Outcome, Step, StepView,
    EXEC_FAILED_CODE, TERMINATED_CODE_BASE,
};
use crate::text::concat3;
use vstd::prelude::*;
use vstd::string::StringExecFns;

verus! {

/// Whether the status of `exit` fits an `i32`: any end but one by a signal
/// whose number, added to the base, is too large.
pub open spec fn status_fits(exit: ChildExitView) -> bool {
    exit matches ChildExitView::Signal(signal) ==> TERMINATED_CODE_BASE + signal <= i32::MAX
}

/// The end of a program as a status: its own code; the base plus the
/// signal's number where a signal ended it; the base alone where neither is
/// known; the code for a failed start where it never ran. All but the first
/// come with a line on the standard error stream.
pub open spec fn child_step(exit: ChildExitView) -> StepView {
    match exit {
        ChildExitView::Code(code) => silent(NextView::Done(Outcome::Continue(code))),
        ChildExitView::Signal(signal) => complaint(
            "Process was terminated with signal "@ + decimal(signal as int) + "\n"@,
            (TERMINATED_CODE_BASE + signal) as i32,
        ),
        ChildExitView::Unknown => complaint(
            "Process did not return neither code nor termination signal, weird\n"@,
            TERMINATED_CODE_BASE,
        ),
        ChildExitView::LaunchFailed(reason) => complaint(
            "Failed to execute, error: "@ + reason + "; set last exit code to "@ + decimal(
                EXEC_FAILED_CODE as int,
            ) + "\n"@,
            EXEC_FAILED_CODE,
        ),
    }
}

/// Turns the end of a program into the command's last step.
pub fn execute(exit: &ChildExit) -> (step: Step)
    requires
        status_fits(exit@),
    ensures
        step@ == child_step(exit@),
{
    match exit {
        ChildExit::Code(code) => Step::silent(Next::Done(Outcome::Continue(*code))),
        ChildExit::Signal(signal) => {
            let number = decimal_string(*signal);
            Step::complaint(
                concat3("Process was terminated with signal ", number.as_str(), "\n"),
                TERMINATED_CODE_BASE + *signal,
            )
        },
        ChildExit::Unknown => Step::complaint(
            String::from_str(
                "Process did not return neither code nor termination signal, weird\n",
            ),
            TERMINATED_CODE_BASE,
        ),
        ChildExit::LaunchFailed(reason) => {
            let mut err = concat3(
                "Failed to execute, error: ",
                reason.as_str(),
                "; set last exit code to ",
            );
            err.append(decimal_string(EXEC_FAILED_CODE).as_str());
            err.append("\n");
            Step::complaint(err, EXEC_FAILED_CODE)
        },
    }
}

} // verus!
