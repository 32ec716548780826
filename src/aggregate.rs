//! Folding the agent's per-step results into the one result a caller sees.
use vstd::prelude::*;
use vstd::string::*;

verus! {

/// What one step produced.
#[derive(Debug)]
pub struct ExecutionStepResult {
    pub stdout: Option<String>,
    pub stderr: String,
    pub exit_code: i64,
}

/// The agent's answer to a request: its identifier and one result per step.
#[derive(Debug)]
pub struct ExecutionResponse {
    pub id: String,
    pub steps: Vec<ExecutionStepResult>,
}

/// The result handed back to the caller.
#[derive(Debug)]
pub struct RunResponse {
    pub status: i32,
    pub stdout: String,
    pub stderr: String,
}

/// Why a response cannot be folded into a result.
#[derive(Debug, PartialEq, Eq, Structural)]
pub enum AggregateError {
    /// The response holds another number of steps than the request.
    StepCountMismatch,
    /// The response holds no step at all.
    NoSteps,
    /// The last step's exit code does not fit the result's status.
    InvalidExitCode,
}

/// The standard output of the steps, in order; a step without one adds nothing.
pub open spec fn all_stdout(steps: Seq<ExecutionStepResult>) -> Seq<char>
    decreases steps.len(),
{
    if steps.len() == 0 {
        Seq::empty()
    } else {
        all_stdout(steps.drop_last()) + match steps.last().stdout {
            Some(s) => s@,
            None => Seq::empty(),
        }
    }
}

/// The standard error of the steps, in order.
pub open spec fn all_stderr(steps: Seq<ExecutionStepResult>) -> Seq<char>
    decreases steps.len(),
{
    if steps.len() == 0 {
        Seq::empty()
    } else {
        all_stderr(steps.drop_last()) + steps.last().stderr@
    }
}

impl RunResponse {
    /// The result reported when the attempt itself failed.
    pub fn internal_error() -> (r: Self)
        ensures
            r.status == 1,
            r.stdout@ == Seq::<char>::empty(),
            r.stderr@ == "Internal server error"@,
    {
        RunResponse {
            status: 1,
            stdout: String::new(),
            stderr: String::from_str("Internal server error"),
        }
    }
}

/// The caller's result for `response` to a request of `expected_steps`
/// steps: the outputs joined in step order, and the last step's exit code as
/// the status, whatever the earlier steps returned.
pub fn parse_response(response: &ExecutionResponse, expected_steps: usize) -> (r: Result<
    RunResponse,
    AggregateError,
>)
    ensures
        response.steps@.len() != expected_steps ==> r == Err::<RunResponse, _>(
            AggregateError::StepCountMismatch,
        ),
        response.steps@.len() == expected_steps == 0 ==> r == Err::<RunResponse, _>(
            AggregateError::NoSteps,
        ),
        response.steps@.len() == expected_steps > 0 ==> {
            let last = response.steps@.last().exit_code;
            &&& (last < i32::MIN || last > i32::MAX) ==> r == Err::<RunResponse, _>(
                AggregateError::InvalidExitCode,
            )
            &&& (i32::MIN <= last <= i32::MAX) ==> (r matches Ok(out) && out.status == last
                && out.stdout@ == all_stdout(response.steps@) && out.stderr@ == all_stderr(
                response.steps@,
            ))
        },
{
    let steps = &response.steps;
    if steps.len() != expected_steps {
        return Err(AggregateError::StepCountMismatch);
    }
    if steps.len() == 0 {
        return Err(AggregateError::NoSteps);
    }
    let mut stdout = String::new();
    let mut stderr = String::new();
    let mut i: usize = 0;
    while i < steps.len()
        invariant
            i <= steps@.len(),
            stdout@ == all_stdout(steps@.subrange(0, i as int)),
            stderr@ == all_stderr(steps@.subrange(0, i as int)),
        decreases steps@.len() - i,
    {
        let step = &steps[i];
        assert(steps@.subrange(0, i + 1).drop_last() =~= steps@.subrange(0, i as int));
        match &step.stdout {
            Some(out) => stdout.append(out.as_str()),
            None => {
                assert(stdout@ =~= stdout@ + Seq::<char>::empty());
            },
        }
        stderr.append(step.stderr.as_str());
        i = i + 1;
    }
    assert(steps@.subrange(0, steps@.len() as int) =~= steps@);
    let last = steps[steps.len() - 1].exit_code;
    if last < i32::MIN as i64 || last > i32::MAX as i64 {
        return Err(AggregateError::InvalidExitCode);
    }
    Ok(RunResponse { status: last as i32, stdout, stderr })
}

} // verus!
