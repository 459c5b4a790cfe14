use vstd::prelude::*;

use crate::SandboxError;

verus! {

/// One value produced by a run: its text, and an image encoded in base64.
pub struct RunResult {
    pub text: String,
    pub image: Option<String>,
}

/// Everything one submission of code produced, as the backend reported it.
pub struct PythonSandboxResult {
    pub results: Vec<RunResult>,
    pub stdout: String,
    pub stderr: String,
}

/// Whether `r` holds the text and image of `item`.
pub open spec fn run_result_is(r: RunResult, item: (String, Option<String>)) -> bool {
    &&& r.text@ == item.0@
    &&& match (r.image, item.1) {
        (None, None) => true,
        (Some(a), Some(b)) => a@ == b@,
        _ => false,
    }
}

impl RunResult {
    pub fn new(text: String, image: Option<String>) -> (r: RunResult)
        ensures
            r.text == text,
            r.image == image,
    {
        RunResult { text, image }
    }
}

impl PythonSandboxResult {
    /// Builds an outcome from the fields of a backend response: the result
    /// items in the order the backend gave them, stdout and stderr as they are.
    pub fn from_parts(items: Vec<(String, Option<String>)>, stdout: String, stderr: String) -> (r:
        PythonSandboxResult)
        ensures
            r.results@.len() == items@.len(),
            forall|i: int| 0 <= i < items@.len() ==> run_result_is(#[trigger] r.results@[i], items@[i]),
            r.stdout == stdout,
            r.stderr == stderr,
    {
        let mut results: Vec<RunResult> = Vec::new();
        let mut i: usize = 0;
        while i < items.len()
            invariant
                i <= items@.len(),
                results@.len() == i,
                forall|k: int| 0 <= k < i ==> run_result_is(#[trigger] results@[k], items@[k]),
            decreases items@.len() - i,
        {
            let text = items[i].0.clone();
            let image = match &items[i].1 {
                Some(s) => Some(s.clone()),
                None => None,
            };
            results.push(RunResult { text, image });
            i = i + 1;
        }
        PythonSandboxResult { results, stdout, stderr }
    }
}

/// A backend that runs Python code in isolation and reports what it produced.
pub trait PythonSandbox {
    /// What a call of `run` on `code` may return.
    spec fn run_spec(&self, code: Seq<char>, r: Result<PythonSandboxResult, SandboxError>) -> bool;

    fn run(&self, code: &String) -> (r: Result<PythonSandboxResult, SandboxError>)
        ensures
            self.run_spec(code@, r),
    ;
}

/// A backend that runs nothing: every call succeeds with an empty outcome.
pub struct MockPythonSandbox {}

/// Whether `r` is a successful, empty outcome.
pub open spec fn is_empty_outcome(r: Result<PythonSandboxResult, SandboxError>) -> bool {
    r matches Ok(o) && o.results@.len() == 0 && o.stdout@.len() == 0 && o.stderr@.len() == 0
}

impl PythonSandbox for MockPythonSandbox {
    open spec fn run_spec(&self, code: Seq<char>, r: Result<PythonSandboxResult, SandboxError>) -> bool {
        is_empty_outcome(r)
    }

    fn run(&self, _code: &String) -> (r: Result<PythonSandboxResult, SandboxError>) {
        Ok(PythonSandboxResult { results: Vec::new(), stdout: String::new(), stderr: String::new() })
    }
}

} // verus!
