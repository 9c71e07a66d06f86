//! Commands as plain values: what to run, with which arguments, environment and input.
//! The library plans them; the caller runs them in order.

use vstd::prelude::*;

verus! {

/// One command to run.
#[derive(Debug)]
pub struct Invocation {
    /// The program: a name looked up on `PATH`, or a path.
    pub program: String,
    /// The arguments, each one argument.
    pub args: Vec<String>,
    /// Environment variables to set, applied in order (a later one wins).
    pub env: Vec<(String, String)>,
    /// Text to write to the program's standard input (closed afterwards), if any.
    pub stdin: Option<String>,
    /// How error messages name this command.
    pub label: String,
}

/// The model of an invocation.
pub struct InvocationView {
    pub program: Seq<char>,
    pub args: Seq<Seq<char>>,
    pub env: Seq<(Seq<char>, Seq<char>)>,
    pub stdin: Option<Seq<char>>,
    pub label: Seq<char>,
}

/// The views of a list of environment pairs.
pub open spec fn env_views(e: Seq<(String, String)>) -> Seq<(Seq<char>, Seq<char>)> {
    e.map_values(|p: (String, String)| (p.0@, p.1@))
}

impl View for Invocation {
    type V = InvocationView;

    open spec fn view(&self) -> InvocationView {
        InvocationView {
            program: self.program@,
            args: crate::text::views(self.args@),
            env: env_views(self.env@),
            stdin: self.stdin.deep_view(),
            label: self.label@,
        }
    }
}

/// Whether `program` can be found: a path to an existing executable, or the name of an
/// executable in a directory on `PATH`.
///
/// Trusted: calls `which::which` and reports whether it found the program. The answer
/// depends on the machine (its `PATH` and files), so nothing is stated of it.
#[verifier::external_body]
pub(crate) fn found_on_path(program: &str) -> bool {
    which::which(program).is_ok()
}

} // verus!
