//! Diagnostics reported by lint rules, and the host's error classes.

use vstd::prelude::*;

verus! {

/// A byte range inside the linted file.
#[derive(Clone, Copy, Debug, PartialEq, Eq)]
pub struct Span {
    pub start: usize,
    pub end: usize,
}

/// A suggested textual fix attached to a diagnostic.
#[derive(Clone, Debug, PartialEq, Eq)]
pub struct Fix {
    pub description: String,
    pub text: String,
}

/// One finding reported by a rule. Produced only through the intrinsic
/// report primitive; the runner itself never constructs diagnostics.
#[derive(Clone, Debug, PartialEq, Eq)]
pub struct Diagnostic {
    /// The rule code, e.g. `no-console`.
    pub id: String,
    /// The file the finding belongs to, resolved to a file URL.
    pub specifier: String,
    pub range: Option<Span>,
    pub message: String,
    pub hint: Option<String>,
    pub fixes: Vec<Fix>,
    pub info: Vec<String>,
}

/// The host's error classes.
#[derive(Clone, Debug, PartialEq, Eq)]
pub enum HostError {
    /// The runner thread exited before answering; every later call on the
    /// proxy gets this instead of hanging.
    AlreadyClosed,
    /// A plugin with this name is already registered.
    AlreadyExists { plugin: String },
    /// Script code asked for a plugin that is not registered.
    PluginNotFound { plugin: String },
    /// Script code asked for a rule its plugin does not define.
    RuleNotFound { plugin: String, rule: String },
    /// Loading, evaluating, or deserializing a plugin module failed on the
    /// engine side; the message carries the engine's own wording.
    LoadFailed { message: String },
}

} // verus!
