//! The ways a request can fail and the text that reports each.

use vstd::prelude::*;
use crate::response::{failure, failure_model, HttpResponse};
use crate::text::{contains_text, ends_with, lemma_contains_inner, occurs_at, starts_with};

verus! {

/// Why a module could not be loaded.
#[derive(Debug, PartialEq, Eq)]
pub enum LoadError {
    /// The module's file is missing or unreadable.
    ReadFailed { path: String, cause: String },
    /// The module's source did not compile, raised an error while it was
    /// evaluated, or evaluated to a value of another type than the one asked for.
    EvalFailed { path: String, cause: String },
}

/// What a `LoadError` stands for.
pub enum LoadFault {
    ReadFailed { path: Seq<char>, cause: Seq<char> },
    EvalFailed { path: Seq<char>, cause: Seq<char> },
}

impl View for LoadError {
    type V = LoadFault;

    open spec fn view(&self) -> LoadFault {
        match self {
            LoadError::ReadFailed { path, cause } => LoadFault::ReadFailed {
                path: path@,
                cause: cause@,
            },
            LoadError::EvalFailed { path, cause } => LoadFault::EvalFailed {
                path: path@,
                cause: cause@,
            },
        }
    }
}

impl LoadFault {
    /// The file that was to be loaded.
    pub open spec fn path(self) -> Seq<char> {
        match self {
            LoadFault::ReadFailed { path, .. } => path,
            LoadFault::EvalFailed { path, .. } => path,
        }
    }

    /// What went wrong, in the words of whoever noticed.
    pub open spec fn cause(self) -> Seq<char> {
        match self {
            LoadFault::ReadFailed { cause, .. } => cause,
            LoadFault::EvalFailed { cause, .. } => cause,
        }
    }

    /// The mark that tells the two kinds apart at the end of the text.
    pub open spec fn mark(self) -> Seq<char> {
        match self {
            LoadFault::ReadFailed { .. } => " (read failed)"@,
            LoadFault::EvalFailed { .. } => " (eval failed)"@,
        }
    }

    /// The text that reports the fault.
    pub open spec fn message(self) -> Seq<char> {
        "[ERROR] loading '"@ + self.path() + "': "@ + self.cause() + self.mark()
    }
}

impl LoadError {
    /// The text that reports the error: `[ERROR] loading '<path>': <cause>`,
    /// followed by the mark of its kind.
    pub fn message(&self) -> (text: String)
        ensures
            text@ == self@.message(),
    {
        match self {
            LoadError::ReadFailed { path, cause } => {
                let mut text = String::from_str("[ERROR] loading '");
                text.append(path.as_str());
                text.append("': ");
                text.append(cause.as_str());
                text.append(" (read failed)");
                text
            },
            LoadError::EvalFailed { path, cause } => {
                let mut text = String::from_str("[ERROR] loading '");
                text.append(path.as_str());
                text.append("': ");
                text.append(cause.as_str());
                text.append(" (eval failed)");
                text
            },
        }
    }
}

/// Why a request got no response from its route module.
#[derive(Debug, PartialEq, Eq)]
pub enum DispatchError {
    /// A module could not be loaded.
    Load(LoadError),
    /// A loaded module raised an error when it was called.
    InvocationFailed { path: String, cause: String },
    /// The file lies outside the directory it was to be taken from.
    PathRejected { path: String },
    /// The transport refused to carry the response that was to be sent.
    ResponseRefused { cause: String },
}

/// What a `DispatchError` stands for.
pub enum DispatchFault {
    Load(LoadFault),
    InvocationFailed { path: Seq<char>, cause: Seq<char> },
    PathRejected { path: Seq<char> },
    ResponseRefused { cause: Seq<char> },
}

impl View for DispatchError {
    type V = DispatchFault;

    open spec fn view(&self) -> DispatchFault {
        match self {
            DispatchError::Load(error) => DispatchFault::Load(error@),
            DispatchError::InvocationFailed { path, cause } => DispatchFault::InvocationFailed {
                path: path@,
                cause: cause@,
            },
            DispatchError::PathRejected { path } => DispatchFault::PathRejected { path: path@ },
            DispatchError::ResponseRefused { cause } => DispatchFault::ResponseRefused {
                cause: cause@,
            },
        }
    }
}

/// The kinds of failure, without their details.
#[derive(PartialEq, Eq, Structural, Clone, Copy, Debug)]
pub enum FaultKind {
    ReadFailed,
    EvalFailed,
    InvocationFailed,
    PathRejected,
    ResponseRefused,
}

impl DispatchFault {
    /// The kind of the fault.
    pub open spec fn kind(self) -> FaultKind {
        match self {
            DispatchFault::Load(LoadFault::ReadFailed { .. }) => FaultKind::ReadFailed,
            DispatchFault::Load(LoadFault::EvalFailed { .. }) => FaultKind::EvalFailed,
            DispatchFault::InvocationFailed { .. } => FaultKind::InvocationFailed,
            DispatchFault::PathRejected { .. } => FaultKind::PathRejected,
            DispatchFault::ResponseRefused { .. } => FaultKind::ResponseRefused,
        }
    }

    /// The text that reports the fault.
    pub open spec fn message(self) -> Seq<char> {
        match self {
            DispatchFault::Load(fault) => fault.message(),
            DispatchFault::InvocationFailed { path, cause } => "[ERROR] calling '"@ + path + "': "@
                + cause,
            DispatchFault::PathRejected { path } => "[ERROR] rejecting '"@ + path
                + "': outside its directory"@,
            DispatchFault::ResponseRefused { cause } => "[ERROR] emitting the response: "@ + cause,
        }
    }
}

impl DispatchError {
    /// The kind of the error.
    pub fn kind(&self) -> (kind: FaultKind)
        ensures
            kind == self@.kind(),
    {
        match self {
            DispatchError::Load(LoadError::ReadFailed { .. }) => FaultKind::ReadFailed,
            DispatchError::Load(LoadError::EvalFailed { .. }) => FaultKind::EvalFailed,
            DispatchError::InvocationFailed { .. } => FaultKind::InvocationFailed,
            DispatchError::PathRejected { .. } => FaultKind::PathRejected,
            DispatchError::ResponseRefused { .. } => FaultKind::ResponseRefused,
        }
    }

    /// The text that reports the error.
    pub fn message(&self) -> (text: String)
        ensures
            text@ == self@.message(),
    {
        match self {
            DispatchError::Load(error) => error.message(),
            DispatchError::InvocationFailed { path, cause } => {
                let mut text = String::from_str("[ERROR] calling '");
                text.append(path.as_str());
                text.append("': ");
                text.append(cause.as_str());
                text
            },
            DispatchError::PathRejected { path } => {
                let mut text = String::from_str("[ERROR] rejecting '");
                text.append(path.as_str());
                text.append("': outside its directory");
                text
            },
            DispatchError::ResponseRefused { cause } => {
                let mut text = String::from_str("[ERROR] emitting the response: ");
                text.append(cause.as_str());
                text
            },
        }
    }

    /// The response that ends a request which failed in this way: status 500,
    /// and the report as the body, in plain text.
    pub fn response(&self) -> (response: HttpResponse)
        ensures
            response@ == failure_model(self@.message()),
    {
        failure(self.message())
    }
}

/// The report of a module that could not be loaded starts with the loading
/// prefix, and holds the word `loading`, the file's path and the cause.
pub proof fn lemma_load_report(fault: LoadFault)
    ensures
        starts_with(fault.message(), "[ERROR] loading '"@),
        contains_text(fault.message(), "loading"@),
        contains_text(fault.message(), fault.path()),
        contains_text(fault.message(), fault.cause()),
        ends_with(fault.message(), fault.mark()),
{
    reveal_strlit("[ERROR] loading '");
    reveal_strlit("loading");
    let head = "[ERROR] loading '"@;
    let text = fault.message();
    assert(text.subrange(0, head.len() as int) =~= head);
    assert(text.subrange(8, 15) =~= "loading"@);
    assert(occurs_at(text, "loading"@, 8));
    lemma_contains_inner(head, fault.path(), "': "@ + fault.cause() + fault.mark());
    assert(head + fault.path() + ("': "@ + fault.cause() + fault.mark()) =~= text);
    lemma_contains_inner(head + fault.path() + "': "@, fault.cause(), fault.mark());
    let mark = fault.mark();
    assert(text.subrange(text.len() - mark.len(), text.len() as int) =~= mark);
}

/// The report of a module that raised an error when it was called starts with
/// the calling prefix, and holds the word `calling`, the file's path and the cause.
pub proof fn lemma_call_report(path: Seq<char>, cause: Seq<char>)
    ensures
        ({
            let text = (DispatchFault::InvocationFailed { path, cause }).message();
            &&& starts_with(text, "[ERROR] calling '"@)
            &&& contains_text(text, "calling"@)
            &&& contains_text(text, path)
            &&& ends_with(text, cause)
        }),
{
    reveal_strlit("[ERROR] calling '");
    reveal_strlit("calling");
    let head = "[ERROR] calling '"@;
    let text = (DispatchFault::InvocationFailed { path, cause }).message();
    assert(text.subrange(0, head.len() as int) =~= head);
    assert(text.subrange(8, 15) =~= "calling"@);
    assert(occurs_at(text, "calling"@, 8));
    lemma_contains_inner(head, path, "': "@ + cause);
    assert(head + path + ("': "@ + cause) =~= text);
    assert(text.subrange(text.len() - cause.len(), text.len() as int) =~= cause);
}

/// Two failures of different kinds never have the same report, whatever their
/// paths and causes.
pub proof fn lemma_reports_distinct(a: DispatchFault, b: DispatchFault)
    requires
        a.kind() != b.kind(),
    ensures
        a.message() != b.message(),
{
    reveal_strlit("[ERROR] loading '");
    reveal_strlit("[ERROR] calling '");
    reveal_strlit("[ERROR] rejecting '");
    reveal_strlit("[ERROR] emitting the response: ");
    reveal_strlit(" (read failed)");
    reveal_strlit(" (eval failed)");
    let x = a.message();
    let y = b.message();
    assert(x.len() > 8 && y.len() > 8);
    assert(x[8] == 'l' || x[8] == 'c' || x[8] == 'r' || x[8] == 'e');
    if x[8] == y[8] {
        // Both are loading reports, one of each kind: their marks differ.
        assert(x.len() >= 14);
        assert(x[x.len() - 12] != y[y.len() - 12]);
    }
}

} // verus!
