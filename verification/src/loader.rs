//! Loading modules: every call evaluates the source it is given, and nothing
//! is kept from one call to the next.
//!
//! Reading files is left to the caller. A module is loaded from the outcome of
//! reading it; a folder is loaded step by step, each step naming the one file
//! whose source it wants next.

use vstd::prelude::*;
use crate::engine::{error_text, eval_function, eval_value, exec_chunk, function_in};
use crate::error::{LoadError, LoadFault};
use crate::response::text_model;

verus! {

/// What loading a module comes to once its source has been evaluated: the
/// value it yielded, or an evaluation failure of `path` with the given cause.
pub fn evaluated<T>(path: &str, outcome: Result<T, String>) -> (loaded: Result<T, LoadError>)
    ensures
        match outcome {
            Ok(value) => loaded == Ok::<T, LoadError>(value),
            Err(cause) => loaded matches Err(error) && error@ == (LoadFault::EvalFailed {
                path: path@,
                cause: cause@,
            }),
        },
{
    match outcome {
        Ok(value) => Ok(value),
        Err(cause) => Err(LoadError::EvalFailed { path: String::from_str(path), cause }),
    }
}

/// Loads the module whose file is `path` as a callable.
///
/// `source` is the outcome of reading the file: its text, or the reason it
/// could not be read. A file that could not be read is a read failure with
/// that reason. Otherwise the text is compiled and evaluated in `lua` under
/// the name `path`; if that fails, or what it yields is not callable, the
/// result is an evaluation failure of `path`.
pub fn require(lua: &mlua::Lua, path: &str, source: Result<String, String>) -> (loaded: Result<
    mlua::Function,
    LoadError,
>)
    ensures
        match source {
            Err(cause) => loaded matches Err(error) && error@ == (LoadFault::ReadFailed {
                path: path@,
                cause: cause@,
            }),
            Ok(_) => match loaded {
                Ok(function) => function_in(*lua, function),
                Err(error) => error@ is EvalFailed && error@.path() == path@,
            },
        },
{
    match source {
        Err(cause) => Err(LoadError::ReadFailed { path: String::from_str(path), cause }),
        Ok(code) => {
            let outcome = match eval_function(lua, code.as_str(), path) {
                Ok(function) => Ok(function),
                Err(error) => Err(error_text(&error)),
            };
            evaluated(path, outcome)
        },
    }
}

/// Loads the module whose file is `path` for whatever value it yields.
///
/// As `require`, but any value will do.
pub fn require_value(lua: &mlua::Lua, path: &str, source: Result<String, String>) -> (loaded:
    Result<mlua::Value, LoadError>)
    ensures
        match source {
            Err(cause) => loaded matches Err(error) && error@ == (LoadFault::ReadFailed {
                path: path@,
                cause: cause@,
            }),
            Ok(_) => loaded matches Err(error) ==> error@ is EvalFailed && error@.path() == path@,
        },
{
    match source {
        Err(cause) => Err(LoadError::ReadFailed { path: String::from_str(path), cause }),
        Ok(code) => {
            let outcome = match eval_value(lua, code.as_str(), path) {
                Ok(value) => Ok(value),
                Err(error) => Err(error_text(&error)),
            };
            evaluated(path, outcome)
        },
    }
}

/// Runs the startup module whose file is `path`, once, before anything is served.
///
/// As `require`, but the source is run as a block of statements and yields
/// nothing. Any failure is meant to end the process.
pub fn run_startup(lua: &mlua::Lua, path: &str, source: Result<String, String>) -> (started: Result<
    (),
    LoadError,
>)
    ensures
        match source {
            Err(cause) => started matches Err(error) && error@ == (LoadFault::ReadFailed {
                path: path@,
                cause: cause@,
            }),
            Ok(_) => started matches Err(error) ==> error@ is EvalFailed && error@.path() == path@,
        },
{
    match source {
        Err(cause) => Err(LoadError::ReadFailed { path: String::from_str(path), cause }),
        Ok(code) => {
            let outcome = match exec_chunk(lua, code.as_str(), path) {
                Ok(_) => Ok(()),
                Err(error) => Err(error_text(&error)),
            };
            evaluated(path, outcome)
        },
    }
}

/// One entry of a directory listing.
#[derive(Debug, PartialEq, Eq)]
pub struct FolderEntry {
    /// Whether the entry is a regular file; `None` where that cannot be told.
    pub is_file: Option<bool>,
    /// The entry's path; `None` where it is not text.
    pub path: Option<String>,
}

/// What a `FolderEntry` stands for.
pub struct FolderEntryModel {
    pub is_file: Option<bool>,
    pub path: Option<Seq<char>>,
}

impl View for FolderEntry {
    type V = FolderEntryModel;

    open spec fn view(&self) -> FolderEntryModel {
        FolderEntryModel { is_file: self.is_file, path: text_model(self.path) }
    }
}

/// The entries that a listing stands for, in its order.
pub open spec fn listing_model(entries: Seq<FolderEntry>) -> Seq<FolderEntryModel> {
    Seq::new(entries.len(), |i: int| entries[i]@)
}

/// The texts that a vector of strings stands for, in its order.
pub open spec fn texts_model(texts: Seq<String>) -> Seq<Seq<char>> {
    Seq::new(texts.len(), |i: int| texts[i]@)
}

/// The file that an entry contributes to a folder's modules: its path where it
/// is known to be a regular file and has a path that is text, nothing otherwise.
pub open spec fn module_of(entry: FolderEntryModel) -> Seq<Seq<char>> {
    match (entry.is_file, entry.path) {
        (Some(true), Some(path)) => seq![path],
        _ => Seq::empty(),
    }
}

/// The files of a folder's modules: those of its entries, in the listing's order.
pub open spec fn modules_of(entries: Seq<FolderEntryModel>) -> Seq<Seq<char>>
    decreases entries.len(),
{
    if entries.len() == 0 {
        Seq::empty()
    } else {
        modules_of(entries.drop_last()) + module_of(entries.last())
    }
}

/// Picks the files of a folder's modules out of its listing.
pub fn module_files(entries: &Vec<FolderEntry>) -> (files: Vec<String>)
    ensures
        texts_model(files@) == modules_of(listing_model(entries@)),
{
    let mut files: Vec<String> = Vec::new();
    let mut i: usize = 0;
    while i < entries.len()
        invariant
            i <= entries.len(),
            texts_model(files@) == modules_of(listing_model(entries@).take(i as int)),
        decreases entries.len() - i,
    {
        let ghost before = texts_model(files@);
        let entry = &entries[i];
        match (&entry.is_file, &entry.path) {
            (Some(true), Some(path)) => {
                files.push(path.clone());
            },
            _ => {},
        }
        proof {
            let model = listing_model(entries@);
            assert(model.take(i + 1).drop_last() =~= model.take(i as int));
            assert(model.take(i + 1).last() == entries[i as int]@);
            assert(texts_model(files@) =~= before + module_of(entries[i as int]@));
        }
        i += 1;
    }
    proof {
        assert(listing_model(entries@).take(i as int) =~= listing_model(entries@));
    }
    files
}

/// A folder that is being loaded: the files of its modules, and the one whose
/// source is awaited. The files before it have been loaded.
#[derive(Debug, PartialEq, Eq)]
pub struct FolderLoad {
    files: Vec<String>,
    at: usize,
}

/// Where loading a folder stands.
#[derive(Debug, PartialEq, Eq)]
pub enum FolderStep {
    /// The source of `path` is wanted; hand the outcome of reading it to `rest`.
    Read { path: String, rest: FolderLoad },
    /// Loading is over: every module was loaded, or one failed and none after
    /// it was tried.
    Done(Result<(), LoadError>),
}

/// What a `FolderStep` stands for.
pub enum FolderProgress {
    Read { path: Seq<char>, files: Seq<Seq<char>>, at: int },
    Done(Result<(), LoadFault>),
}

impl FolderLoad {
    #[verifier::type_invariant]
    spec fn awaits_a_file(self) -> bool {
        self.at < self.files.len()
    }

    /// The files of the folder's modules, in the order in which they are loaded.
    pub closed spec fn files(self) -> Seq<Seq<char>> {
        texts_model(self.files@)
    }

    /// The index of the file whose source is awaited.
    pub closed spec fn at(self) -> int {
        self.at as int
    }

    /// The file whose source is awaited.
    pub open spec fn awaited(self) -> Seq<char> {
        self.files()[self.at()]
    }

    /// Goes on after the awaited module was dealt with: to the next file where
    /// it was loaded, to the end with its failure where it was not.
    pub fn proceed(self, outcome: Result<(), LoadError>) -> (step: FolderStep)
        ensures
            step@ == match outcome {
                Ok(_) => progress(self.files(), self.at() + 1),
                Err(error) => FolderProgress::Done(Err(error@)),
            },
    {
        proof {
            use_type_invariant(&self);
        }
        match outcome {
            Ok(_) => step_at(self.files, self.at + 1),
            Err(error) => FolderStep::Done(Err(error)),
        }
    }

    /// Takes the outcome of reading the awaited file, loads the module in
    /// `lua`, and goes on.
    ///
    /// A file that could not be read ends the loading with a read failure.
    /// Otherwise the module is evaluated: if that fails, the loading ends with
    /// an evaluation failure of the file; if not, it goes on to the next file.
    pub fn resume(self, lua: &mlua::Lua, source: Result<String, String>) -> (step: FolderStep)
        ensures
            match source {
                Err(cause) => step@ == FolderProgress::Done(
                    Err(LoadFault::ReadFailed { path: self.awaited(), cause: cause@ }),
                ),
                Ok(_) => step@ == progress(self.files(), self.at() + 1) || (step@ matches FolderProgress::Done(
                    Err(fault),
                ) && fault is EvalFailed && fault.path() == self.awaited()),
            },
    {
        proof {
            use_type_invariant(&self);
        }
        let path = self.files[self.at].clone();
        let outcome = match require_value(lua, path.as_str(), source) {
            Ok(_) => Ok(()),
            Err(error) => Err(error),
        };
        self.proceed(outcome)
    }
}

impl View for FolderStep {
    type V = FolderProgress;

    open spec fn view(&self) -> FolderProgress {
        match self {
            FolderStep::Read { path, rest } => FolderProgress::Read {
                path: path@,
                files: rest.files(),
                at: rest.at(),
            },
            FolderStep::Done(Ok(_)) => FolderProgress::Done(Ok(())),
            FolderStep::Done(Err(error)) => FolderProgress::Done(Err(error@)),
        }
    }
}

/// Where loading stands when the files before index `at` have been loaded: at
/// the file with that index, or at the end where there is none.
pub open spec fn progress(files: Seq<Seq<char>>, at: int) -> FolderProgress {
    if 0 <= at < files.len() {
        FolderProgress::Read { path: files[at], files, at }
    } else {
        FolderProgress::Done(Ok(()))
    }
}

/// The step that stands at index `at` of `files`.
fn step_at(files: Vec<String>, at: usize) -> (step: FolderStep)
    ensures
        step@ == progress(texts_model(files@), at as int),
{
    if at < files.len() {
        let path = files[at].clone();
        FolderStep::Read { path, rest: FolderLoad { files, at } }
    } else {
        FolderStep::Done(Ok(()))
    }
}

/// Starts loading the modules of the folder `path`.
///
/// `listing` is the outcome of listing the folder: its entries, or the reason
/// it could not be listed, which ends the loading with a read failure of the
/// folder. Of the entries, those known to be regular files with a path that is
/// text are the modules; they are loaded in the listing's order, and the first
/// step asks for the first of them.
pub fn require_folder(path: &str, listing: Result<Vec<FolderEntry>, String>) -> (step: FolderStep)
    ensures
        step@ == match listing {
            Err(cause) => FolderProgress::Done(
                Err(LoadFault::ReadFailed { path: path@, cause: cause@ }),
            ),
            Ok(entries) => progress(modules_of(listing_model(entries@)), 0),
        },
{
    match listing {
        Err(cause) => FolderStep::Done(
            Err(LoadError::ReadFailed { path: String::from_str(path), cause }),
        ),
        Ok(entries) => step_at(module_files(&entries), 0),
    }
}

/// Starts loading the modules of the folder `path`, which need not be there.
///
/// As `require_folder`, but a folder that could not be listed counts as a
/// folder without modules: the loading is over at once, and has not failed.
pub fn require_folder_if_listed(path: &str, listing: Result<Vec<FolderEntry>, String>) -> (step:
    FolderStep)
    ensures
        step@ == match listing {
            Err(_) => FolderProgress::Done(Ok(())),
            Ok(entries) => progress(modules_of(listing_model(entries@)), 0),
        },
{
    match listing {
        Err(_) => FolderStep::Done(Ok(())),
        Ok(entries) => require_folder(path, Ok(entries)),
    }
}

} // verus!
