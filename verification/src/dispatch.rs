//! Answering a request: the pre-dispatch hook, then the route module, then the
//! response that its descriptor describes.
//!
//! The dispatcher reads no file itself. It proceeds in steps: each step either
//! is the response, or names the one file whose source is wanted next and
//! holds what is needed to go on once the caller has tried to read it. The
//! caller is expected to hold the interpreter exclusively from the first step
//! of a request to its response.

use vstd::prelude::*;
use std::collections::HashMap;
use crate::engine::{
    call_for_table,
    call_for_value,
    error_text,
    header_entries,
    number_field,
    table_field,
    table_in,
    text_field,
};
use crate::error::{
    lemma_call_report,
    lemma_load_report,
    DispatchError,
    DispatchFault,
    LoadFault,
};
use crate::loader::require;
use crate::response::{
    entries_model,
    failure_model,
    key_of,
    permanent_redirect,
    redirect_model,
    text_model,
    translate,
    translated,
    valid_status,
    DescriptorField,
    DescriptorModel,
    HeaderEntry,
    HeaderEntryModel,
    HttpResponse,
    ResponseDescriptor,
    ResponseModel,
};
use crate::text::contains_text;
use crate::route::{confined, is_confined, is_root, resolve, root_path, route_file};

verus! {

/// The file of the pre-dispatch hook, which runs before every route module.
pub open spec fn hook_file() -> Seq<char> {
    "handle.lua"@
}

/// The file of the pre-dispatch hook.
pub fn hook_path() -> (path: &'static str)
    ensures
        path@ == hook_file(),
{
    "handle.lua"
}

/// Where requests to the site's root are sent.
pub open spec fn home_path() -> Seq<char> {
    "/home"@
}

/// A request whose hook has not run yet: the source of the hook is awaited.
#[derive(Debug)]
pub struct HookPending {
    route: String,
}

/// A request whose hook has run: the source of its route module is awaited.
#[derive(Debug)]
pub struct RoutePending {
    route: String,
}

/// Where the handling of a request stands.
#[derive(Debug)]
#[allow(inconsistent_fields)]
pub enum Step {
    /// The source of the hook, `path`, is wanted.
    ReadHook { path: String, pending: HookPending },
    /// The source of the route module, `path`, is wanted.
    ReadRoute { path: String, pending: RoutePending },
    /// The request is answered.
    Respond(HttpResponse),
}

/// What a `Step` stands for; `route` is the file of the request's route module.
pub enum StepModel {
    ReadHook { path: Seq<char>, route: Seq<char> },
    ReadRoute { path: Seq<char>, route: Seq<char> },
    Respond(ResponseModel),
}

impl View for Step {
    type V = StepModel;

    open spec fn view(&self) -> StepModel {
        match self {
            Step::ReadHook { path, pending } => StepModel::ReadHook {
                path: path@,
                route: pending.route(),
            },
            Step::ReadRoute { path, pending } => StepModel::ReadRoute {
                path: path@,
                route: pending.route(),
            },
            Step::Respond(response) => StepModel::Respond(response@),
        }
    }
}

/// The response to a request that failed with `fault`.
pub open spec fn failed(fault: DispatchFault) -> ResponseModel {
    failure_model(fault.message())
}

/// The first step of a request for `request_path`: the root is redirected for
/// good, a path that leads out of the route directory is rejected unread, and
/// for any other path the hook comes first.
pub open spec fn first_step(request_path: Seq<char>) -> StepModel {
    let route = route_file(request_path);
    if request_path == root_path() {
        StepModel::Respond(redirect_model(home_path()))
    } else if !confined(route) {
        StepModel::Respond(failed(DispatchFault::PathRejected { path: route }))
    } else {
        StepModel::ReadHook { path: hook_file(), route }
    }
}

/// Begins to handle a request for `request_path`.
pub fn handle(request_path: &str) -> (step: Step)
    ensures
        step@ == first_step(request_path@),
{
    if is_root(request_path) {
        return Step::Respond(permanent_redirect("/home"));
    }
    let route = resolve(request_path);
    if !is_confined(route.as_str()) {
        let error = DispatchError::PathRejected { path: route };
        return Step::Respond(error.response());
    }
    Step::ReadHook { path: String::from_str(hook_path()), pending: HookPending { route } }
}

/// What calling a loaded module comes to: what it returned, or an invocation
/// failure of `path` with the given cause.
pub fn invoked<T>(path: &str, outcome: Result<T, String>) -> (called: Result<T, DispatchError>)
    ensures
        match outcome {
            Ok(value) => called == Ok::<T, DispatchError>(value),
            Err(cause) => called matches Err(error) && error@ == (DispatchFault::InvocationFailed {
                path: path@,
                cause: cause@,
            }),
        },
{
    match outcome {
        Ok(value) => Ok(value),
        Err(cause) => Err(DispatchError::InvocationFailed { path: String::from_str(path), cause }),
    }
}

/// The response that ends a request: the one described by the descriptor that
/// its route module returned, or the report of what went wrong.
pub open spec fn concluded(outcome: Result<DescriptorModel, DispatchFault>) -> ResponseModel {
    match outcome {
        Ok(descriptor) => translated(descriptor),
        Err(fault) => failed(fault),
    }
}

/// What the outcome of calling a route module stands for.
pub open spec fn outcome_model(outcome: Result<ResponseDescriptor, DispatchError>) -> Result<
    DescriptorModel,
    DispatchFault,
> {
    match outcome {
        Ok(descriptor) => Ok(descriptor@),
        Err(error) => Err(error@),
    }
}

/// Ends a request with the response to `outcome`.
pub fn conclude(outcome: Result<ResponseDescriptor, DispatchError>) -> (response: HttpResponse)
    ensures
        response@ == concluded(outcome_model(outcome)),
{
    match outcome {
        Ok(descriptor) => translate(descriptor),
        Err(error) => error.response(),
    }
}

/// The entries that the engine handed out, in order; those it could not hand
/// out are passed over.
pub open spec fn handed_out<E>(entries: Seq<Result<HeaderEntry, E>>) -> Seq<HeaderEntryModel>
    decreases entries.len(),
{
    if entries.len() == 0 {
        Seq::empty()
    } else {
        handed_out(entries.drop_last()) + match entries.last() {
            Ok(entry) => seq![entry@],
            Err(_) => Seq::empty(),
        }
    }
}

/// The descriptor that the three fields of a returned table amount to: a field
/// that is absent or of another type than expected counts as left out.
pub open spec fn described<E>(
    status: Result<u16, E>,
    body: Result<Option<String>, E>,
    headers: Option<Seq<Result<HeaderEntry, E>>>,
) -> DescriptorModel {
    DescriptorModel {
        status: match status {
            Ok(code) => Some(code),
            Err(_) => None,
        },
        body: match body {
            Ok(text) => text_model(text),
            Err(_) => None,
        },
        headers: match headers {
            Some(entries) => Some(handed_out(entries)),
            None => None,
        },
    }
}

/// A copy of an optional text.
fn copy_text(text: &Option<String>) -> (copy: Option<String>)
    ensures
        text_model(copy) == text_model(*text),
{
    match text {
        Some(s) => Some(s.clone()),
        None => None,
    }
}

/// Assembles a descriptor from the three fields as the engine converted them.
pub fn descriptor_of<E>(
    status: Result<u16, E>,
    body: Result<Option<String>, E>,
    headers: Option<Vec<Result<HeaderEntry, E>>>,
) -> (descriptor: ResponseDescriptor)
    ensures
        descriptor@ == described(
            status,
            body,
            match headers {
                Some(entries) => Some(entries@),
                None => None,
            },
        ),
{
    let status = match status {
        Ok(code) => Some(code),
        Err(_) => None,
    };
    let body = match body {
        Ok(text) => text,
        Err(_) => None,
    };
    let headers = match headers {
        None => None,
        Some(entries) => {
            let mut kept: Vec<HeaderEntry> = Vec::new();
            let mut i: usize = 0;
            while i < entries.len()
                invariant
                    i <= entries.len(),
                    entries_model(kept@) == handed_out(entries@.take(i as int)),
                decreases entries.len() - i,
            {
                let ghost before = entries_model(kept@);
                match &entries[i] {
                    Ok(entry) => {
                        kept.push(
                            HeaderEntry {
                                name: copy_text(&entry.name),
                                value: copy_text(&entry.value),
                            },
                        );
                        proof {
                            assert(kept@.last()@ == entry@);
                            assert(entries_model(kept@) =~= before + seq![entry@]);
                        }
                    },
                    Err(_) => {
                        proof {
                            assert(entries_model(kept@) =~= before + Seq::empty());
                        }
                    },
                }
                proof {
                    assert(entries@.take(i + 1).drop_last() =~= entries@.take(i as int));
                    assert(entries@.take(i + 1).last() == entries@[i as int]);
                }
                i += 1;
            }
            proof {
                assert(entries@.take(i as int) =~= entries@);
            }
            Some(kept)
        },
    };
    ResponseDescriptor { status, body, headers }
}

/// Reads the descriptor out of the table that a route module returned: its
/// three fields, each under its key.
fn describe(lua: &mlua::Lua, table: &mlua::Table) -> (descriptor: ResponseDescriptor)
    requires
        table_in(*lua, *table),
{
    let status = number_field(lua, table, key_of(DescriptorField::Status));
    let body = text_field(lua, table, key_of(DescriptorField::Body));
    let headers = match table_field(lua, table, key_of(DescriptorField::Headers)) {
        Ok(Some(mapping)) => Some(header_entries(lua, &mapping)),
        _ => None,
    };
    descriptor_of(status, body, headers)
}

/// A response that loading and calling the module `path` can end in once its
/// source has been read: the report of an evaluation failure or of an
/// invocation failure of `path`, or the response that a descriptor describes.
pub open spec fn answers(path: Seq<char>, response: ResponseModel) -> bool {
    ||| exists|cause: Seq<char>|
        response == failed(DispatchFault::Load(LoadFault::EvalFailed { path, cause }))
    ||| exists|cause: Seq<char>| response == failed(DispatchFault::InvocationFailed { path, cause })
    ||| exists|descriptor: DescriptorModel| response == translated(descriptor)
}

/// A request for the site's root is answered at once with a permanent
/// redirect to the home path: no file is asked for.
pub proof fn lemma_root_redirects()
    ensures
        first_step(root_path()) == StepModel::Respond(redirect_model(home_path())),
        redirect_model(home_path()).status == 308,
        redirect_model(home_path()).headers == seq![("location"@, "/home"@)],
{
}

/// A first step that asks for a file asks for the hook, and then the request's
/// route module is the file that its path resolves to and lies in the route
/// directory. No first step asks for a route module.
pub proof fn lemma_first_read(request_path: Seq<char>)
    ensures
        match first_step(request_path) {
            StepModel::ReadHook { path, route } => path == hook_file() && route == route_file(
                request_path,
            ) && confined(route) && request_path != root_path(),
            StepModel::ReadRoute { .. } => false,
            StepModel::Respond(_) => request_path == root_path() || !confined(
                route_file(request_path),
            ),
        },
{
}

/// A module that cannot be loaded is answered with a status in the 5xx range
/// and a body that holds the word `loading` and the module's file.
pub proof fn lemma_load_failure_response(fault: LoadFault)
    ensures
        500 <= failed(DispatchFault::Load(fault)).status <= 599,
        contains_text(failed(DispatchFault::Load(fault)).body, "loading"@),
        contains_text(failed(DispatchFault::Load(fault)).body, fault.path()),
{
    lemma_load_report(fault);
}

/// A module that raises an error when called is answered with a status in the
/// 5xx range and a body that holds the word `calling` and the module's file.
pub proof fn lemma_call_failure_response(path: Seq<char>, cause: Seq<char>)
    ensures
        500 <= failed(DispatchFault::InvocationFailed { path, cause }).status <= 599,
        contains_text(failed(DispatchFault::InvocationFailed { path, cause }).body, "calling"@),
        contains_text(failed(DispatchFault::InvocationFailed { path, cause }).body, path),
{
    lemma_call_report(path, cause);
}

/// Whatever a request ends in after its route module's source was read, the
/// response carries a valid status.
pub proof fn lemma_answers_valid(path: Seq<char>, response: ResponseModel)
    requires
        answers(path, response),
    ensures
        valid_status(response.status),
{
}

impl HookPending {
    #[verifier::type_invariant]
    spec fn route_is_confined(self) -> bool {
        confined(self.route@)
    }

    /// The file of the request's route module.
    pub closed spec fn route(self) -> Seq<char> {
        self.route@
    }

    /// Goes on after the hook was dealt with: to the route module where the
    /// hook ran, which lies in the route directory; to the report of its
    /// failure where it did not.
    pub fn settle(self, outcome: Result<(), DispatchError>) -> (step: Step)
        ensures
            step@ == match outcome {
                Ok(_) => StepModel::ReadRoute { path: self.route(), route: self.route() },
                Err(error) => StepModel::Respond(failed(error@)),
            },
            confined(self.route()),
    {
        proof {
            use_type_invariant(&self);
        }
        match outcome {
            Ok(_) => {
                let path = self.route.clone();
                Step::ReadRoute { path, pending: RoutePending { route: self.route } }
            },
            Err(error) => Step::Respond(error.response()),
        }
    }

    /// Takes the outcome of reading the hook's file, runs the hook in `lua`
    /// with `query` as its argument, and goes on.
    ///
    /// A hook that could not be read, did not evaluate to a callable, or
    /// raised an error when called ends the request with the report of that
    /// failure; the route module is then not asked for. Otherwise the next
    /// step asks for the route module.
    pub fn resume(
        self,
        lua: &mlua::Lua,
        source: Result<String, String>,
        query: &HashMap<String, String>,
    ) -> (step: Step)
        ensures
            match source {
                Err(cause) => step@ == StepModel::Respond(
                    failed(
                        DispatchFault::Load(
                            LoadFault::ReadFailed { path: hook_file(), cause: cause@ },
                        ),
                    ),
                ),
                Ok(_) => {
                    ||| step@ == (StepModel::ReadRoute { path: self.route(), route: self.route() })
                    ||| exists|cause: Seq<char>|
                        step@ == StepModel::Respond(
                            failed(
                                DispatchFault::Load(
                                    LoadFault::EvalFailed { path: hook_file(), cause },
                                ),
                            ),
                        )
                    ||| exists|cause: Seq<char>|
                        step@ == StepModel::Respond(
                            failed(DispatchFault::InvocationFailed { path: hook_file(), cause }),
                        )
                },
            },
    {
        match require(lua, hook_path(), source) {
            Err(error) => {
                let error = DispatchError::Load(error);
                proof {
                    if source is Ok {
                        assert(error@ == DispatchFault::Load(
                            LoadFault::EvalFailed { path: hook_file(), cause: error@->Load_0.cause() },
                        ));
                    }
                }
                Step::Respond(error.response())
            },
            Ok(hook) => {
                let outcome = match call_for_value(lua, &hook, query) {
                    Ok(_) => Ok(()),
                    Err(error) => Err(error_text(&error)),
                };
                self.settle(invoked(hook_path(), outcome))
            },
        }
    }
}

impl RoutePending {
    #[verifier::type_invariant]
    spec fn route_is_confined(self) -> bool {
        confined(self.route@)
    }

    /// The file of the request's route module.
    pub closed spec fn route(self) -> Seq<char> {
        self.route@
    }

    /// Takes the outcome of reading the route module's file, loads the module
    /// in `lua`, calls it with `query` as its argument, and answers the request.
    ///
    /// A module that could not be read, did not evaluate to a callable, or
    /// raised an error when called is answered with the report of that
    /// failure. Otherwise the answer is the response described by the
    /// descriptor that the module returned.
    pub fn resume(
        self,
        lua: &mlua::Lua,
        source: Result<String, String>,
        query: &HashMap<String, String>,
    ) -> (response: HttpResponse)
        ensures
            match source {
                Err(cause) => response@ == failed(
                    DispatchFault::Load(
                        LoadFault::ReadFailed { path: self.route(), cause: cause@ },
                    ),
                ),
                Ok(_) => answers(self.route(), response@),
            },
    {
        match require(lua, self.route.as_str(), source) {
            Err(error) => {
                let error = DispatchError::Load(error);
                let response = error.response();
                proof {
                    if source is Ok {
                        assert(response@ == failed(
                            DispatchFault::Load(
                                LoadFault::EvalFailed {
                                    path: self.route(),
                                    cause: error@->Load_0.cause(),
                                },
                            ),
                        ));
                        assert(answers(self.route(), response@));
                    }
                }
                response
            },
            Ok(module) => {
                let outcome = match call_for_table(lua, &module, query) {
                    Ok(table) => Ok(describe(lua, &table)),
                    Err(error) => Err(error_text(&error)),
                };
                let called = invoked(self.route.as_str(), outcome);
                let ghost settled = outcome_model(called);
                let response = conclude(called);
                proof {
                    match settled {
                        Ok(descriptor) => {
                            assert(response@ == translated(descriptor));
                        },
                        Err(fault) => {
                            assert(response@ == failed(
                                DispatchFault::InvocationFailed {
                                    path: self.route(),
                                    cause: fault->InvocationFailed_cause,
                                },
                            ));
                        },
                    }
                    assert(answers(self.route(), response@));
                }
                response
            },
        }
    }
}

} // verus!
