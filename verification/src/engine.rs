//! The script engine, as far as the router uses it.
//!
//! Everything here is taken on trust from the `mlua` crate: the interpreter and
//! the handles to its values are opaque, and nothing is claimed of what a script
//! computes. A script that never returns keeps the call that runs it from
//! returning: no time limit is set. A script can also end the process, where
//! the interpreter gives it the means. A panic in a host function that the
//! embedding program has put into the interpreter passes through the call
//! that ran it. What is claimed is which interpreter a handle belongs to,
//! because `mlua` panics on a handle whose interpreter is gone, and a borrowed
//! interpreter is not gone; what a table holds that the engine has just made
//! from a list of pairs; and in which words an error is reported.

use vstd::prelude::*;
use std::collections::HashMap;
use mlua::IntoLua;
use crate::response::{pairs_model, HeaderEntry};

verus! {

/// `mlua::Lua`, the interpreter: one long-lived instance holds all global state.
#[verifier::external_type_specification]
#[verifier::external_body]
pub struct ExLua(mlua::Lua);

/// `mlua::Function`, a handle to a callable script value.
#[verifier::external_type_specification]
#[verifier::external_body]
pub struct ExFunction(mlua::Function);

/// `mlua::Table`, a handle to a script table.
#[verifier::external_type_specification]
#[verifier::external_body]
pub struct ExTable(mlua::Table);

/// `mlua::Value`, any script value.
#[verifier::external_type_specification]
#[verifier::external_body]
pub struct ExValue(mlua::Value);

/// `mlua::Error`, what the engine reports when loading, running or converting fails.
#[verifier::external_type_specification]
#[verifier::external_body]
pub struct ExError(mlua::Error);

/// The callable `function` is a value of the interpreter `lua`.
pub uninterp spec fn function_in(lua: mlua::Lua, function: mlua::Function) -> bool;

/// The table `table` is a value of the interpreter `lua`.
pub uninterp spec fn table_in(lua: mlua::Lua, table: mlua::Table) -> bool;

/// `Lua::load`, `Chunk::set_name` and `Chunk::eval::<Function>`: compiles
/// `source` under the name `name` and evaluates it in `lua`, expecting a
/// callable. Whether that succeeds is the script's affair; a callable that
/// comes back belongs to `lua`.
#[verifier::external_body]
pub(crate) fn eval_function(lua: &mlua::Lua, source: &str, name: &str) -> (outcome: Result<
    mlua::Function,
    mlua::Error,
>)
    ensures
        outcome matches Ok(function) ==> function_in(*lua, function),
{
    lua.load(source).set_name(name).eval::<mlua::Function>()
}

/// `Lua::load`, `Chunk::set_name` and `Chunk::eval::<Value>`: compiles `source`
/// under the name `name` and evaluates it in `lua`, taking whatever value it
/// yields. Nothing is claimed of the outcome.
#[verifier::external_body]
pub(crate) fn eval_value(lua: &mlua::Lua, source: &str, name: &str) -> (outcome: Result<
    mlua::Value,
    mlua::Error,
>) {
    lua.load(source).set_name(name).eval::<mlua::Value>()
}

/// `Lua::load`, `Chunk::set_name` and `Chunk::exec`: compiles `source` under
/// the name `name` and runs it in `lua` as a block of statements. Nothing is
/// claimed of the outcome.
#[verifier::external_body]
pub(crate) fn exec_chunk(lua: &mlua::Lua, source: &str, name: &str) -> (outcome: Result<
    (),
    mlua::Error,
>) {
    lua.load(source).set_name(name).exec()
}

/// `Function::call::<Value>`: calls `function` with a copy of `query` as its
/// one argument and hands back its first result. `function` must belong to
/// `lua`, which the borrow keeps alive for the call. Nothing is claimed of the
/// outcome.
#[verifier::external_body]
pub(crate) fn call_for_value(
    lua: &mlua::Lua,
    function: &mlua::Function,
    query: &HashMap<String, String>,
) -> (outcome: Result<mlua::Value, mlua::Error>)
    requires
        function_in(*lua, *function),
{
    let _ = lua;
    function.call::<mlua::Value>(query.clone())
}

/// `Function::call::<Table>`: calls `function` with a copy of `query` as its
/// one argument, expecting a table back. `function` must belong to `lua`; a
/// table that comes back belongs to `lua` too.
#[verifier::external_body]
pub(crate) fn call_for_table(
    lua: &mlua::Lua,
    function: &mlua::Function,
    query: &HashMap<String, String>,
) -> (outcome: Result<mlua::Table, mlua::Error>)
    requires
        function_in(*lua, *function),
    ensures
        outcome matches Ok(table) ==> table_in(*lua, table),
{
    let _ = lua;
    function.call::<mlua::Table>(query.clone())
}

/// `Table::get::<u16>`: the field `key` of `table` as a number from 0 to
/// 65535, by the engine's own conversion, or the engine's error where the field
/// is absent or does not convert. `table` must belong to `lua`. Nothing is
/// claimed of the outcome.
#[verifier::external_body]
pub(crate) fn number_field(lua: &mlua::Lua, table: &mlua::Table, key: &str) -> (field: Result<
    u16,
    mlua::Error,
>)
    requires
        table_in(*lua, *table),
{
    let _ = lua;
    table.get::<u16>(key)
}

/// `Table::get::<Option<String>>`: the field `key` of `table` as text, by the
/// engine's own conversion; `None` where it is absent, the engine's error
/// where it does not convert. `table` must belong to `lua`. Nothing is claimed
/// of the outcome.
#[verifier::external_body]
pub(crate) fn text_field(lua: &mlua::Lua, table: &mlua::Table, key: &str) -> (field: Result<
    Option<String>,
    mlua::Error,
>)
    requires
        table_in(*lua, *table),
{
    let _ = lua;
    table.get::<Option<String>>(key)
}

/// `Table::get::<Option<Table>>`: the field `key` of `table` as a table;
/// `None` where it is absent, the engine's error where it is no table. `table`
/// must belong to `lua`, and so does a table that comes back.
#[verifier::external_body]
pub(crate) fn table_field(lua: &mlua::Lua, table: &mlua::Table, key: &str) -> (field: Result<
    Option<mlua::Table>,
    mlua::Error,
>)
    requires
        table_in(*lua, *table),
    ensures
        field matches Ok(Some(inner)) ==> table_in(*lua, inner),
{
    let _ = lua;
    table.get::<Option<mlua::Table>>(key)
}

/// `Table::pairs`, with each side taken as `Either<String, Value>`: the
/// entries of `table` in the engine's order, each side as text where the
/// engine converts it to a string and `None` where it does not; an entry that
/// the engine could not hand out is its error. `table` must belong to `lua`.
/// Nothing is claimed of the entries.
#[verifier::external_body]
pub(crate) fn header_entries(lua: &mlua::Lua, table: &mlua::Table) -> (entries: Vec<
    Result<HeaderEntry, mlua::Error>,
>)
    requires
        table_in(*lua, *table),
{
    let _ = lua;
    table.pairs::<mlua::Either<String, mlua::Value>, mlua::Either<String, mlua::Value>>()
        .map(|pair| pair.map(|(name, value)| HeaderEntry { name: name.left(), value: value.left() }))
        .collect()
}

/// The words in which the engine reports `error`: what `Display` writes for it.
pub uninterp spec fn error_words(error: mlua::Error) -> Seq<char>;

/// What stands before the message in the words of a runtime error.
pub open spec fn runtime_prefix() -> Seq<char> {
    "runtime error: "@
}

/// `Display` of `mlua::Error`: the engine's own words for `error`.
#[verifier::external_body]
pub(crate) fn error_text(error: &mlua::Error) -> (text: String)
    ensures
        text@ == error_words(*error),
{
    error.to_string()
}

/// `mlua::Error::RuntimeError`: the error that a host function raises in a
/// script, carrying `cause`. Its words are `runtime error: ` followed by the
/// cause.
#[verifier::external_body]
pub(crate) fn runtime_error(cause: String) -> (error: mlua::Error)
    ensures
        error_words(error) == runtime_prefix() + cause@,
{
    mlua::Error::RuntimeError(cause)
}

/// The entries of the script table behind `value` whose key and value are both
/// strings, as the table stood when the engine handed `value` out.
pub uninterp spec fn table_texts(value: mlua::Value) -> Map<Seq<char>, Seq<char>>;

/// No two of `pairs` share a name.
pub open spec fn distinct_names(pairs: Seq<(Seq<char>, Seq<char>)>) -> bool {
    forall|i: int, j: int| 0 <= i < j < pairs.len() ==> pairs[i].0 != pairs[j].0
}

/// `mapping` holds `pairs` and nothing else: every name of `pairs` is a key
/// with the text of its pair, and every key is a name of `pairs`.
pub open spec fn holds_pairs(
    mapping: Map<Seq<char>, Seq<char>>,
    pairs: Seq<(Seq<char>, Seq<char>)>,
) -> bool {
    &&& forall|i: int|
        0 <= i < pairs.len() ==> mapping.dom().contains(#[trigger] pairs[i].0) && mapping[pairs[i].0]
            == pairs[i].1
    &&& forall|name: Seq<char>| #[trigger]
        mapping.dom().contains(name) ==> exists|i: int|
            0 <= i < pairs.len() && #[trigger] pairs[i].0 == name
}

/// `IntoLua::into_lua` of a string-to-string `HashMap` collected from `pairs`,
/// no two of which share a name: where it succeeds, a new script table in
/// `lua` that holds these pairs and nothing else. Whether it succeeds is the
/// engine's affair.
#[verifier::external_body]
pub(crate) fn mapping_into_lua(lua: &mlua::Lua, pairs: &Vec<(String, String)>) -> (table: Result<
    mlua::Value,
    mlua::Error,
>)
    requires
        distinct_names(pairs_model(pairs@)),
    ensures
        table matches Ok(value) ==> holds_pairs(table_texts(value), pairs_model(pairs@)),
{
    pairs.iter().cloned().collect::<HashMap<String, String>>().into_lua(lua)
}

} // verus!
