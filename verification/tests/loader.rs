use home_orbit::error::LoadError;
use home_orbit::loader::{
    evaluated, module_files, require, require_folder, require_folder_if_listed, require_value,
    run_startup, FolderEntry, FolderStep,
};
use mlua::Lua;

fn source(text: &str) -> Result<String, String> {
    Ok(text.to_string())
}

fn file(path: &str) -> FolderEntry {
    FolderEntry { is_file: Some(true), path: Some(path.to_string()) }
}

fn read_failed(path: &str, cause: &str) -> LoadError {
    LoadError::ReadFailed { path: path.to_string(), cause: cause.to_string() }
}

/// Loads a folder to the end, reading each file from `sources` by its position.
fn load_all(
    lua: &Lua,
    entries: Vec<FolderEntry>,
    sources: &[(&str, Result<String, String>)],
) -> (Result<(), LoadError>, Vec<String>) {
    let mut asked = Vec::new();
    let mut step = require_folder("libs", Ok(entries));
    loop {
        match step {
            FolderStep::Done(result) => return (result, asked),
            FolderStep::Read { path, rest } => {
                let read = sources
                    .iter()
                    .find(|(name, _)| *name == path)
                    .map(|(_, read)| read.clone())
                    .unwrap_or(Err("not found".to_string()));
                asked.push(path);
                step = rest.resume(lua, read);
            }
        }
    }
}

#[test]
fn evaluated_passes_a_value_through() {
    assert_eq!(evaluated("a.lua", Ok::<u8, String>(3)), Ok(3));
}

#[test]
fn evaluated_names_the_file_that_failed() {
    assert_eq!(
        evaluated::<u8>("a.lua", Err("syntax".to_string())),
        Err(LoadError::EvalFailed { path: "a.lua".to_string(), cause: "syntax".to_string() })
    );
}

#[test]
fn require_reports_an_unreadable_file() {
    let lua = Lua::new();
    let loaded = require(&lua, "route/x.lua", Err("gone".to_string()));
    assert_eq!(loaded.err(), Some(read_failed("route/x.lua", "gone")));
}

#[test]
fn require_hands_back_the_callable() {
    let lua = Lua::new();
    let loaded = require(&lua, "double.lua", source("return function(n) return n * 2 end"));
    let double = loaded.expect("the module is a function");
    assert_eq!(double.call::<i64>(21).unwrap(), 42);
}

#[test]
fn require_evaluates_a_bare_expression() {
    let lua = Lua::new();
    let loaded = require(&lua, "inc.lua", source("function(n) return n + 1 end"));
    assert_eq!(loaded.expect("an expression is evaluated").call::<i64>(1).unwrap(), 2);
}

#[test]
fn require_rejects_a_value_that_is_not_callable() {
    let lua = Lua::new();
    match require(&lua, "five.lua", source("return 5")) {
        Err(LoadError::EvalFailed { path, cause }) => {
            assert_eq!(path, "five.lua");
            assert!(!cause.is_empty());
        }
        _ => panic!("a number was taken for a callable"),
    }
}

#[test]
fn require_rejects_a_syntax_error() {
    let lua = Lua::new();
    match require(&lua, "bad.lua", source("return function(")) {
        Err(LoadError::EvalFailed { path, cause }) => {
            assert_eq!(path, "bad.lua");
            assert!(cause.contains("bad.lua"));
        }
        _ => panic!("a syntax error was loaded"),
    }
}

#[test]
fn require_evaluates_anew_on_every_call() {
    let lua = Lua::new();
    let code = "loads = (loads or 0) + 1 return function() return loads end";
    let first = require(&lua, "m.lua", source(code)).unwrap();
    let second = require(&lua, "m.lua", source(code)).unwrap();
    assert_eq!(first.call::<i64>(()).unwrap(), 2);
    assert_eq!(second.call::<i64>(()).unwrap(), 2);
    assert_eq!(lua.globals().get::<i64>("loads").unwrap(), 2);
}

#[test]
fn require_value_takes_any_value() {
    let lua = Lua::new();
    let loaded = require_value(&lua, "v.lua", source("return 'text'")).unwrap();
    assert_eq!(loaded.as_str().unwrap(), "text");
    let nothing = require_value(&lua, "n.lua", source("x = 1")).unwrap();
    assert!(nothing.is_nil());
    assert_eq!(lua.globals().get::<i64>("x").unwrap(), 1);
}

#[test]
fn require_value_reports_failures() {
    let lua = Lua::new();
    assert_eq!(
        require_value(&lua, "v.lua", Err("gone".to_string())).err(),
        Some(read_failed("v.lua", "gone"))
    );
    assert!(matches!(
        require_value(&lua, "v.lua", source("error('no')")),
        Err(LoadError::EvalFailed { .. })
    ));
}

#[test]
fn startup_runs_the_module() {
    let lua = Lua::new();
    assert_eq!(run_startup(&lua, "start.lua", source("started = 'yes'")), Ok(()));
    assert_eq!(lua.globals().get::<String>("started").unwrap(), "yes");
}

#[test]
fn startup_reports_a_missing_module() {
    let lua = Lua::new();
    assert_eq!(
        run_startup(&lua, "start.lua", Err("No such file".to_string())),
        Err(read_failed("start.lua", "No such file"))
    );
}

#[test]
fn startup_reports_an_invalid_module() {
    let lua = Lua::new();
    match run_startup(&lua, "start.lua", source("this is not lua")) {
        Err(LoadError::EvalFailed { path, .. }) => assert_eq!(path, "start.lua"),
        _ => panic!("an invalid startup module was run"),
    }
}

#[test]
fn module_files_keeps_regular_files_with_text_paths() {
    let entries = vec![
        file("libs/a.lua"),
        FolderEntry { is_file: Some(false), path: Some("libs/dir".to_string()) },
        FolderEntry { is_file: None, path: Some("libs/unknown".to_string()) },
        FolderEntry { is_file: Some(true), path: None },
        file("libs/b.lua"),
    ];
    assert_eq!(module_files(&entries), vec!["libs/a.lua".to_string(), "libs/b.lua".to_string()]);
}

#[test]
fn module_files_of_nothing_is_nothing() {
    assert!(module_files(&vec![]).is_empty());
}

#[test]
fn folder_that_cannot_be_listed_fails() {
    match require_folder("libs", Err("not a directory".to_string())) {
        FolderStep::Done(result) => assert_eq!(result, Err(read_failed("libs", "not a directory"))),
        FolderStep::Read { .. } => panic!("an unlisted folder asked for a file"),
    }
}

#[test]
fn empty_folder_is_done_at_once() {
    assert!(matches!(require_folder("libs", Ok(vec![])), FolderStep::Done(Ok(()))));
    let only_dirs = vec![FolderEntry { is_file: Some(false), path: Some("libs/d".to_string()) }];
    assert!(matches!(require_folder("libs", Ok(only_dirs)), FolderStep::Done(Ok(()))));
}

#[test]
fn folder_asks_for_its_first_module_first() {
    let entries = vec![
        FolderEntry { is_file: Some(false), path: Some("libs/d".to_string()) },
        file("libs/a.lua"),
        file("libs/b.lua"),
    ];
    match require_folder("libs", Ok(entries)) {
        FolderStep::Read { path, .. } => assert_eq!(path, "libs/a.lua"),
        FolderStep::Done(_) => panic!("a folder with modules was done at once"),
    }
}

#[test]
fn folder_loads_every_module_in_order() {
    let lua = Lua::new();
    let (result, asked) = load_all(
        &lua,
        vec![file("libs/a.lua"), file("libs/b.lua"), file("libs/c.lua")],
        &[
            ("libs/a.lua", source("order = 'a'")),
            ("libs/b.lua", source("order = order .. 'b'")),
            ("libs/c.lua", source("order = order .. 'c'")),
        ],
    );
    assert_eq!(result, Ok(()));
    assert_eq!(asked, vec!["libs/a.lua", "libs/b.lua", "libs/c.lua"]);
    assert_eq!(lua.globals().get::<String>("order").unwrap(), "abc");
}

#[test]
fn folder_stops_at_the_first_module_that_fails() {
    let lua = Lua::new();
    let (result, asked) = load_all(
        &lua,
        vec![file("libs/a.lua"), file("libs/b.lua"), file("libs/c.lua")],
        &[
            ("libs/a.lua", source("a = 1")),
            ("libs/b.lua", source("error('broken')")),
            ("libs/c.lua", source("c = 1")),
        ],
    );
    match result {
        Err(LoadError::EvalFailed { path, cause }) => {
            assert_eq!(path, "libs/b.lua");
            assert!(cause.contains("broken"));
        }
        _ => panic!("a broken module was loaded"),
    }
    assert_eq!(asked, vec!["libs/a.lua", "libs/b.lua"]);
    assert_eq!(lua.globals().get::<Option<i64>>("a").unwrap(), Some(1));
    assert_eq!(lua.globals().get::<Option<i64>>("c").unwrap(), None);
}

#[test]
fn folder_stops_at_the_first_module_that_cannot_be_read() {
    let lua = Lua::new();
    let (result, asked) = load_all(
        &lua,
        vec![file("libs/a.lua"), file("libs/b.lua")],
        &[("libs/b.lua", source("b = 1"))],
    );
    assert_eq!(result, Err(read_failed("libs/a.lua", "not found")));
    assert_eq!(asked, vec!["libs/a.lua"]);
    assert_eq!(lua.globals().get::<Option<i64>>("b").unwrap(), None);
}

#[test]
fn proceed_goes_on_to_the_next_file() {
    match require_folder("libs", Ok(vec![file("libs/a.lua"), file("libs/b.lua")])) {
        FolderStep::Read { rest, .. } => match rest.proceed(Ok(())) {
            FolderStep::Read { path, rest } => {
                assert_eq!(path, "libs/b.lua");
                assert_eq!(rest.proceed(Ok(())), FolderStep::Done(Ok(())));
            }
            FolderStep::Done(_) => panic!("the second module was passed over"),
        },
        FolderStep::Done(_) => panic!("a folder with modules was done at once"),
    }
}

#[test]
fn proceed_ends_with_the_failure() {
    let failure = LoadError::EvalFailed { path: "libs/a.lua".to_string(), cause: "x".to_string() };
    match require_folder("libs", Ok(vec![file("libs/a.lua"), file("libs/b.lua")])) {
        FolderStep::Read { rest, .. } => {
            let expected =
                LoadError::EvalFailed { path: "libs/a.lua".to_string(), cause: "x".to_string() };
            assert_eq!(rest.proceed(Err(failure)), FolderStep::Done(Err(expected)));
        }
        FolderStep::Done(_) => panic!("a folder with modules was done at once"),
    }
}

#[test]
fn folder_that_need_not_be_there_is_done_when_it_cannot_be_listed() {
    let step = require_folder_if_listed("libs", Err("No such file or directory".to_string()));
    assert_eq!(step, FolderStep::Done(Ok(())));
}

#[test]
fn folder_that_need_not_be_there_is_loaded_when_it_is() {
    match require_folder_if_listed("libs", Ok(vec![file("libs/a.lua")])) {
        FolderStep::Read { path, rest } => {
            assert_eq!(path, "libs/a.lua");
            assert_eq!(rest.proceed(Ok(())), FolderStep::Done(Ok(())));
        }
        FolderStep::Done(_) => panic!("a folder with modules was done at once"),
    }
    assert_eq!(require_folder_if_listed("libs", Ok(vec![])), FolderStep::Done(Ok(())));
}
