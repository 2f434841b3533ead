use home_orbit::assets::{
    asset_path, collect_assets, directory, get_asset, get_css, get_script, get_scripts,
    get_styles, listing_binding, locate, merge_names, name_of, single_binding, AssetFile,
    AssetKind,
};
use mlua::{Lua, Table, Value};

fn asset(file_name: &str, content: Option<&str>) -> AssetFile {
    AssetFile { file_name: file_name.to_string(), content: content.map(String::from) }
}

fn pair(name: &str, text: &str) -> (String, String) {
    (name.to_string(), text.to_string())
}

fn table_of(value: Value) -> Table {
    match value {
        Value::Table(table) => table,
        _ => panic!("the assets are no table"),
    }
}

#[test]
fn asset_paths() {
    assert_eq!(asset_path(AssetKind::Style, "main"), "styles/main.css");
    assert_eq!(asset_path(AssetKind::Script, "app"), "scripts/app.js");
    assert_eq!(asset_path(AssetKind::Style, ""), "styles/.css");
    assert_eq!(asset_path(AssetKind::Script, "../x"), "scripts/../x.js");
}

#[test]
fn asset_directories() {
    assert_eq!(directory(AssetKind::Style), "styles");
    assert_eq!(directory(AssetKind::Script), "scripts");
}

#[test]
fn binding_names() {
    assert_eq!(single_binding(AssetKind::Style), "getCSS");
    assert_eq!(single_binding(AssetKind::Script), "getScript");
    assert_eq!(listing_binding(AssetKind::Style), "getStyles");
    assert_eq!(listing_binding(AssetKind::Script), "getScripts");
}

#[test]
fn locate_finds_files_inside_the_directory() {
    assert_eq!(locate(AssetKind::Style, "main"), Some("styles/main.css".to_string()));
    assert_eq!(locate(AssetKind::Script, "lib/util"), Some("scripts/lib/util.js".to_string()));
    assert_eq!(locate(AssetKind::Script, "a/../b"), Some("scripts/a/../b.js".to_string()));
}

#[test]
fn locate_rejects_names_that_lead_out() {
    assert_eq!(locate(AssetKind::Style, "../start"), None);
    assert_eq!(locate(AssetKind::Script, "a/../../secret"), None);
    assert_eq!(locate(AssetKind::Style, "../styles/main"), None);
}

#[test]
fn get_asset_hands_the_text_on() {
    assert_eq!(
        get_asset(AssetKind::Style, "main", Ok("body {}".to_string())),
        Ok("body {}".to_string())
    );
}

#[test]
fn get_asset_hands_the_read_failure_on() {
    assert_eq!(
        get_asset(AssetKind::Script, "app", Err("No such file".to_string())),
        Err("No such file".to_string())
    );
}

#[test]
fn get_asset_rejects_whatever_was_read() {
    let rejected = Err("[ERROR] rejecting 'styles/../x.css': outside its directory".to_string());
    assert_eq!(get_asset(AssetKind::Style, "../x", Ok("secret".to_string())), rejected);
    assert_eq!(get_asset(AssetKind::Style, "../x", Err("gone".to_string())), rejected);
}

#[test]
fn get_css_returns_the_style_sheet() {
    assert_eq!(get_css("main", Ok("a { b: c }".to_string())).unwrap(), "a { b: c }");
}

#[test]
fn get_css_raises_the_read_failure() {
    let error = get_css("main", Err("No such file or directory".to_string())).unwrap_err();
    assert!(matches!(error, mlua::Error::RuntimeError(_)));
    assert_eq!(error.to_string(), "runtime error: No such file or directory");
}

#[test]
fn get_css_raises_on_a_name_that_leads_out() {
    let error = get_css("../../etc/passwd", Ok("root".to_string())).unwrap_err();
    assert_eq!(
        error.to_string(),
        "runtime error: [ERROR] rejecting 'styles/../../etc/passwd.css': outside its directory"
    );
}

#[test]
fn get_script_returns_the_script() {
    assert_eq!(get_script("app", Ok("let a = 1;".to_string())).unwrap(), "let a = 1;");
}

#[test]
fn get_script_raises_the_read_failure() {
    let error = get_script("app", Err("denied".to_string())).unwrap_err();
    assert_eq!(error.to_string(), "runtime error: denied");
}

#[test]
fn get_script_raises_on_a_name_that_leads_out() {
    let error = get_script("../x", Ok("x".to_string())).unwrap_err();
    assert_eq!(
        error.to_string(),
        "runtime error: [ERROR] rejecting 'scripts/../x.js': outside its directory"
    );
}

#[test]
fn logical_names() {
    assert_eq!(name_of("main.css"), "main");
    assert_eq!(name_of("app.min.js"), "app.min");
    assert_eq!(name_of("a.b.c.d"), "a.b.c");
    assert_eq!(name_of("trailing."), "trailing");
    assert_eq!(name_of("two.."), "two.");
    assert_eq!(name_of("grüße.css"), "grüße");
}

#[test]
fn name_without_a_dot_is_its_own_logical_name() {
    assert_eq!(name_of("README"), "README");
    assert_eq!(name_of("noextension"), "noextension");
    assert_eq!(name_of(""), "");
}

#[test]
fn name_whose_only_dot_comes_first_has_the_empty_logical_name() {
    assert_eq!(name_of(".css"), "");
    assert_eq!(name_of(".hidden"), "");
    assert_eq!(name_of("."), "");
    assert_eq!(name_of(".a.css"), ".a");
}

#[test]
fn file_of_an_asset_has_the_asset_as_its_logical_name() {
    for name in ["main", "a.min", "", ".", "x.css", "dir/inner", "grüße"] {
        let style = asset_path(AssetKind::Style, name);
        assert_eq!(name_of(style.strip_prefix("styles/").unwrap()), name);
        let script = asset_path(AssetKind::Script, name);
        assert_eq!(name_of(script.strip_prefix("scripts/").unwrap()), name);
    }
}

#[test]
fn collect_assets_keeps_every_readable_file() {
    let files = vec![
        asset("main.css", Some("m")),
        asset("README", Some("r")),
        asset("broken.css", None),
        asset("a.min.css", Some("a")),
        asset("nothing", None),
    ];
    assert_eq!(
        collect_assets(&files),
        vec![pair("main", "m"), pair("README", "r"), pair("a.min", "a")]
    );
}

#[test]
fn collect_assets_keeps_shared_names_in_order() {
    let files = vec![asset("a.css", Some("first")), asset("a.txt", Some("second"))];
    assert_eq!(collect_assets(&files), vec![pair("a", "first"), pair("a", "second")]);
}

#[test]
fn collect_assets_of_nothing_is_nothing() {
    assert!(collect_assets(&vec![]).is_empty());
}

#[test]
fn merge_names_keeps_the_last_text_of_a_name() {
    let pairs = vec![
        pair("a", "1"),
        pair("b", "2"),
        pair("a", "3"),
        pair("c", "4"),
        pair("b", "5"),
        pair("a", "6"),
    ];
    assert_eq!(merge_names(&pairs), vec![pair("a", "6"), pair("b", "5"), pair("c", "4")]);
}

#[test]
fn merge_names_leaves_distinct_names_alone() {
    let pairs = vec![pair("x", "1"), pair("", "2"), pair("X", "3")];
    assert_eq!(merge_names(&pairs), pairs);
    assert!(merge_names(&vec![]).is_empty());
}

#[test]
fn get_styles_builds_a_script_table() {
    let lua = Lua::new();
    let files = vec![
        asset("main.css", Some("body {}")),
        asset("print.css", Some("@media print {}")),
        asset("unreadable.css", None),
        asset("LICENSE", Some("text")),
    ];
    let table = table_of(get_styles(&lua, Ok(files)).unwrap());
    assert_eq!(table.get::<String>("main").unwrap(), "body {}");
    assert_eq!(table.get::<String>("print").unwrap(), "@media print {}");
    assert_eq!(table.get::<String>("LICENSE").unwrap(), "text");
    assert_eq!(table.get::<Option<String>>("unreadable").unwrap(), None);
    assert_eq!(table.pairs::<String, String>().count(), 3);
}

#[test]
fn get_scripts_builds_a_script_table() {
    let lua = Lua::new();
    let files = vec![asset("app.js", Some("run()")), asset("app.min.js.map", None)];
    let table = table_of(get_scripts(&lua, Ok(files)).unwrap());
    assert_eq!(table.get::<String>("app").unwrap(), "run()");
    assert_eq!(table.pairs::<String, String>().count(), 1);
}

#[test]
fn only_the_extension_is_stripped() {
    let lua = Lua::new();
    let styles = table_of(get_styles(&lua, Ok(vec![asset("a.min.css", Some("m{}"))])).unwrap());
    assert_eq!(styles.get::<String>("a.min").unwrap(), "m{}");
    assert_eq!(styles.get::<Option<String>>("a").unwrap(), None);
    assert_eq!(styles.pairs::<String, String>().count(), 1);
    let scripts = table_of(get_scripts(&lua, Ok(vec![asset("a.min.js", Some("m()"))])).unwrap());
    assert_eq!(scripts.get::<String>("a.min").unwrap(), "m()");
    assert_eq!(scripts.pairs::<String, String>().count(), 1);
}

#[test]
fn listing_agrees_with_asking_by_name() {
    let lua = Lua::new();
    for name in ["main", "a.min", "theme.dark.v2"] {
        let path = asset_path(AssetKind::Style, name);
        let file_name = path.strip_prefix("styles/").unwrap();
        let text = format!("text of {name}");
        let single = get_css(name, Ok(text.clone())).unwrap();
        let files = vec![asset("other.css", Some("other")), asset(file_name, Some(&text))];
        let table = table_of(get_styles(&lua, Ok(files)).unwrap());
        assert_eq!(table.get::<String>(name).unwrap(), single);
    }
}

#[test]
fn unreadable_files_are_left_out_in_silence() {
    let lua = Lua::new();
    let files = vec![
        asset("a.min.css", Some("readable")),
        asset("binary.css", None),
        asset("subdirectory", None),
    ];
    let table = table_of(get_styles(&lua, Ok(files)).unwrap());
    assert_eq!(table.get::<String>("a.min").unwrap(), "readable");
    assert_eq!(table.get::<Option<String>>("binary").unwrap(), None);
    assert_eq!(table.get::<Option<String>>("subdirectory").unwrap(), None);
    assert_eq!(table.pairs::<String, String>().count(), 1);
}

#[test]
fn get_styles_of_an_empty_directory_is_an_empty_table() {
    let lua = Lua::new();
    let table = table_of(get_styles(&lua, Ok(vec![])).unwrap());
    assert_eq!(table.pairs::<Value, Value>().count(), 0);
}

#[test]
fn get_styles_raises_when_the_directory_cannot_be_listed() {
    let lua = Lua::new();
    let error = get_styles(&lua, Err("No such file or directory (os error 2)".to_string()))
        .unwrap_err();
    assert!(matches!(error, mlua::Error::RuntimeError(_)));
    assert_eq!(error.to_string(), "runtime error: No such file or directory (os error 2)");
}

#[test]
fn get_scripts_raises_when_the_directory_cannot_be_listed() {
    let lua = Lua::new();
    let error = get_scripts(&lua, Err("Not a directory (os error 20)".to_string())).unwrap_err();
    assert!(matches!(error, mlua::Error::RuntimeError(_)));
    assert_eq!(error.to_string(), "runtime error: Not a directory (os error 20)");
}

#[test]
fn assets_can_be_used_from_a_script() {
    let lua = Lua::new();
    let files = vec![asset("main.css", Some("body {}"))];
    let styles = get_styles(&lua, Ok(files)).unwrap();
    lua.globals().set("styles", styles).unwrap();
    let length: i64 = lua.load("return #styles.main").eval().unwrap();
    assert_eq!(length, 7);
}

#[test]
fn shared_logical_name_keeps_the_last_text() {
    let lua = Lua::new();
    let files = vec![
        asset("a.css", Some("first")),
        asset("b.css", Some("only")),
        asset("a.txt", Some("second")),
        asset("a.bak", None),
    ];
    let table = table_of(get_styles(&lua, Ok(files)).unwrap());
    assert_eq!(table.get::<String>("a").unwrap(), "second");
    assert_eq!(table.get::<String>("b").unwrap(), "only");
    assert_eq!(table.pairs::<String, String>().count(), 2);
}

#[test]
fn table_keys_are_exactly_the_names_of_readable_files() {
    let lua = Lua::new();
    let files = vec![
        asset("one.js", Some("1")),
        asset("two.js", None),
        asset("three", Some("3")),
        asset(".js", Some("empty name")),
    ];
    let table = table_of(get_scripts(&lua, Ok(files)).unwrap());
    let mut keys: Vec<String> =
        table.pairs::<String, String>().map(|pair| pair.unwrap().0).collect();
    keys.sort();
    assert_eq!(keys, vec!["".to_string(), "one".to_string(), "three".to_string()]);
    assert_eq!(table.get::<String>("").unwrap(), "empty name");
    assert_eq!(table.get::<String>("one").unwrap(), "1");
    assert_eq!(table.get::<String>("three").unwrap(), "3");
}

#[test]
fn runtime_errors_carry_the_cause_after_a_fixed_prefix() {
    for cause in ["", "denied", "runtime error: nested"] {
        let error = get_css("main", Err(cause.to_string())).unwrap_err();
        assert_eq!(error.to_string(), format!("runtime error: {cause}"));
    }
}
