use home_orbit::confine::{is_within, to_chars};
use home_orbit::route::{is_confined, is_root, resolve};

#[test]
fn resolve_root_path() {
    assert_eq!(resolve("/"), "route/.lua");
}

#[test]
fn resolve_home_path() {
    assert_eq!(resolve("/home"), "route/home.lua");
}

#[test]
fn resolve_nested_path() {
    assert_eq!(resolve("/a/b"), "route/a/b.lua");
}

#[test]
fn resolve_does_not_normalise() {
    assert_eq!(resolve("/a/../b"), "route/a/../b.lua");
    assert_eq!(resolve("//x/./y"), "route//x/./y.lua");
    assert_eq!(resolve(""), "route.lua");
}

#[test]
fn resolve_keeps_paths_apart() {
    assert_ne!(resolve("/a"), resolve("/a/"));
    assert_ne!(resolve("/a.lua"), resolve("/a"));
}

#[test]
fn root_is_only_the_single_slash() {
    assert!(is_root("/"));
    assert!(!is_root(""));
    assert!(!is_root("//"));
    assert!(!is_root("/home"));
    assert!(!is_root("é"));
}

#[test]
fn plain_paths_are_confined() {
    assert!(is_confined("route/home.lua"));
    assert!(is_confined("route/a/b.lua"));
    assert!(is_confined("route/.lua"));
    assert!(is_confined("route//x.lua"));
    assert!(is_confined("route/./x.lua"));
}

#[test]
fn climbing_back_inside_is_confined() {
    assert!(is_confined("route/a/../b.lua"));
    assert!(is_confined("route/a/b/../../c.lua"));
}

#[test]
fn climbing_out_is_not_confined() {
    assert!(!is_confined("route/../start.lua"));
    assert!(!is_confined("route/a/../../start.lua"));
    assert!(!is_confined("route/../route/home.lua"));
    assert!(!is_confined("route/./../x.lua"));
}

#[test]
fn other_directories_are_not_confined() {
    assert!(!is_confined("routes/home.lua"));
    assert!(!is_confined("routehome.lua"));
    assert!(!is_confined("route"));
    assert!(!is_confined("route.lua"));
    assert!(!is_confined(""));
    assert!(!is_confined("/route/home.lua"));
}

#[test]
fn dots_within_names_are_names() {
    assert!(is_confined("route/...lua"));
    assert!(is_confined("route/..."));
    assert!(is_confined("route/..a/x"));
    assert!(is_confined("route/a../x"));
}

#[test]
fn within_takes_any_directory() {
    assert!(is_within("styles/main.css", "styles"));
    assert!(!is_within("styles/../secret.css", "styles"));
    assert!(is_within("a/b/c", "a/b"));
    assert!(!is_within("a/b", "a/b"));
    assert!(is_within("a/b/", "a/b"));
    assert!(is_within("/x", ""));
}

#[test]
fn chars_are_characters_not_bytes() {
    assert_eq!(to_chars("héllo/ß"), vec!['h', 'é', 'l', 'l', 'o', '/', 'ß']);
    assert_eq!(to_chars(""), Vec::<char>::new());
}

#[test]
fn non_ascii_paths_are_walked_by_character() {
    assert!(is_confined("route/é/../ü.lua"));
    assert!(!is_confined("route/é/../../ü.lua"));
    assert_eq!(resolve("/é"), "route/é.lua");
}
