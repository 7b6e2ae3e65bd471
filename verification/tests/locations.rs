use aud::locations::{aud, bin, join, log, log_file, lua};

fn home(s: &str) -> Option<String> {
    Some(s.to_string())
}

#[test]
fn locations_live_under_the_aud_directory() {
    assert_eq!(aud(&home("/home/me")).unwrap(), "/home/me/.aud");
    assert_eq!(bin(&home("/home/me")).unwrap(), "/home/me/.aud/bin");
    assert_eq!(lua(&home("/home/me/")).unwrap(), "/home/me/.aud/lua");
    assert_eq!(log(&home("/root")).unwrap(), "/root/.aud/log");
    assert_eq!(log_file(&home("/root"), "midimon").unwrap(), "/root/.aud/log/midimon.log");
    assert_eq!(aud::locations::lua::examples(&home("/h")).unwrap(), "/h/.aud/lua/examples");
    assert_eq!(aud::locations::lua::lib(&home("/h")).unwrap(), "/h/.aud/lua/aud");
    assert_eq!(aud::locations::lua::api(&home("/h")).unwrap(), "/h/.aud/lua/api");
    assert_eq!(aud::locations::lua::examples_for(&home("/h"), "auscope").unwrap(), "/h/.aud/lua/examples/auscope");
}

#[test]
fn no_home_means_no_location() {
    assert_eq!(bin(&None), None);
    assert_eq!(log_file(&None, "x"), None);
    assert_eq!(aud::locations::lua::examples_for(&None, "x"), None);
}

#[test]
fn joining_follows_unix_paths() {
    assert_eq!(join("a", "b"), "a/b");
    assert_eq!(join("a/", "b"), "a/b");
    assert_eq!(join("", "b"), "b");
    assert_eq!(join("a", "/b"), "/b");
    assert_eq!(join("a", ""), "a/");
    assert_eq!(join("é", "ü"), "é/ü");
    assert_eq!(std::path::Path::new("a").join("b").to_str().unwrap(), join("a", "b"));
}

#[test]
fn a_file_name_is_the_last_component_of_a_path() {
    assert_eq!(aud::locations::path_file_name("/a/b/c.lua"), "c.lua");
    assert_eq!(aud::locations::path_file_name("c.lua"), "c.lua");
    assert_eq!(aud::locations::path_file_name("a/b/"), "");
    assert_eq!(aud::locations::path_file_name(""), "");
}
