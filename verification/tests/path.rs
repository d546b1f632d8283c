use webserver_base::fingerprint::fingerprint;
use webserver_base::path::{file_name, fingerprinted_path, generate_cache_busted_path};

#[test]
fn hash_goes_before_the_first_dot() {
    assert_eq!(fingerprinted_path("app.min.js", "H"), "app.H.min.js");
    assert_eq!(fingerprinted_path("archive.tar.gz", "H"), "archive.H.tar.gz");
    assert_eq!(fingerprinted_path("x.txt", "H"), "x.H.txt");
}

#[test]
fn hash_goes_to_the_end_without_a_dot() {
    assert_eq!(fingerprinted_path("favicon", "H"), "favicon.H");
    assert_eq!(fingerprinted_path("static/LICENSE", "H"), "static/LICENSE.H");
}

#[test]
fn favicon_of_the_site() {
    assert_eq!(
        fingerprinted_path(
            "static/image/favicon/favicon.ico",
            "66189abc248d80832e458ee37e93c9e8"
        ),
        "static/image/favicon/favicon.66189abc248d80832e458ee37e93c9e8.ico"
    );
}

#[test]
fn hidden_files_without_a_further_dot_get_the_hash_at_the_end() {
    assert_eq!(fingerprinted_path(".gitignore", "H"), ".gitignore.H");
    assert_eq!(fingerprinted_path("dir/.gitignore", "H"), "dir/.gitignore.H");
    assert_eq!(fingerprinted_path(".eslintrc.json", "H"), ".H.eslintrc.json");
    assert_eq!(fingerprinted_path("a/.b.c.d", "H"), "a/.H.b.c.d");
    assert_eq!(fingerprinted_path("..", "H"), ".H..");
}

#[test]
fn directories_are_never_renamed() {
    assert_eq!(fingerprinted_path("a.b/c", "H"), "a.b/c.H");
    assert_eq!(fingerprinted_path("a.b/c.d", "H"), "a.b/c.H.d");
    assert_eq!(fingerprinted_path("v1.2/lib/x.min.js", "H"), "v1.2/lib/x.H.min.js");
}

#[test]
fn every_path_shape_is_accepted() {
    assert_eq!(fingerprinted_path("", "H"), ".H");
    assert_eq!(fingerprinted_path("dir/", "H"), "dir/.H");
    assert_eq!(fingerprinted_path(".", "H"), "..H");
    assert_eq!(fingerprinted_path("a.", "H"), "a.H.");
    assert_eq!(fingerprinted_path("a..b", "H"), "a.H..b");
    assert_eq!(fingerprinted_path("/abs/p.q", "H"), "/abs/p.H.q");
    assert_eq!(fingerprinted_path("ünï.cödé", "H"), "ünï.H.cödé");
    assert_eq!(fingerprinted_path("x.txt", ""), "x..txt");
}

#[test]
fn file_name_is_what_follows_the_last_slash() {
    assert_eq!(file_name("static/script/a.H1.js.map"), "a.H1.js.map");
    assert_eq!(file_name("a.js"), "a.js");
    assert_eq!(file_name("dir/"), "");
    assert_eq!(file_name(""), "");
    assert_eq!(file_name("/x"), "x");
}

#[test]
fn busted_path_carries_the_fingerprint_of_the_contents() {
    let contents = b"User-agent: *\n";
    let hash = fingerprint(contents);
    assert_eq!(
        generate_cache_busted_path("static/file/robots.txt", contents),
        format!("static/file/robots.{hash}.txt")
    );
    assert_eq!(
        generate_cache_busted_path("static/file/x.txt", b"abcdefghijklmnopqrstuvwxyz"),
        "static/file/x.c3fcd3d76192e4007dfb496cca67e13b.txt"
    );
}
