use std::collections::BTreeMap;
use webserver_base::cache_buster::CacheBuster;
use webserver_base::fingerprint::fingerprint;
use webserver_base::snapshot::{snapshot_from, snapshot_path, SnapshotError};
use webserver_base::walker::{AssetWalk, WalkAction, WalkEntry, WalkEvent};

/// A cache buster over `root` that holds the given files, all of them
/// listed in `root` itself.
fn buster_of(root: &str, files: &[(&str, &[u8])]) -> CacheBuster {
    let mut walk = AssetWalk::new(root);
    let listing = files
        .iter()
        .map(|(path, _)| WalkEntry { path: path.to_string(), is_dir: false })
        .collect();
    let mut action = walk.step(WalkEvent::Listing(listing)).unwrap();
    loop {
        action = match action {
            WalkAction::ReadFile(path) => {
                let bytes = files.iter().find(|(p, _)| *p == path).unwrap().1;
                walk.step(WalkEvent::Contents(bytes.to_vec())).unwrap()
            }
            WalkAction::Rename { .. } => walk.step(WalkEvent::Renamed).unwrap(),
            WalkAction::Done => break,
            WalkAction::ReadDir(_) => panic!("no directory was listed"),
        };
    }
    let mut buster = CacheBuster::new(root);
    buster.gen_cache(walk).unwrap();
    buster
}

#[test]
fn lookup_outside_the_asset_directory_returns_the_path() {
    let buster = buster_of("static", &[("static/a.js", b"a")]);
    assert_eq!(buster.get_file("/unrelated/path"), "/unrelated/path");
    assert_eq!(buster.get_file("/static/a.js"), "/static/a.js");
    assert_eq!(buster.get_file(""), "");
    assert_eq!(buster.get_file("stati"), "stati");
}

#[test]
fn lookup_of_a_missing_asset_returns_the_path() {
    let buster = buster_of("static", &[("static/a.js", b"a")]);
    assert_eq!(buster.get_file("static/missing/file.png"), "static/missing/file.png");
    assert_eq!(buster.get_file("static"), "static");
    assert_eq!(CacheBuster::new("static").get_file("static/a.js"), "static/a.js");
}

#[test]
fn lookup_of_an_asset_returns_its_fingerprinted_path() {
    let buster = buster_of(
        "static",
        &[("static/a.js", b"abcdefghijklmnopqrstuvwxyz"), ("static/image/logo", b"")],
    );
    assert_eq!(buster.get_file("static/a.js"), "static/a.c3fcd3d76192e4007dfb496cca67e13b.js");
    assert_eq!(
        buster.get_file("static/image/logo"),
        "static/image/logo.d41d8cd98f00b204e9800998ecf8427e"
    );
    assert_eq!(buster.asset_directory(), "static");
}

#[test]
fn the_whole_table_comes_out_in_order() {
    let buster = buster_of("s", &[("s/b", b"2"), ("s/a", b"1"), ("s/c.x", b"3")]);
    let expected = vec![
        ("s/a".to_string(), format!("s/a.{}", fingerprint(b"1"))),
        ("s/b".to_string(), format!("s/b.{}", fingerprint(b"2"))),
        ("s/c.x".to_string(), format!("s/c.{}.x", fingerprint(b"3"))),
    ];
    assert_eq!(buster.get_cache(), expected);
}

#[test]
fn snapshot_is_the_table_as_json() {
    let buster = buster_of("s", &[("s/b.js", b"2"), ("s/a \"q\".txt", b"1")]);
    let snapshot = buster.print_to_file("..").unwrap();
    assert_eq!(snapshot.path, "../cache-buster.json");
    let expected = format!(
        "{{\n  \"s/a \\\"q\\\".txt\": \"s/a \\\"q\\\".{}.txt\",\n  \"s/b.js\": \"s/b.{}.js\"\n}}",
        fingerprint(b"1"),
        fingerprint(b"2")
    );
    assert_eq!(snapshot.contents, expected);
    let table: BTreeMap<String, String> = buster.get_cache().into_iter().collect();
    assert_eq!(snapshot.contents, serde_json::to_string_pretty(&table).unwrap());
    let read: BTreeMap<String, String> = serde_json::from_str(&snapshot.contents).unwrap();
    assert_eq!(read, table);
}

#[test]
fn snapshot_of_an_empty_table() {
    let snapshot = CacheBuster::new("static").print_to_file("out/").unwrap();
    assert_eq!(snapshot.path, "out/cache-buster.json");
    assert_eq!(snapshot.contents, "{}");
}

#[test]
fn snapshot_path_joins_directory_and_file_name() {
    assert_eq!(snapshot_path(".."), "../cache-buster.json");
    assert_eq!(snapshot_path("out/"), "out/cache-buster.json");
    assert_eq!(snapshot_path(""), "cache-buster.json");
    assert_eq!(snapshot_path("/"), "/cache-buster.json");
    assert_eq!(snapshot_path("/var/tmp"), "/var/tmp/cache-buster.json");
    for dir in ["..", "out/", "", "/", "a/b", "."] {
        let expected = std::path::Path::new(dir).join("cache-buster.json");
        assert_eq!(snapshot_path(dir), expected.to_str().unwrap());
    }
}

#[test]
fn scripts_with_a_source_map_are_to_be_updated() {
    let buster = buster_of(
        "static",
        &[
            ("static/js/a.js", b"a"),
            ("static/js/a.js.map", b"am"),
            ("static/js/lonely.js", b"l"),
            ("static/js/orphan.js.map", b"om"),
            ("static/css/a.css", b"c"),
            ("static/css/a.css.map", b"cm"),
            ("static/js/B.JS", b"b"),
            ("static/js/B.JS.map", b"bm"),
            ("static/z.min.js", b"z"),
            ("static/z.min.js.map", b"zm"),
        ],
    );
    let updates = buster.update_source_map_references();
    let found: Vec<(String, String)> =
        updates.into_iter().map(|u| (u.script, u.map_file_name)).collect();
    let expected = vec![
        (
            format!("static/js/a.{}.js", fingerprint(b"a")),
            format!("a.{}.js.map", fingerprint(b"am")),
        ),
        (
            format!("static/z.{}.min.js", fingerprint(b"z")),
            format!("z.{}.min.js.map", fingerprint(b"zm")),
        ),
    ];
    assert_eq!(found, expected);
    assert!(CacheBuster::new("static").update_source_map_references().is_empty());
}

#[test]
fn the_table_in_words() {
    let buster = buster_of("s", &[("s/b", b"2"), ("s/a.js", b"1")]);
    let expected = format!(
        "CacheBuster (asset directory: 's'):\n\t's/a.js' -> 's/a.{}.js'\n\t's/b' -> 's/b.{}'",
        fingerprint(b"1"),
        fingerprint(b"2")
    );
    assert_eq!(buster.to_string(), expected);
    assert_eq!(
        CacheBuster::new("static").to_string(),
        "CacheBuster (asset directory: 'static'):"
    );
}

#[test]
fn what_writing_the_table_comes_to() {
    let snapshot = snapshot_from(Ok("{}".to_string()), "out").unwrap();
    assert_eq!(snapshot.path, "out/cache-buster.json");
    assert_eq!(snapshot.contents, "{}");
    let failed = serde_json::from_str::<u8>("x").unwrap_err();
    assert_eq!(snapshot_from(Err(failed), "out").err(), Some(SnapshotError::Json));
}

#[test]
fn every_entry_of_the_table_is_found_by_lookup() {
    let buster = buster_of(
        "static",
        &[("static/a.js", b"a"), ("static/.gitignore", b"g"), ("static/x/y.tar.gz", b"t")],
    );
    let table = buster.get_cache();
    assert_eq!(table.len(), 3);
    for (original, busted) in table {
        assert_eq!(buster.get_file(&original), busted);
        assert_ne!(busted, original);
        assert!(busted.starts_with("static"));
    }
}
