use webserver_base::source_map::{
    is_source_map_comment, replace_reference, rewrite_source_map_reference, rewritten_from,
    source_map_comment, source_map_pattern, FirstMatch, SourceMapError,
};

#[test]
fn comment_is_rewritten_and_nothing_else() {
    let script = "console.log(1);\n//# sourceMappingURL=a.js.map\n";
    assert_eq!(
        rewrite_source_map_reference(script, "a.H1.js.map"),
        Ok(Some("console.log(1);\n//# sourceMappingURL=a.H1.js.map\n".to_string()))
    );
}

#[test]
fn script_that_is_only_the_comment() {
    assert_eq!(
        rewrite_source_map_reference("//# sourceMappingURL=a.js.map", "a.H1.js.map"),
        Ok(Some("//# sourceMappingURL=a.H1.js.map".to_string()))
    );
}

#[test]
fn script_without_the_comment_is_left_alone() {
    assert_eq!(rewrite_source_map_reference("console.log(1);\n", "a.H1.js.map"), Ok(None));
    assert_eq!(rewrite_source_map_reference("", "a.H1.js.map"), Ok(None));
    assert_eq!(
        rewrite_source_map_reference("//# sourceMappingURL=a.css.map", "a.H1.js.map"),
        Ok(None)
    );
    assert_eq!(
        rewrite_source_map_reference("//# sourceMappingURL=.js.map", "a.H1.js.map"),
        Ok(None)
    );
    assert_eq!(
        rewrite_source_map_reference("//# sourceMappingURL=\na.js.map", "a.H1.js.map"),
        Ok(None)
    );
    assert_eq!(
        rewrite_source_map_reference("// sourceMappingURL=a.js.map", "a.H1.js.map"),
        Ok(None)
    );
}

#[test]
fn only_the_first_comment_is_rewritten() {
    let script = "x\n//# sourceMappingURL=a.js.map\ny\n//# sourceMappingURL=b.js.map\nz";
    assert_eq!(
        rewrite_source_map_reference(script, "N"),
        Ok(Some("x\n//# sourceMappingURL=N\ny\n//# sourceMappingURL=b.js.map\nz".to_string()))
    );
}

#[test]
fn the_comment_reaches_to_the_last_map_name_of_its_line() {
    let script = "//# sourceMappingURL=a.js.map?x=b.js.map tail\nnext";
    assert_eq!(
        rewrite_source_map_reference(script, "N"),
        Ok(Some("//# sourceMappingURL=N tail\nnext".to_string()))
    );
}

#[test]
fn the_new_name_is_taken_as_it_is() {
    assert_eq!(
        rewrite_source_map_reference("a;//# sourceMappingURL=a.js.map;b", "$1.${x}$0.js.map"),
        Ok(Some("a;//# sourceMappingURL=$1.${x}$0.js.map;b".to_string()))
    );
}

#[test]
fn text_around_the_comment_may_hold_anything() {
    let script = "/* ünïcödé 😀 */\n//# sourceMappingURL=ä.js.map\n/* € */";
    assert_eq!(
        rewrite_source_map_reference(script, "ä.H.js.map"),
        Ok(Some("/* ünïcödé 😀 */\n//# sourceMappingURL=ä.H.js.map\n/* € */".to_string()))
    );
}

#[test]
fn replacing_what_was_found() {
    let found = FirstMatch {
        before: "head ".to_string(),
        matched: "//# sourceMappingURL=old.js.map".to_string(),
        after: " tail".to_string(),
    };
    assert_eq!(
        replace_reference(Some(found), "new.js.map"),
        Some("head //# sourceMappingURL=new.js.map tail".to_string())
    );
    assert_eq!(replace_reference(None, "new.js.map"), None);
}

#[test]
fn the_comment_and_its_pattern() {
    assert_eq!(source_map_comment("a.H.js.map"), "//# sourceMappingURL=a.H.js.map");
    assert_eq!(source_map_comment(""), "//# sourceMappingURL=");
    assert_eq!(source_map_pattern(), r"//# sourceMappingURL=(.+\.js\.map)");
}

#[test]
fn what_a_search_comes_to() {
    let found = FirstMatch {
        before: "head ".to_string(),
        matched: "//# sourceMappingURL=old.js.map".to_string(),
        after: " tail".to_string(),
    };
    assert_eq!(
        rewritten_from(Ok(Some(found)), "new.js.map"),
        Ok(Some("head //# sourceMappingURL=new.js.map tail".to_string()))
    );
    assert_eq!(rewritten_from(Ok(None), "new.js.map"), Ok(None));
    let refused = regex::Regex::new("(").unwrap_err();
    assert_eq!(rewritten_from(Err(refused), "new.js.map"), Err(SourceMapError::InvalidPattern));
}

#[test]
fn what_counts_as_a_comment_that_names_a_source_map() {
    assert!(is_source_map_comment("//# sourceMappingURL=a.js.map"));
    assert!(is_source_map_comment("//# sourceMappingURL=dir/ä b.min.js.map"));
    assert!(is_source_map_comment("//# sourceMappingURL=.js.map.js.map"));
    assert!(!is_source_map_comment("//# sourceMappingURL=.js.map"));
    assert!(!is_source_map_comment("//# sourceMappingURL=a.css.map"));
    assert!(!is_source_map_comment("//# sourceMappingURL=a\nb.js.map"));
    assert!(!is_source_map_comment("// sourceMappingURL=a.js.map"));
    assert!(!is_source_map_comment(" //# sourceMappingURL=a.js.map"));
    assert!(!is_source_map_comment("//# sourceMappingURL=a.js.map "));
    assert!(!is_source_map_comment(".js.map"));
    assert!(!is_source_map_comment(""));
}

#[test]
fn a_match_that_is_no_comment_is_refused() {
    for matched in ["old.js.map", "//# sourceMappingURL=.js.map", "//# sourceMappingURL=a\n.js.map", ""] {
        let found = FirstMatch {
            before: "head ".to_string(),
            matched: matched.to_string(),
            after: " tail".to_string(),
        };
        assert_eq!(
            rewritten_from(Ok(Some(found)), "new.js.map"),
            Err(SourceMapError::NotAComment),
            "{matched:?}"
        );
    }
}

#[test]
fn every_comment_the_pattern_finds_is_rewritten() {
    let scripts = [
        "//# sourceMappingURL=a.js.map",
        "x\n//# sourceMappingURL=a.js.map.js.map\ny",
        "//# sourceMappingURL=//# sourceMappingURL=a.js.map",
        "//# sourceMappingURL=\r.js.map",
        "a;//# sourceMappingURL= .js.map;b.js.map;c",
    ];
    for script in scripts {
        let rewritten = rewrite_source_map_reference(script, "N").unwrap().unwrap();
        assert!(rewritten.contains("//# sourceMappingURL=N"), "{script:?}");
    }
}
