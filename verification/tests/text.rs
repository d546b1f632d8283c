use webserver_base::text::{
    chars_of, ends_with, find_from, join2, rank, split, starts_with, text_eq, Rank,
};

#[test]
fn prefix_test() {
    assert!(starts_with("static/a.js", "static"));
    assert!(starts_with("static", "static"));
    assert!(starts_with("anything", ""));
    assert!(!starts_with("stat", "static"));
    assert!(!starts_with("/static/a.js", "static"));
    assert!(!starts_with("Static/a.js", "static"));
    assert!(starts_with("über/x", "über"));
}

#[test]
fn suffix_test() {
    assert!(ends_with("a.js", ".js"));
    assert!(ends_with(".js", ".js"));
    assert!(ends_with("x", ""));
    assert!(!ends_with("js", ".js"));
    assert!(!ends_with("a.JS", ".js"));
    assert!(!ends_with("a.js.map", ".js"));
    assert!(ends_with("grüße", "üße"));
}

#[test]
fn order_is_by_code_point_with_prefixes_first() {
    assert_eq!(rank("a", "b"), Rank::Before);
    assert_eq!(rank("b", "a"), Rank::After);
    assert_eq!(rank("a", "a"), Rank::Same);
    assert_eq!(rank("", ""), Rank::Same);
    assert_eq!(rank("", "a"), Rank::Before);
    assert_eq!(rank("a", ""), Rank::After);
    assert_eq!(rank("a.js", "a.js.map"), Rank::Before);
    assert_eq!(rank("Z", "a"), Rank::Before);
    assert_eq!(rank("a/b", "a.b"), Rank::After);
    assert_eq!(rank("é", "z"), Rank::After);
}

#[test]
fn order_agrees_with_the_order_of_strings() {
    let samples = ["", "a", "a.js", "a.js.map", "b", "static/x", "static/é", "static0", "😀", "~"];
    for x in samples {
        for y in samples {
            let expected = match x.cmp(y) {
                std::cmp::Ordering::Less => Rank::Before,
                std::cmp::Ordering::Equal => Rank::Same,
                std::cmp::Ordering::Greater => Rank::After,
            };
            assert_eq!(rank(x, y), expected);
            assert_eq!(text_eq(x, y), x == y);
        }
    }
}

#[test]
fn characters_of_a_text() {
    assert_eq!(chars_of("aé😀"), vec!['a', 'é', '😀']);
    assert_eq!(chars_of(""), Vec::<char>::new());
}

#[test]
fn finding_a_character() {
    let text = chars_of("a,b,,c");
    assert_eq!(find_from(&text, ',', 0), 1);
    assert_eq!(find_from(&text, ',', 1), 1);
    assert_eq!(find_from(&text, ',', 2), 3);
    assert_eq!(find_from(&text, ',', 5), 6);
    assert_eq!(find_from(&text, ';', 0), 6);
    assert_eq!(find_from(&text, ',', 99), 6);
}

#[test]
fn splitting_at_commas() {
    assert_eq!(split("a,b,c", ','), vec!["a", "b", "c"]);
    assert_eq!(split("", ','), vec![""]);
    assert_eq!(split("one", ','), vec!["one"]);
    assert_eq!(split(",", ','), vec!["", ""]);
    assert_eq!(split("a,,b,", ','), vec!["a", "", "b", ""]);
    assert_eq!(split(" a , b ", ','), vec![" a ", " b "]);
    assert_eq!(split("rust,web,é", ','), vec!["rust", "web", "é"]);
}

#[test]
fn splitting_agrees_with_the_standard_library() {
    for sample in ["", ",", ",,", "a", "a,b", ",a", "a,", "x,,y,,,z"] {
        let expected: Vec<String> = sample.split(',').map(String::from).collect();
        assert_eq!(split(sample, ','), expected);
    }
}

#[test]
fn joining_two_texts() {
    assert_eq!(join2("/", "static/x"), "/static/x");
    assert_eq!(join2("", ""), "");
    assert_eq!(join2("a.js", ".map"), "a.js.map");
}
