use worker_pool::minigrep::{matching_lines, search, search_case_insensitive, Config};
use worker_pool::text::{contains, lines};

#[test]
fn one_result() {
    let query = "duct";
    let contents = "\
Rust:
safe, fast, productive.
Pick three.";

    assert_eq!(vec!["safe, fast, productive."], search(query, contents));
}

#[test]
fn two_results() {
    let query = "e";
    let contents = "\
Rust:
safe, fast, productive.
Pick three.";

    assert_eq!(
        vec!["safe, fast, productive.", "Pick three."],
        search(query, contents)
    );
}

#[test]
fn case_sensitive() {
    let query = "duct";
    let contents = "\
Rust:
safe, fast, productive.
Pick three.
Duct tape.";

    assert_eq!(vec!["safe, fast, productive."], search(query, contents));
}

#[test]
fn case_insensitive() {
    let query = "rUsT";
    let contents = "\
Rust:
safe, fast, productive.
Pick three.
Trust me.";

    assert_eq!(
        vec!["Rust:", "Trust me."],
        search_case_insensitive(query, contents)
    );
}

#[test]
fn case_insensitive_beyond_ascii() {
    let contents = "ÄRGER\nkein Treffer\närgerlich";
    assert_eq!(
        vec!["ÄRGER", "ärgerlich"],
        search_case_insensitive("Ärger", contents)
    );
    assert_eq!(Vec::<&str>::new(), search("Ärger", contents));
}

#[test]
fn no_result() {
    assert_eq!(Vec::<&str>::new(), search("xyz", "Rust:\nsafe"));
    assert_eq!(Vec::<&str>::new(), search("a", ""));
}

#[test]
fn empty_query_finds_every_line() {
    assert_eq!(vec!["a", "", "b"], search("", "a\n\nb\n"));
}

#[test]
fn lines_follow_line_endings() {
    assert_eq!(lines(""), Vec::<&str>::new());
    assert_eq!(lines("\n"), vec![""]);
    assert_eq!(lines("a"), vec!["a"]);
    assert_eq!(lines("a\n"), vec!["a"]);
    assert_eq!(lines("a\n\n"), vec!["a", ""]);
    assert_eq!(lines("a\r\nb"), vec!["a", "b"]);
    assert_eq!(lines("a\rb\n"), vec!["a\rb"]);
    assert_eq!(lines("a\r"), vec!["a\r"]);
    assert_eq!(lines("a\r\r\nb\r\n"), vec!["a\r", "b"]);
    assert_eq!(lines("é\nü"), vec!["é", "ü"]);
    let text = "one\ntwo\r\n\nfour\r";
    assert_eq!(lines(text), text.lines().collect::<Vec<&str>>());
}

#[test]
fn contains_finds_substrings() {
    assert!(contains("safe, fast", "fast"));
    assert!(contains("safe, fast", "safe"));
    assert!(contains("safe", "safe"));
    assert!(contains("safe", ""));
    assert!(contains("", ""));
    assert!(!contains("", "a"));
    assert!(!contains("saf", "safe"));
    assert!(!contains("safe", "Safe"));
    assert!(contains("aab", "ab"));
}

#[test]
fn config_needs_query_and_path() {
    let none: Vec<String> = vec![];
    assert_eq!(Config::new(none, false).err(), Some("Didn't get a query string"));
    let one = vec![String::from("minigrep")];
    assert_eq!(Config::new(one, false).err(), Some("Didn't get a query string"));
    let two = vec![String::from("minigrep"), String::from("duct")];
    assert_eq!(Config::new(two, true).err(), Some("Didn't get a filepath"));
}

#[test]
fn config_keeps_query_path_and_case() {
    let args = vec![
        String::from("minigrep"),
        String::from("duct"),
        String::from("poem.txt"),
        String::from("ignored"),
    ];
    let config = Config::new(args, true).ok().unwrap();
    assert_eq!(config.query(), "duct");
    assert_eq!(config.filepath(), "poem.txt");
    assert!(config.ignore_case());
}

#[test]
fn configured_search_follows_the_case_flag() {
    let contents = "Rust:\nTrust me.\nrust";
    let args = |flag: bool| {
        Config::new(
            vec![String::from("p"), String::from("rust"), String::from("f")],
            flag,
        )
        .ok()
        .unwrap()
    };
    assert_eq!(matching_lines(&args(false), contents), vec!["Trust me.", "rust"]);
    assert_eq!(
        matching_lines(&args(true), contents),
        vec!["Rust:", "Trust me.", "rust"]
    );
}
