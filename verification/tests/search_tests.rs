use minigrep::matching_lines;
use minigrep::search;
use minigrep::search_case_intensive;
use minigrep::Config;

#[test]
fn case_sensitive() {
    let query = "rodu";
    let query2 = "ick";
    let query3 = "not_in_the_content";
    let empty_vec: Vec<&str> = Vec::new();
    let contents = "\
Rust:
safe, fast, productive.
Pick three.
Shit I'm sick now.";

    assert_eq!(vec!["safe, fast, productive."], search(query, contents));
    assert_eq!(vec!["Pick three.", "Shit I'm sick now."], search(query2, contents));
    assert_eq!(empty_vec, search(query3, contents));
}

#[test]
fn case_insensitive() {
    let query = "rUSt";
    let contents = "\
Rust:
safe, fast, productive.
Pick three.
Trust me.";

    assert_eq!(vec!["Rust:", "Trust me."], search_case_intensive(query, contents));
}

#[test]
fn exact_scenario_poem() {
    let contents = "\
Rust:
safe, fast, productive.
Pick three.
Trust me.";

    assert_eq!(vec!["safe, fast, productive."], search("rodu", contents));
    assert_eq!(vec!["Pick three."], search("ick", contents));
    assert_eq!(vec!["Rust:", "Trust me."], search_case_intensive("rUSt", contents));
}

#[test]
fn empty_query_returns_every_line() {
    let contents = "alpha\n\nbeta\n";
    let expected = vec!["alpha", "", "beta"];
    assert_eq!(expected, search("", contents));
    assert_eq!(expected, search_case_intensive("", contents));
}

#[test]
fn empty_corpus_returns_nothing() {
    let empty: Vec<&str> = Vec::new();
    assert_eq!(empty, search("anything", ""));
    assert_eq!(empty, search_case_intensive("anything", ""));
    assert_eq!(empty, search("", ""));
}

#[test]
fn absent_token_returns_nothing() {
    let empty: Vec<&str> = Vec::new();
    let contents = "one fish\ntwo fish\nred fish\nblue fish";
    assert_eq!(empty, search("absent_token", contents));
}

#[test]
fn crlf_and_trailing_newline() {
    let contents = "first\r\nsecond\nthird\n";
    assert_eq!(vec!["first", "second", "third"], search("", contents));
    assert_eq!(vec!["first"], search("fir", contents));
    // a carriage return at the very end of input is part of the last line
    assert_eq!(vec!["tail\r"], search("tail", "tail\r"));
}

#[test]
fn query_longer_than_line_matches_nothing() {
    let empty: Vec<&str> = Vec::new();
    assert_eq!(empty, search("abcdef", "abc\ndef"));
}

#[test]
fn duplicate_lines_are_all_returned() {
    let contents = "echo\nother\necho";
    assert_eq!(vec!["echo", "echo"], search("echo", contents));
}

#[test]
fn caseless_query_matches_same_in_both_modes() {
    let contents = "count 42\nCOUNT 42\nnothing";
    assert_eq!(vec!["count 42", "COUNT 42"], search("42", contents));
    assert_eq!(vec!["count 42", "COUNT 42"], search_case_intensive("42", contents));
}

#[test]
fn matching_lines_follows_the_configured_mode() {
    let contents = "Rust:\nsafe, fast, productive.\nPick three.\nTrust me.";
    let args: Vec<String> =
        ["prog", "rUSt", "poem.txt"].iter().map(|s| s.to_string()).collect();

    let exact = Config::build(&args, false).unwrap();
    let empty: Vec<&str> = Vec::new();
    assert_eq!(empty, matching_lines(&exact, contents));

    let folded = Config::build(&args, true).unwrap();
    assert_eq!(vec!["Rust:", "Trust me."], matching_lines(&folded, contents));
}

#[test]
fn case_intensive_is_superset_of_exact() {
    let contents = "Rust:\nsafe, fast, productive.\nPick three.\nTrust me.";
    let exact = search("rust", contents);
    let folded = search_case_intensive("rust", contents);
    assert!(folded.len() >= exact.len());
    for line in &exact {
        assert!(folded.contains(line));
    }
}
