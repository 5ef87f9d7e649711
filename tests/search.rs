use hurl::{contains_text, search, search_case_insensitive, Config};

#[test]
fn one_result() {
    let query = "duct";
    let contents = "\
Rust:
safe, fast, productive.
Pick three.
Duct tape.";

    assert_eq!(vec!["safe, fast, productive."], search(query, contents));
}

#[test]
fn case_insensitive() {
    let query = "rUsT";
    let contents = "\
Rust:
safe, fast, productive.
Pick three.
Trust me.";

    assert_eq!(vec!["Rust:", "Trust me."], search_case_insensitive(query, contents));
}

#[test]
fn crlf_lines_and_final_break() {
    let contents = "alpha\r\nbeta\r\n\ngamma\n";
    assert_eq!(search("a", contents), vec!["alpha", "beta", "gamma"]);
    assert_eq!(search("", contents), vec!["alpha", "beta", "", "gamma"]);
    assert_eq!(search("\r", "x\ry"), vec!["x\ry"]);
    assert!(search("a", "").is_empty());
}

#[test]
fn case_folding_is_applied_to_lines() {
    assert_eq!(search_case_insensitive("ÉTÉ", "un été\nhiver"), vec!["un été"]);
    assert!(search("ÉTÉ", "un été\nhiver").is_empty());
}

#[test]
fn contains_text_cases() {
    assert!(contains_text("hello", "ell"));
    assert!(contains_text("hello", ""));
    assert!(!contains_text("hello", "hellos"));
}

#[test]
fn config_needs_three_arguments() {
    let args = vec!["prog".to_string(), "q".to_string()];
    assert_eq!(Config::build(&args, false).err(), Some("not enough arguments"));
    let args = vec!["prog".to_string(), "q".to_string(), "poem.txt".to_string()];
    let c = Config::build(&args, true).unwrap();
    assert_eq!(c.query, "q");
    assert_eq!(c.file_path, "poem.txt");
    assert!(c.ignore_case);
}

#[test]
fn config_error_message() {
    assert_eq!(Config::build(&[], false).err(), Some("not enough arguments"));
}

#[test]
fn config_selects_search() {
    let contents = "Rust:\nTrust me.";
    let args = vec!["prog".to_string(), "rust".to_string(), "poem.txt".to_string()];
    let exact = Config::build(&args, false).unwrap();
    assert_eq!(hurl::search_with(&exact, contents), vec!["Trust me."]);
    let folded = Config::build(&args, true).unwrap();
    assert_eq!(hurl::search_with(&folded, contents), vec!["Rust:", "Trust me."]);
}
