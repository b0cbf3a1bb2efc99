use dojo::minigrep::{
    find_first_match, format_results, render_matches, search, search_case_insensitive, Config,
    LineMatch, SearchResult,
};

#[test]
fn test_find_first_match_found() {
    let contents = "hello\nworld\nhello rust\ngoodbye";
    let result = find_first_match(contents, "rust");
    assert_eq!(result, Some("hello rust"));
}

#[test]
fn test_find_first_match_not_found() {
    let contents = "hello\nworld\ngoodbye";
    let result = find_first_match(contents, "rust");
    assert_eq!(result, None);
}

#[test]
fn test_find_first_match_first_line() {
    let contents = "rust is great\nhello rust\nrust again";
    let result = find_first_match(contents, "rust");
    assert_eq!(result, Some("rust is great"));
}

#[test]
fn test_config_build_success() {
    let args = vec![
        String::from("minigrep"),
        String::from("needle"),
        String::from("haystack.txt"),
    ];
    let config = Config::build(&args);
    assert!(config.is_ok());

    let config = config.ok().unwrap();
    assert_eq!(config.query, "needle");
    assert_eq!(config.filename, "haystack.txt");
}

#[test]
fn test_config_build_not_enough_args() {
    let args = vec![String::from("minigrep")];
    let config = Config::build(&args);
    assert!(config.is_err());
}

#[test]
fn test_config_build_missing_filename() {
    let args = vec![String::from("minigrep"), String::from("query")];
    let config = Config::build(&args);
    assert!(config.is_err());
}

#[test]
fn test_config_case_sensitive_default() {
    let args = vec![
        String::from("minigrep"),
        String::from("query"),
        String::from("file.txt"),
    ];
    let config = Config::build(&args).ok().unwrap();
    assert!(config.case_sensitive);
}

#[test]
fn test_config_display_info() {
    let args = vec![
        String::from("minigrep"),
        String::from("test"),
        String::from("sample.txt"),
    ];
    let config = Config::build(&args).ok().unwrap();
    let info = config.display_info();
    assert!(info.contains("test"));
    assert!(info.contains("sample.txt"));
}

#[test]
fn test_line_match_new() {
    let m = LineMatch::new(1, "Hello, world!");
    assert_eq!(m.line_number, 1);
    assert_eq!(m.content, "Hello, world!");
}

#[test]
fn test_line_match_format() {
    let m = LineMatch::new(42, "The answer");
    let formatted = m.format();
    assert!(formatted.contains("42"));
    assert!(formatted.contains("The answer"));
    assert!(formatted.starts_with("[Line"));
}

#[test]
fn test_search_result_trait() {
    let m = LineMatch::new(1, "test");
    let result: &dyn SearchResult = &m;
    assert!(result.format().contains("test"));
}

#[test]
fn test_print_results_generic() {
    let matches = vec![LineMatch::new(1, "first"), LineMatch::new(5, "second")];
    let output = format_results(&matches);
    assert!(output.contains("first"));
    assert!(output.contains("second"));
    assert!(output.contains("1"));
    assert!(output.contains("5"));
}

#[test]
fn test_line_match_equality() {
    let m1 = LineMatch::new(1, "test");
    let m2 = LineMatch::new(1, "test");
    let m3 = LineMatch::new(2, "test");
    assert_eq!(m1, m2);
    assert_ne!(m1, m3);
}

#[test]
fn test_search_single_result() {
    let contents = "Rust:\nsafe, fast, productive.\nPick three.";
    let results = search("safe", contents);
    assert_eq!(results, vec!["safe, fast, productive."]);
}

#[test]
fn test_search_multiple_results() {
    let contents = "\
Rust:
safe, fast, productive.
Pick three.
Trust me, it's safe.";
    let results = search("safe", contents);
    assert_eq!(results.len(), 2);
    assert!(results.contains(&"safe, fast, productive."));
    assert!(results.contains(&"Trust me, it's safe."));
}

#[test]
fn test_search_no_results() {
    let contents = "Hello\nWorld\nRust";
    let results = search("Python", contents);
    assert!(results.is_empty());
}

#[test]
fn test_search_case_insensitive() {
    let contents = "\
Rust:
safe, fast, productive.
Pick three.
Trust me.";
    let results = search_case_insensitive("rust", contents);
    assert_eq!(results, vec!["Rust:", "Trust me."]);
}

#[test]
fn test_search_case_insensitive_multiple() {
    let contents = "HELLO\nhello\nHeLLo\nworld";
    let results = search_case_insensitive("hello", contents);
    assert_eq!(results.len(), 3);
}

#[test]
fn test_lifetime_reference_validity() {
    let contents = String::from("line one\nline two\nline three");
    let results = search("two", &contents);

    assert_eq!(results[0], "line two");
    assert!(contents.contains(results[0]));
}

#[test]
fn config_fourth_argument_sets_case_sensitivity() {
    let mut args = vec![
        String::from("minigrep"),
        String::from("query"),
        String::from("file.txt"),
        String::from("true"),
    ];
    assert!(Config::build(&args).ok().unwrap().case_sensitive);
    args[3] = String::from("false");
    assert!(!Config::build(&args).ok().unwrap().case_sensitive);
    args[3] = String::from("TRUE");
    assert!(!Config::build(&args).ok().unwrap().case_sensitive);
}

#[test]
fn config_build_error_text() {
    let args: Vec<String> = Vec::new();
    assert_eq!(Config::build(&args).err(), Some("Not enough arguments"));
}

#[test]
fn display_info_exact_text() {
    let config = Config {
        query: String::from("q"),
        filename: String::from("f.txt"),
        case_sensitive: false,
    };
    assert_eq!(
        config.display_info(),
        "query: q, filename: f.txt, case_sensitive: false"
    );
}

#[test]
fn line_match_format_exact_text() {
    assert_eq!(LineMatch::new(0, "x").format(), "[Line0], x");
    assert_eq!(LineMatch::new(1204, "abc").format(), "[Line1204], abc");
}

#[test]
fn format_results_joins_with_line_feeds() {
    let none: Vec<LineMatch> = Vec::new();
    assert_eq!(format_results(&none), "");
    let one = vec![LineMatch::new(3, "a")];
    assert_eq!(format_results(&one), "[Line3], a");
    let two = vec![LineMatch::new(1, "first"), LineMatch::new(5, "second")];
    assert_eq!(format_results(&two), "[Line1], first\n[Line5], second");
}

#[test]
fn search_cuts_lines_at_both_line_endings() {
    let results = search("a", "ab\r\nca\n\nxyz\na\r");
    assert_eq!(results, vec!["ab", "ca", "a\r"]);
    assert!(search("", "").is_empty());
    assert_eq!(search("", "\n"), vec![""]);
}

#[test]
fn search_case_insensitive_lowers_both_sides() {
    let results = search_case_insensitive("RuSt", "rusty\nTRUST\nrest");
    assert_eq!(results, vec!["rusty", "TRUST"]);
}

#[test]
fn render_matches_numbers_the_matches_from_zero() {
    let config = Config {
        query: String::from("you"),
        filename: String::from("poem.txt"),
        case_sensitive: true,
    };
    let text = "I'm nobody! Who are you?\nAre you nobody, too?\nThen there's a pair of us";
    assert_eq!(
        render_matches(&config, text),
        "[Line0], I'm nobody! Who are you?\n[Line1], Are you nobody, too?"
    );
    let insensitive = Config {
        query: String::from("NOBODY"),
        filename: String::from("poem.txt"),
        case_sensitive: false,
    };
    assert_eq!(
        render_matches(&insensitive, text),
        "[Line0], I'm nobody! Who are you?\n[Line1], Are you nobody, too?"
    );
    assert_eq!(render_matches(&config, "nothing here"), "");
}
