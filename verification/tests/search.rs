use minigrep::{run, search, search_case_insensitive, select_by_key, Config};

#[test]
fn one_result() {
    let query = "duct";
    let contents = "\
Rust
safe, fast, productive.
Pick three.
";

    assert_eq!(vec!["safe, fast, productive."], search(query, contents));
}

#[test]
fn case_sensitive() {
    let query = "duct";
    let contents = "\
Rust
safe, fast, productive.
Pick three.
Duct tape";
    assert_eq!(vec!["safe, fast, productive."], search(query, contents));
}

#[test]
fn case_insensitive() {
    let query = "rUsT";
    let contents = "\
Rust
safe, fast, productive.
Pick three.
Trust me.
Duct tape";
    assert_eq!(
        vec!["Rust", "Trust me."],
        search_case_insensitive(query, contents)
    );
}

#[test]
fn every_reported_line_contains_the_query_and_none_is_missed() {
    let contents = "alpha\nbeta\ngamma\ndelta\nalphabet\n";
    let found = search("al", contents);
    assert_eq!(found, vec!["alpha", "alphabet"]);
    for line in contents.lines() {
        assert_eq!(line.contains("al"), found.contains(&line));
    }
}

#[test]
fn lines_are_reported_in_the_order_of_the_text() {
    let contents = "b1\na\nb2\nb0\n";
    assert_eq!(search("b", contents), vec!["b1", "b2", "b0"]);
}

#[test]
fn repeated_lines_are_each_reported() {
    let contents = "same\nother\nsame\nsame";
    assert_eq!(search("same", contents), vec!["same", "same", "same"]);
    assert_eq!(search_case_insensitive("SAME", contents), vec!["same", "same", "same"]);
}

#[test]
fn nothing_matches() {
    assert_eq!(search("zebra", "Rust\nsafe\n"), Vec::<&str>::new());
    assert_eq!(search_case_insensitive("zebra", "Rust\nsafe\n"), Vec::<&str>::new());
}

#[test]
fn empty_content_has_no_lines() {
    assert_eq!(search("", ""), Vec::<&str>::new());
    assert_eq!(search("a", ""), Vec::<&str>::new());
    assert_eq!(search_case_insensitive("", ""), Vec::<&str>::new());
}

#[test]
fn empty_query_reports_every_line() {
    let contents = "Rust\nsafe, fast, productive.\n\nPick three.\nDuct tape";
    let all = vec!["Rust", "safe, fast, productive.", "", "Pick three.", "Duct tape"];
    assert_eq!(search("", contents), all);
    assert_eq!(search_case_insensitive("", contents), all);
}

#[test]
fn a_final_line_feed_adds_no_line() {
    assert_eq!(search("", "one\ntwo\n"), vec!["one", "two"]);
    assert_eq!(search("", "one\ntwo"), vec!["one", "two"]);
}

#[test]
fn a_lone_line_feed_is_one_empty_line() {
    assert_eq!(search("", "\n"), vec![""]);
    assert_eq!(search("", "\n\n"), vec!["", ""]);
    assert_eq!(search("", "a\n\nb"), vec!["a", "", "b"]);
}

#[test]
fn a_carriage_return_before_a_line_feed_belongs_to_the_line_end() {
    assert_eq!(search("", "one\r\ntwo\r\n"), vec!["one", "two"]);
    assert_eq!(search("e", "one\r\ntwo\r\n"), vec!["one"]);
    assert_eq!(search("\r", "one\r\ntwo\r\n"), Vec::<&str>::new());
}

#[test]
fn only_one_carriage_return_is_taken_from_a_line_end() {
    assert_eq!(search("", "one\r\r\ntwo"), vec!["one\r", "two"]);
}

#[test]
fn a_carriage_return_without_a_line_feed_stays_in_the_line() {
    assert_eq!(search("", "one\rtwo\nthree"), vec!["one\rtwo", "three"]);
    assert_eq!(search("", "one\ntwo\r"), vec!["one", "two\r"]);
    assert_eq!(search("\r", "one\ntwo\r"), vec!["two\r"]);
}

#[test]
fn a_query_with_a_line_feed_is_in_no_line() {
    assert_eq!(search("a\nb", "a\nb\n"), Vec::<&str>::new());
}

#[test]
fn a_query_longer_than_the_line_is_not_in_it() {
    assert_eq!(search("abcd", "abc\nabcd\nxabcdx"), vec!["abcd", "xabcdx"]);
}

#[test]
fn case_sensitive_search_tells_letters_by_case() {
    let contents = "Rust\nrust\nRUST";
    assert_eq!(search("rust", contents), vec!["rust"]);
    assert_eq!(search("Rust", contents), vec!["Rust"]);
}

#[test]
fn case_insensitive_search_returns_the_lines_unfolded() {
    let contents = "Rust\nrust\nRUST\nrest";
    assert_eq!(search_case_insensitive("rUsT", contents), vec!["Rust", "rust", "RUST"]);
    for line in search_case_insensitive("rUsT", contents) {
        assert!(line.to_lowercase().contains("rust"));
    }
}

#[test]
fn case_is_folded_beyond_ascii() {
    let contents = "ÄPFEL und Birnen\nÉcole\nnichts";
    assert_eq!(search_case_insensitive("äpfel", contents), vec!["ÄPFEL und Birnen"]);
    assert_eq!(search_case_insensitive("ÉCOLE", contents), vec!["École"]);
    assert_eq!(search("äpfel", contents), Vec::<&str>::new());
}

#[test]
fn a_query_is_matched_by_characters() {
    let contents = "naïve\nnaive\n日本語のテキスト";
    assert_eq!(search("ï", contents), vec!["naïve"]);
    assert_eq!(search("本語", contents), vec!["日本語のテキスト"]);
}

#[test]
fn select_by_key_compares_keys_and_returns_lines() {
    let entries = vec![
        ("Rust", String::from("rust")),
        ("safe, fast, productive.", String::from("safe, fast, productive.")),
        ("Trust me.", String::from("trust me.")),
    ];
    assert_eq!(select_by_key(&entries, "rust"), vec!["Rust", "Trust me."]);
    assert_eq!(select_by_key(&entries, "Rust"), Vec::<&str>::new());
    assert_eq!(
        select_by_key(&entries, ""),
        vec!["Rust", "safe, fast, productive.", "Trust me."]
    );
}

#[test]
fn select_by_key_looks_at_the_key_only() {
    let entries = vec![("line one", String::from("x")), ("x", String::from("line two"))];
    assert_eq!(select_by_key(&entries, "x"), vec!["line one"]);
    assert_eq!(select_by_key(&[], "x"), Vec::<&str>::new());
}

#[test]
fn run_searches_as_the_configuration_says() {
    let contents = "Rust\nsafe, fast, productive.\nPick three.\nTrust me.\nDuct tape";
    let exact = Config {
        file_path: String::from("poem.txt"),
        query: String::from("rUsT"),
        case_sensitive: true,
    };
    assert_eq!(run(&exact, contents), Vec::<&str>::new());
    let folded = Config {
        file_path: String::from("poem.txt"),
        query: String::from("rUsT"),
        case_sensitive: false,
    };
    assert_eq!(run(&folded, contents), vec!["Rust", "Trust me."]);
    let duct = Config {
        file_path: String::from("poem.txt"),
        query: String::from("duct"),
        case_sensitive: true,
    };
    assert_eq!(run(&duct, contents), vec!["safe, fast, productive."]);
}

#[test]
fn run_with_an_empty_query_reports_every_line() {
    let contents = "a\nB\n";
    for case_sensitive in [true, false] {
        let config = Config {
            file_path: String::from("poem.txt"),
            query: String::new(),
            case_sensitive,
        };
        assert_eq!(run(&config, contents), vec!["a", "B"]);
    }
}
