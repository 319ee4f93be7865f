use pop_launcher::search::{
    blank_string, echo_result, interpolate_query_command, interpolate_result, interpolate_run_command, output_var, pattern_regex, split_shell_words_of,
    regex_match_all, keywords_covered, result_for_line, split_shell_words, Config, SearchListener, SEARCH_LINES, Definition, InterpolateError, Pattern, RawConfig, Rule, Split,
};

fn defn() -> Definition {
    Definition {
        query_command: "find $KEYWORD1".to_string(),
        output_captures: regex_match_all(),
        result_name: echo_result(),
        result_desc: blank_string(),
        run_command: "open '$OUTPUT'".to_string(),
    }
}

fn kws(v: &[&str]) -> Vec<String> {
    v.iter().map(|s| s.to_string()).collect()
}

#[test]
fn defaults() {
    assert_eq!(regex_match_all(), "^.*$");
    assert_eq!(echo_result(), "$OUTPUT");
    assert_eq!(blank_string(), "");
    assert!(matches!(split_shell_words(), Split::ShellWords));
}

#[test]
fn rules_match_by_prefix_and_suffix() {
    let mut c = Config::new();
    c.append(RawConfig {
        rules: vec![
            Rule { pattern: Pattern::StartsWithKeyword(kws(&["f", "find"])), action: defn(), split: Split::ShellWords },
            Rule { pattern: Pattern::EndsWith(kws(&[".rs"])), action: defn(), split: Split::Whitespace },
            Rule { pattern: Pattern::StartsWith(kws(&["a.b"])), action: defn(), split: Split::Regex("(".to_string()) },
        ],
    });
    assert_eq!(c.rules.len(), 3);
    assert_eq!(c.rules[0].pattern.as_str(), "^(f|find)\\b");
    assert_eq!(c.rules[2].pattern.as_str(), "^(a\\.b)");
    assert!(c.rules[0].split.is_none());
    assert_eq!(c.rules[1].split.as_ref().map(|s| s.as_str()), Some("\\s+"));
    assert!(c.rules[2].split.is_none());
    assert_eq!(c.match_rule("find x").map(|r| r.pattern.as_str()), Some("^(f|find)\\b"));
    assert_eq!(c.match_rule("main.rs").map(|r| r.pattern.as_str()), Some("(\\.rs)$"));
    assert!(c.match_rule("fx").is_none());
    assert!(c.match_rule("a.b c").is_some());
    assert!(c.match_rule("axb").is_none());
}

#[test]
fn variables_of_results() {
    let k = kws(&["f", "one", "two"]);
    let caps = vec![Some("whole".to_string()), None];
    assert_eq!(output_var("OUTPUT", "out", "q", &k, &caps).unwrap(), Some("out".to_string()));
    assert_eq!(output_var("QUERY", "out", "q", &k, &caps).unwrap(), Some("q".to_string()));
    assert_eq!(output_var("KEYWORDS", "out", "q", &k, &caps).unwrap(), Some("one two".to_string()));
    assert_eq!(output_var("KEYWORD2", "out", "q", &k, &caps).unwrap(), Some("two".to_string()));
    assert_eq!(output_var("KEYWORD9", "out", "q", &k, &caps).unwrap(), None);
    assert_eq!(output_var("CAPTURE0", "out", "q", &k, &caps).unwrap(), Some("whole".to_string()));
    assert_eq!(output_var("CAPTURE1", "out", "q", &k, &caps).unwrap(), None);
    assert_eq!(output_var("HOME", "out", "q", &k, &caps).unwrap(), None);
    assert!(output_var("KEYWORDx", "out", "q", &k, &caps).is_err());
}

#[test]
fn interpolation_fills_and_splits() {
    let k = kws(&["f", "my file"]);
    let home = Some("/home/u".to_string());
    assert_eq!(interpolate_query_command("find $KEYWORD1 ~", "f 'my file'", &k, &home).unwrap(), vec!["find", "my file", "~"]);
    assert_eq!(
        interpolate_run_command("open $OUTPUT", "a b", "f x", &k, &vec![], &home).unwrap(),
        vec!["open", "a", "b"]
    );
    assert_eq!(interpolate_result("~/x $QUERY", "o", "q", &k, &vec![], &home).unwrap(), "/home/u/x q");
    assert!(matches!(
        interpolate_run_command("open '$OUTPUT", "a", "q", &k, &vec![], &home),
        Err(InterpolateError::SplitError)
    ));
    assert!(matches!(
        interpolate_result("$KEYWORDz", "a", "q", &k, &vec![], &home),
        Err(InterpolateError::LookupError(_))
    ));
}

#[test]
fn output_lines_become_results() {
    let k = kws(&["f", "x"]);
    let (r, run) = result_for_line(3, "/tmp/a", &defn(), "f x", &k, &None).unwrap();
    assert_eq!(r.id, 3);
    assert_eq!(r.name, "/tmp/a");
    assert_eq!(r.description, "");
    assert_eq!(run, vec!["open", "/tmp/a"]);
    let mut bad = defn();
    bad.output_captures = "(".to_string();
    assert!(result_for_line(0, "x", &bad, "f x", &k, &None).is_none());
}

#[test]
fn patterns_escape_their_keywords() {
    let p = Pattern::StartsWith(vec!["a.b".to_string(), "c+".to_string()]);
    assert_eq!(pattern_regex(&p), "^(a\\.b|c\\+)");
    let p = Pattern::EndsWithKeyword(vec!["x".to_string()]);
    assert_eq!(pattern_regex(&p), "\\b(x)$");
    assert_eq!(pattern_regex(&Pattern::Regex("^a+$".to_string())), "^a+$");
}

#[test]
fn queries_split_like_a_shell() {
    assert_eq!(split_shell_words_of("ddg 'rust lang' x"), Some(vec!["ddg".to_string(), "rust lang".to_string(), "x".to_string()]));
    assert_eq!(split_shell_words_of("unclosed 'quote"), None);
}

#[test]
fn the_query_fills_in_without_keywords() {
    let none: Vec<String> = Vec::new();
    assert_eq!(interpolate_query_command("grep $QUERY", "a b", &none, &None).unwrap(), vec!["grep", "a b"]);
    assert_eq!(interpolate_result("$QUERY!", "o", "q", &none, &vec![], &None).unwrap(), "q!");
    assert_eq!(interpolate_result("KEYWORDS: $QUERY", "o", "q", &none, &vec![], &None).unwrap(), "KEYWORDS: q");
}

#[test]
fn run_commands_are_results_cut_into_words() {
    let k = kws(&["f", "x"]);
    let text = interpolate_result("open $OUTPUT now", "a b", "q", &k, &vec![], &None).unwrap();
    let run = interpolate_run_command("open $OUTPUT now", "a b", "q", &k, &vec![], &None).unwrap();
    assert_eq!(split_shell_words_of(&text), Some(run));
    let e1 = interpolate_result("$KEYWORDz", "a", "q", &k, &vec![], &None);
    let e2 = interpolate_run_command("$KEYWORDz", "a", "q", &k, &vec![], &None);
    match (e1, e2) {
        (Err(InterpolateError::LookupError(m1)), Err(InterpolateError::LookupError(m2))) => {
            assert_eq!(m1, m2);
            assert!(m1.contains("KEYWORDz"));
        }
        other => panic!("unexpected {:?}", other),
    }
}

#[test]
fn configurations_with_a_bad_pattern_are_refused() {
    let mut c = Config::new();
    let rule = |p: Pattern| Rule { pattern: p, split: Split::ShellWords, action: defn() };
    assert!(!c.try_append(RawConfig { rules: vec![rule(Pattern::StartsWith(vec!["f".to_string()])), rule(Pattern::Regex("(".to_string()))] }));
    assert!(c.match_rule("f x").is_none());
    assert!(c.try_append(RawConfig { rules: vec![rule(Pattern::StartsWith(vec!["f".to_string()]))] }));
    assert!(c.match_rule("f x").is_some());
}

#[test]
fn a_search_reads_ten_lines_and_numbers_them() {
    let k = kws(&["f", "x"]);
    let mut d = defn();
    d.output_captures = "^/".to_string();
    let mut l = SearchListener::new();
    let (r, done) = l.on_line("/a", &d, "f x", &k, &None);
    assert_eq!(r.map(|r| (r.id, r.name)), Some((0, "/a".to_string())));
    assert!(!done);
    let (r, done) = l.on_line("not a path", &d, "f x", &k, &None);
    assert!(r.is_none());
    assert!(!done);
    let (r, _) = l.on_line("/b", &d, "f x", &k, &None);
    assert_eq!(r.map(|r| r.id), Some(2));
    assert_eq!(l.selected(0), Some(&vec!["open".to_string(), "/a".to_string()]));
    assert_eq!(l.selected(1), Some(&vec!["open".to_string(), "/b".to_string()]));
    assert_eq!(l.selected(2), None);
    let mut last = false;
    for n in 3..SEARCH_LINES {
        assert!(!last);
        let (_, done) = l.on_line(&format!("/{}", n), &d, "f x", &k, &None);
        last = done;
    }
    assert!(last);
    assert_eq!(l.lines, 10);
    assert_eq!(l.runs.len(), 9);
}

#[test]
fn a_query_command_that_cannot_start_is_reported() {
    let r = SearchListener::spawn_failure(true, "x");
    assert_eq!((r.id, r.name.as_str(), r.description.as_str()), (0, "command not found", ""));
    assert_eq!(SearchListener::spawn_failure(false, "denied").name, "failed to spawn process: denied");
}

#[test]
fn only_the_keywords_variable_needs_a_keyword() {
    let none: Vec<String> = Vec::new();
    assert!(!keywords_covered("$KEYWORDS", &none));
    assert!(!keywords_covered("a ${KEYWORDS} b", &none));
    assert!(!keywords_covered("${KEYWORDS:-x}", &none));
    assert!(!keywords_covered("$KEYWORDS!", &none));
    assert!(keywords_covered("$KEYWORDS1", &none));
    assert!(keywords_covered("$KEYWORDS_x", &none));
    assert!(keywords_covered("${KEYWORDSX}", &none));
    assert!(keywords_covered("KEYWORDS: $QUERY", &none));
    assert!(keywords_covered("$KEYWORDS", &kws(&["f"])));
    assert!(matches!(
        interpolate_result("$KEYWORDS1 x", "o", "q", &none, &vec![], &None),
        Err(InterpolateError::LookupError(_))
    ));
}
