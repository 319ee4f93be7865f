use pop_launcher::calc::{decimal_comma, qalc_output, CalcApp};
use pop_launcher::pattern::CompiledPattern;
use pop_launcher::protocol::{IconSource, PluginResponse};

fn ansi() -> CompiledPattern {
    CompiledPattern::new("\\x1B\\[(?:;?[0-9]{1,3})+[mGK]").unwrap()
}

fn lines(v: &[&str]) -> Vec<String> {
    v.iter().map(|s| s.to_string()).collect()
}

#[test]
fn reads_the_value_after_the_expression() {
    assert_eq!(qalc_output(&lines(&["(2 + 2) = 4", ""]), &ansi()), Some("4".to_string()));
    assert_eq!(qalc_output(&lines(&["  sqrt(2) ≈ 1.4142136  "]), &ansi()), Some("1.4142136".to_string()));
    assert_eq!(qalc_output(&lines(&["x = (3 m)"]), &ansi()), Some("3 m".to_string()));
}

#[test]
fn joins_several_lines_and_stops_at_a_blank_one() {
    assert_eq!(
        qalc_output(&lines(&["a = 1", "b = 2", "", "c = 3"]), &ansi()),
        Some("1 2".to_string())
    );
    assert_eq!(qalc_output(&lines(&[]), &ansi()), Some(String::new()));
}

#[test]
fn removes_terminal_escapes() {
    assert_eq!(qalc_output(&lines(&["\u{1b}[1m5\u{1b}[0m = 5"]), &ansi()), Some("5".to_string()));
}

#[test]
fn problems_give_no_answer() {
    assert_eq!(qalc_output(&lines(&["error: bad"]), &ansi()), None);
    assert_eq!(qalc_output(&lines(&["warning: x = 1"]), &ansi()), None);
    assert_eq!(qalc_output(&lines(&["no value"]), &ansi()), None);
}

#[test]
fn expressions_start_with_equals() {
    assert_eq!(CalcApp::expression("= 2+2 "), Some("2+2".to_string()));
    assert_eq!(CalcApp::expression("2+2"), None);
}

#[test]
fn answers_and_activation() {
    let mut app = CalcApp::new();
    let rs = app.answer("2+2", Some("4".to_string()));
    assert!(matches!(&rs[0], PluginResponse::Append(r) if r.name == "4" && matches!(&r.icon, Some(IconSource::Name(i)) if i == "accessories-calculator")));
    assert!(matches!(&rs[1], PluginResponse::Finished));
    assert!(matches!(app.activate(), Some(PluginResponse::Fill(f)) if f == "= 4"));
    assert!(app.activate().is_none());
    let rs = app.answer("1/0", None);
    assert!(matches!(&rs[0], PluginResponse::Append(r) if r.name == "1/0 x = ?"));
    assert!(matches!(CalcApp::context(), PluginResponse::Context { id: 0, options } if options[0].name == "Qalculate! Manual"));
}

#[test]
fn decimal_comma_locale() {
    assert!(decimal_comma("decimal_point=\",\"\n"));
    assert!(!decimal_comma("decimal_point=\".\"\n"));
}

#[test]
fn spawn_failures_say_what_went_wrong() {
    assert_eq!(CalcApp::spawn_failure(true, "ignored"), "qalc command is not installed");
    assert_eq!(CalcApp::spawn_failure(false, "Permission denied"), "qalc command failed to spawn: Permission denied");
    assert_eq!(CalcApp::missing_output(), "qalc lacks stdout pipe: did you get hit by a cosmic ray?");
}
