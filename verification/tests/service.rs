use pop_launcher::pattern::CompiledPattern;
use pop_launcher::plugin_config::{PluginConfig, PluginExec, PluginPriority};
use pop_launcher::protocol::{IconSource, PluginResponse, PluginSearchResult, Request, Response};
use pop_launcher::recent::RecentUseStorage;
use pop_launcher::service::{FinishStep, PluginEventAction, RequestAction, SearchPlan, Service};

fn config(name: &str, regex: Option<&str>) -> PluginConfig {
    PluginConfig {
        name: name.to_string(),
        description: Some(format!("{} plugin", name)),
        icon: Some(format!("{}-icon", name)),
        command: PluginExec { path: format!("/usr/lib/{}", name), args: Vec::new() },
        regex: regex.map(|r| CompiledPattern::new(r).unwrap()),
        isolate: false,
        isolate_with: None,
        show_on_empty_query: false,
        no_sort: false,
        generic_query: None,
        long_lived: false,
        history: false,
        priority: PluginPriority::Default,
    }
}

fn result(id: u32, name: &str) -> PluginSearchResult {
    PluginSearchResult::new(id, name.to_string(), String::new())
}

#[test]
fn load_plugin_keeps_the_first_of_a_name() {
    let mut s = Service::new(RecentUseStorage::new());
    let a = s.load_plugin(config("files", None));
    assert!(a.is_some());
    assert!(s.load_plugin(config("files", Some("^/"))).is_none());
    assert!(s.load_plugin(config("web", None)).is_some());
    assert_eq!(s.plugin_keys().len(), 2);
    assert!(s.plugin_config(a.unwrap()).unwrap().regex.is_none());
}

#[test]
fn search_reaches_the_plugins_whose_regex_matches() {
    let mut s = Service::new(RecentUseStorage::new());
    let files = s.register_plugin(config("files", Some("^(/|~)")));
    let web = s.register_plugin(config("web", Some("^ddg ")));
    let apps = s.register_plugin(config("apps", None));
    match s.search("/usr".to_string()) {
        SearchPlan::Dispatch { query, targets, isolated } => {
            assert_eq!(query, "/usr");
            assert!(!isolated);
            let keys: Vec<usize> = targets.iter().map(|m| m.plugin).collect();
            assert_eq!(keys, vec![files, apps]);
            assert!(targets.iter().all(|m| m.launch));
            assert!(targets.iter().all(|m| matches!(&m.request, Request::Search(q) if q == "/usr")));
        }
        other => panic!("unexpected plan {:?}", other),
    }
    let _ = web;
}

#[test]
fn empty_query_only_reaches_plugins_shown_on_empty_queries() {
    let mut s = Service::new(RecentUseStorage::new());
    let mut shown = config("recent", None);
    shown.show_on_empty_query = true;
    let recent = s.register_plugin(shown);
    s.register_plugin(config("apps", None));
    match s.search(String::new()) {
        SearchPlan::Dispatch { targets, .. } => {
            let keys: Vec<usize> = targets.iter().map(|m| m.plugin).collect();
            assert_eq!(keys, vec![recent]);
        }
        other => panic!("unexpected plan {:?}", other),
    }
}

#[test]
fn isolating_plugin_takes_the_query_alone() {
    let mut s = Service::new(RecentUseStorage::new());
    s.register_plugin(config("apps", None));
    let mut help = config("help", Some("^\\?"));
    help.isolate = true;
    help.no_sort = true;
    let help_key = s.register_plugin(help);
    match s.search("?".to_string()) {
        SearchPlan::Dispatch { targets, isolated, .. } => {
            assert!(isolated);
            assert_eq!(targets.len(), 1);
            assert_eq!(targets[0].plugin, help_key);
        }
        other => panic!("unexpected plan {:?}", other),
    }
    s.search_delivered(help_key, true);
    s.append(help_key, result(0, "b"));
    s.append(help_key, result(1, "a"));
    assert_eq!(s.finished(help_key), FinishStep::ShowResults);
    let shown = s.sort(&vec![0, 0]);
    let names: Vec<&str> = shown.iter().map(|r| r.name.as_str()).collect();
    assert_eq!(names, vec!["b", "a"]);
}

#[test]
fn search_backs_off_while_plugins_answer() {
    let mut s = Service::new(RecentUseStorage::new());
    let apps = s.register_plugin(config("apps", None));
    let targets = match s.search("fi".to_string()) {
        SearchPlan::Dispatch { targets, .. } => targets,
        other => panic!("unexpected plan {:?}", other),
    };
    assert_eq!(targets.len(), 1);
    s.search_delivered(apps, false);
    match s.search("fir".to_string()) {
        SearchPlan::Backoff { interrupt } => assert_eq!(interrupt, vec![apps]),
        other => panic!("unexpected plan {:?}", other),
    }
    match s.search("fire".to_string()) {
        SearchPlan::Backoff { interrupt } => assert!(interrupt.is_empty()),
        other => panic!("unexpected plan {:?}", other),
    }
    assert_eq!(s.query(), "fire");
    assert_eq!(s.finished(apps), FinishStep::SearchAgain);
    match s.search(String::new()) {
        SearchPlan::Dispatch { query, .. } => assert_eq!(query, "fire"),
        other => panic!("unexpected plan {:?}", other),
    }
}

#[test]
fn sort_orders_by_priority_and_relevance() {
    let mut s = Service::new(RecentUseStorage::new());
    let low = {
        let mut c = config("low", None);
        c.priority = PluginPriority::Low;
        s.register_plugin(c)
    };
    let high = {
        let mut c = config("high", None);
        c.priority = PluginPriority::High;
        s.register_plugin(c)
    };
    s.search("x".to_string());
    s.append(low, result(0, "low-best"));
    s.append(high, result(0, "high-worse"));
    s.append(high, result(1, "high-better"));
    let shown = s.sort(&vec![100, 1, 50]);
    let names: Vec<&str> = shown.iter().map(|r| r.name.as_str()).collect();
    assert_eq!(names, vec!["high-better", "high-worse", "low-best"]);
    let ids: Vec<u32> = shown.iter().map(|r| r.id).collect();
    assert_eq!(ids, vec![0, 1, 2]);
    assert!(matches!(&shown[0].category_icon, Some(IconSource::Name(i)) if i == "high-icon"));
}

#[test]
fn sort_shows_eight_results_and_windows_first() {
    let mut s = Service::new(RecentUseStorage::new());
    let p = s.register_plugin(config("apps", None));
    s.search("a".to_string());
    for i in 0..10 {
        let mut r = result(i, &format!("r{}", i));
        if i == 5 {
            r.window = Some((0, 7));
        }
        s.append(p, r);
    }
    let shown = s.sort(&vec![0; 10]);
    assert_eq!(shown.len(), 8);
    assert_eq!(shown[0].name, "r5");
    assert_eq!(shown[0].id, 5);
    assert_eq!(shown[1].name, "r0");
}

#[test]
fn sort_shows_a_hundred_results_for_paths() {
    let mut s = Service::new(RecentUseStorage::new());
    let p = s.register_plugin(config("files", None));
    s.search("~/".to_string());
    for i in 0..120 {
        s.append(p, result(i, "f"));
    }
    let shown = s.sort(&vec![0; 120]);
    assert_eq!(shown.len(), 100);
}

#[test]
fn activate_forwards_and_remembers_commands() {
    let mut s = Service::new(RecentUseStorage::new());
    let p = s.register_plugin(config("apps", None));
    s.search("f".to_string());
    let mut r = result(42, "Firefox");
    r.exec_command = Some("firefox".to_string());
    s.append(p, r);
    s.append(p, result(43, "Files"));
    let a = s.activate(0);
    assert!(a.remembered);
    let m = a.message.unwrap();
    assert_eq!(m.plugin, p);
    assert!(matches!(m.request, Request::Activate(42)));
    assert_eq!(s.recent_storage().get_freq("Firefox"), 1);
    let b = s.activate(1);
    assert!(!b.remembered);
    assert!(!b.message.unwrap().launch);
    assert!(s.activate(5).message.is_none());
}

#[test]
fn context_response_is_addressed_to_the_shown_position() {
    let mut s = Service::new(RecentUseStorage::new());
    let p = s.register_plugin(config("apps", None));
    s.search("f".to_string());
    s.append(p, result(42, "Firefox"));
    s.sort(&vec![0]);
    match s.handle_plugin_response(p, PluginResponse::Context { id: 42, options: Vec::new() }) {
        PluginEventAction::Respond(Response::Context { id, .. }) => assert_eq!(id, 0),
        other => panic!("unexpected action {:?}", other),
    }
    assert!(matches!(
        s.handle_plugin_response(p, PluginResponse::Context { id: 7, options: Vec::new() }),
        PluginEventAction::Nothing
    ));
}

#[test]
fn exit_reaches_every_plugin() {
    let mut s = Service::new(RecentUseStorage::new());
    let a = s.register_plugin(config("a", None));
    let b = s.register_plugin(config("b", None));
    match s.handle_request(Request::Exit) {
        RequestAction::Exit(ms) => {
            let keys: Vec<usize> = ms.iter().map(|m| m.plugin).collect();
            assert_eq!(keys, vec![a, b]);
            assert!(ms.iter().all(|m| matches!(m.request, Request::Exit)));
        }
        other => panic!("unexpected action {:?}", other),
    }
}

#[test]
fn deactivate_finishes_and_asks_for_removal() {
    let mut s = Service::new(RecentUseStorage::new());
    let a = s.register_plugin(config("a", None));
    s.search("x".to_string());
    s.search_delivered(a, false);
    match s.handle_plugin_response(a, PluginResponse::Deactivate) {
        PluginEventAction::Finished { step, deactivate } => {
            assert_eq!(step, FinishStep::ShowResults);
            assert!(deactivate);
        }
        other => panic!("unexpected action {:?}", other),
    }
    s.remove_plugin(a);
    assert!(s.plugin_keys().is_empty());
}

#[test]
fn help_lists_the_plugins_with_a_prefix() {
    let mut s = Service::new(RecentUseStorage::new());
    let mut web = config("web", None);
    web.generic_query = Some("ddg ".to_string());
    s.register_plugin(web);
    s.register_plugin(config("apps", None));
    let details = s.help_details();
    assert_eq!(details.len(), 2);
    assert_eq!(details[0].name, "web");
    assert_eq!(details[0].description, "web plugin");
    assert_eq!(details[0].help.as_deref(), Some("ddg "));
    let help = pop_launcher::help::HelpPlugin { details };
    let rs = help.search();
    assert_eq!(rs.len(), 2);
    assert!(matches!(&rs[0], PluginResponse::Append(r) if r.name == "web" && r.id == 0));
    assert!(matches!(&rs[1], PluginResponse::Finished));
    assert!(matches!(help.activate(0), Some(PluginResponse::Fill(f)) if f == "ddg "));
    assert!(help.activate(1).is_none());
}

#[test]
fn removing_a_registered_plugin_restores_the_plugins() {
    let mut s = Service::new(RecentUseStorage::new());
    let a = s.register_plugin(config("calc", Some("^=")));
    let before = s.plugin_keys();
    let b = s.register_plugin(config("web", None));
    assert_ne!(a, b);
    s.remove_plugin(b);
    assert_eq!(s.plugin_keys(), before);
    assert!(s.plugin_config(b).is_none());
    assert_eq!(s.plugin_config(a).unwrap().name, "calc");
}

#[test]
fn plugins_are_keyed_in_the_order_they_are_loaded() {
    let mut s = Service::new(RecentUseStorage::new());
    let a = s.load_plugin(config("local-web", None)).unwrap();
    let b = s.load_plugin(config("calc", None)).unwrap();
    assert!(s.load_plugin(config("local-web", None)).is_none());
    let help = s.register_plugin(config("help", None));
    assert_eq!((a, b, help), (0, 1, 2));
    assert_eq!(s.plugin_keys(), vec![0, 1, 2]);
}
