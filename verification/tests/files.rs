use pop_launcher::file_order::{compare_entries, natural_order_fits, Order};
use pop_launcher::pulse::sink_of_line;
use pop_launcher::files::{
    completion, file_results, name_filter, query_path, visible_entries, FileEntry, FindResults, FILE_RESULTS,
};
use pop_launcher::protocol::{IconSource, PluginResponse};

#[test]
fn query_paths_expand_the_home_directory() {
    assert_eq!(query_path("~/Documents/a", "/home/me"), "/home/me/Documents/a");
    assert_eq!(query_path("~/", "/home/me"), "/home/me/");
    assert_eq!(query_path("/etc/hosts", "/home/me"), "/etc/hosts");
    assert_eq!(query_path("~/x", "/home/me/"), "/home/me/x");
}

#[test]
fn name_filters_show_hidden_entries_for_dot_names() {
    assert_eq!(name_filter(Some(".Config")), (true, ".config".to_string()));
    assert_eq!(name_filter(Some("ReadMe")), (false, "readme".to_string()));
    assert_eq!(name_filter(None), (false, String::new()));
    let names: Vec<String> = vec![".git", "src", ".hidden", "Cargo.toml"].into_iter().map(String::from).collect();
    assert_eq!(visible_entries(&names, false), vec![1, 3]);
    assert_eq!(visible_entries(&names, true), vec![0, 1, 2, 3]);
}

fn entry(i: usize) -> FileEntry {
    FileEntry { name: format!("file{}", i), description: format!("{} B", i), icon: IconSource::Mime("text/plain".to_string()) }
}

#[test]
fn file_results_show_the_first_twenty() {
    let entries: Vec<FileEntry> = (0..25).map(entry).collect();
    let rs = file_results(&entries);
    assert_eq!(rs.len(), FILE_RESULTS + 1);
    match &rs[19] {
        PluginResponse::Append(r) => {
            assert_eq!(r.id, 19);
            assert_eq!(r.name, "file19");
            assert_eq!(r.description, "19 B");
        }
        other => panic!("unexpected {:?}", other),
    }
    assert!(matches!(rs[20], PluginResponse::Finished));
    let few: Vec<FileEntry> = (0..2).map(entry).collect();
    assert_eq!(file_results(&few).len(), 3);
    assert_eq!(file_results(&Vec::new()).len(), 1);
}

#[test]
fn completions_start_from_home_and_end_directories_with_a_slash() {
    assert_eq!(completion("Documents", true), "~/Documents/");
    assert_eq!(completion("notes.txt", false), "~/notes.txt");
    assert_eq!(completion("/etc", true), "/etc/");
}

#[test]
fn find_results_stop_after_ten() {
    let mut found = FindResults::new();
    found.start();
    let (r, done) = found.on_line("docs/a.txt", "text/plain".to_string());
    assert!(!done);
    assert!(matches!(r, PluginResponse::Append(x) if x.id == 0 && x.name == "a.txt" && x.description == "~/docs/a.txt"));
    for i in 1..9 {
        let (_, done) = found.on_line(&format!("f{}", i), "text/plain".to_string());
        assert!(!done);
    }
    let (r, done) = found.on_line("last", "text/plain".to_string());
    assert!(done);
    assert!(matches!(r, PluginResponse::Append(x) if x.id == 9));
    assert_eq!(found.selected(0).map(String::as_str), Some("docs/a.txt"));
    assert_eq!(found.selected(10), None);
    found.start();
    assert_eq!(found.selected(0), None);
}

#[test]
fn entries_rank_by_the_typed_name_then_naturally() {
    // Both contain "fi": the one that starts with it comes first.
    assert_eq!(compare_entries("Profile", "File2", "fi"), Order::Greater);
    assert_eq!(compare_entries("File2", "Profile", "fi"), Order::Less);
    // Neither starts with it: natural order, numbers by value.
    assert_eq!(compare_entries("a-fi10", "a-fi2", "fi"), Order::Greater);
    assert_eq!(compare_entries("a-fi2", "a-fi10", "fi"), Order::Less);
    // Only one contains it.
    assert_eq!(compare_entries("notes-fi", "readme", "fi"), Order::Less);
    assert_eq!(compare_entries("readme", "notes-fi", "fi"), Order::Equal);
    assert!(natural_order_fits("photo4294967295.png", "photo1.png"));
    assert!(!natural_order_fits("photo4294967296.png", "photo1.png"));
    // Numbers are read only where the names differ.
    assert!(natural_order_fits("a99999999999", "b1"));
    assert!(natural_order_fits("123456789012", "123456789013"));
    assert!(!natural_order_fits("x99999999999", "x1"));
    // Equal numbers go on after one more character.
    assert!(!natural_order_fits("v07-99999999999", "v7-1"));
    assert!(natural_order_fits("v07-a", "v7-b99999999999"));
    assert_eq!(compare_entries("a99999999999", "b1", "q"), Order::Less);
}

#[test]
fn unicode_spaces_are_trimmed() {
    assert_eq!(sink_of_line("Sink #\u{3000}7\u{2009}").as_deref(), Some("7"));
    assert_eq!(sink_of_line("Sink #7\u{200B}").as_deref(), Some("7\u{200B}"));
}

#[test]
fn a_missing_fdfind_is_reported() {
    let r = FindResults::spawn_failure(true, "x");
    assert_eq!((r.id, r.name.as_str(), r.description.as_str()), (0, "fdfind command is not installed", ""));
    let r = FindResults::spawn_failure(false, "denied");
    assert_eq!(r.name, "failed to spawn fdfind process: denied");
}
