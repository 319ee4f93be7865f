use pop_launcher::browser::{lowercase_query, rank_by_overlap, strip_prefix_or_empty, Bookmark, Browser, HistoryEntry};
use pop_launcher::desktop_entries::{
    activate_context_response, activate_response, context_response, cosmic_context, gnome_context, is_shown, listed_entries,
    EntryInfo, GpuInfo,
};
use pop_launcher::external::{plugin_call, toolkit_call, ExternalPluginState, PluginCall};
use pop_launcher::files::{find_result, mime_from_path, search_pattern};
use pop_launcher::graphics::{select_gpus, Dev, Driver, Gpus};
use pop_launcher::manifest::{load, PluginBinary, PluginConfig, PluginQuery};
use pop_launcher::pop_shell::{bool_true, SearchScope};
use pop_launcher::protocol::{GpuPreference, IconSource, PluginResponse, Request};
use pop_launcher::pulse;
use pop_launcher::recent_files::normalized;
use pop_launcher::scripts::{add_script, parse_header, search_scripts, ScriptInfo};
use pop_launcher::terminal::TerminalApp;

fn entry(appid: &str, name: &str, exec: &str) -> EntryInfo {
    EntryInfo {
        appid: appid.to_string(),
        flatpak: None,
        path: format!("/usr/share/applications/{}.desktop", appid),
        name: Some(name.to_string()),
        default_name: Some(name.to_string()),
        exec_command: Some(exec.to_string()),
        not_show_in: None,
        only_show_in: None,
        no_display: false,
        prefers_non_default_gpu: false,
        actions: vec!["new-window".to_string()],
    }
}

#[test]
fn desktop_entries_are_filtered_and_deduplicated() {
    let mut hidden = entry("hidden", "Hidden", "hidden");
    hidden.no_display = true;
    let mut only_kde = entry("kde", "Kde", "kde");
    only_kde.only_show_in = Some(vec!["KDE".to_string()]);
    let mut not_gnome = entry("ng", "Ng", "ng");
    not_gnome.not_show_in = Some(vec!["GNOME".to_string()]);
    let entries = vec![
        entry("firefox", "Firefox", "firefox %u"),
        entry("firefox", "Firefox copy", "firefox"),
        entry("off", "Off", "false --x"),
        entry("shell", "GNOME Shell", "gnome-shell"),
        hidden,
        only_kde,
        not_gnome,
    ];
    let current = Some(vec!["gnome".to_string()]);
    assert_eq!(listed_entries(&entries, &current), vec![0]);
    assert!(is_shown(&entries[5], &Some(vec!["kde".to_string()])));
    assert!(is_shown(&entries[6], &None));
}

#[test]
fn desktop_entry_launches() {
    let mut e = entry("game", "Game", "game");
    e.prefers_non_default_gpu = true;
    assert!(matches!(activate_response(&e), PluginResponse::DesktopEntry { gpu_preference: GpuPreference::NonDefault, action_name: None, .. }));
    assert!(matches!(activate_context_response(&e, 1, true, 2), PluginResponse::DesktopEntry { gpu_preference: GpuPreference::SpecificIdx(1), .. }));
    assert!(matches!(activate_context_response(&e, 2, true, 2), PluginResponse::DesktopEntry { action_name: Some(a), .. } if a == "new-window"));
    assert!(matches!(activate_context_response(&e, 0, false, 2), PluginResponse::DesktopEntry { gpu_preference: GpuPreference::Default, .. }));
    let g = gnome_context(&e, true);
    assert_eq!(g[0].name, "Launch Using Integrated Graphics Card");
    assert!(gnome_context(&e, false).is_empty());
    let gpus = Some(vec![
        GpuInfo { name: "Intel".to_string(), default: true },
        GpuInfo { name: "Nvidia".to_string(), default: false },
    ]);
    let c = cosmic_context(&e, &gpus);
    let names: Vec<&str> = c.iter().map(|o| o.name.as_str()).collect();
    assert_eq!(names, vec!["Launch using Intel", "Launch using Nvidia (default)", "new-window"]);
    assert_eq!(c[2].id, 2);
    assert!(context_response(3, Vec::new()).is_none());
}

fn dev(id: usize, driver: Driver, is_default: bool, parent: &str) -> Dev {
    Dev { id, driver, is_default, parent_path: parent.to_string() }
}

#[test]
fn graphics_cards() {
    assert!(matches!(Driver::from_udev(Some("amdgpu")), Driver::Amd(n) if n == "amdgpu"));
    assert!(matches!(Driver::from_udev(Some("i915")), Driver::Intel));
    assert!(matches!(Driver::from_udev(None), Driver::Unknown));
    assert_eq!(Driver::Nvidia.as_str(), Some("nvidia"));
    let devs = vec![
        dev(129, Driver::Intel, true, "/pci/0"),
        dev(0, Driver::Intel, true, "/pci/0"),
        dev(1, Driver::Nvidia, false, "/pci/1"),
    ];
    let cards = select_gpus(&devs);
    let ids: Vec<usize> = cards.iter().map(|d| d.id).collect();
    assert_eq!(ids, vec![0, 1]);
    let gpus = Gpus::load(cards);
    assert!(gpus.is_switchable());
    assert_eq!(gpus.get_default().unwrap().id, 0);
    assert_eq!(gpus.non_default().unwrap().id, 1);
    let amd = dev(12, Driver::Amd("radeon".to_string()), false, "/pci/2");
    let opts = amd.launch_options(&Some(vec!["/usr/share/vulkan/icd.d/radeon_icd.json".to_string(), "/x/intel.json".to_string()]));
    assert_eq!(opts, vec![
        ("DRI_PRIME".to_string(), "12".to_string()),
        ("VK_ICD_FILENAMES".to_string(), "/usr/share/vulkan/icd.d/radeon_icd.json".to_string()),
    ]);
    let nv = dev(1, Driver::Nvidia, false, "/pci/1");
    assert_eq!(nv.launch_options(&None), vec![
        ("__GLX_VENDOR_LIBRARY_NAME".to_string(), "nvidia".to_string()),
        ("__NV_PRIME_RENDER_OFFLOAD".to_string(), "1".to_string()),
        ("__VK_LAYER_NV_optimus".to_string(), "NVIDIA_only".to_string()),
    ]);
    let empty = Gpus::load(Vec::new());
    assert!(!empty.is_switchable());
}

#[test]
fn scripts_describe_themselves() {
    let lines: Vec<String> = ["#!/bin/bash", "# name: Backup", "#description:   Save files", "# icon: drive", "# keywords: save copy", "echo", "# name: Late"]
        .iter()
        .map(|s| s.to_string())
        .collect();
    let info = parse_header("/s/backup.sh", &lines);
    assert_eq!(info.interpreter.as_deref(), Some("/bin/bash"));
    assert_eq!(info.name, "Backup");
    assert_eq!(info.description, "Save files");
    assert_eq!(info.icon.as_deref(), Some("drive"));
    assert_eq!(info.keywords, vec!["save".to_string(), "copy".to_string()]);
    let mut scripts: Vec<ScriptInfo> = Vec::new();
    assert!(add_script(&mut scripts, info.clone()));
    assert!(!add_script(&mut scripts, info));
    let rs = search_scripts(&scripts, "back");
    assert_eq!(rs.len(), 2);
    assert!(matches!(&rs[0], PluginResponse::Append(r) if r.name == "Backup" && matches!(&r.icon, Some(IconSource::Name(i)) if i == "drive")));
    assert_eq!(search_scripts(&scripts, "zzz").len(), 1);
    assert_eq!(search_scripts(&scripts, "copy").len(), 2);
}

#[test]
fn terminal_commands() {
    let mut t = TerminalApp::new();
    assert!(matches!(t.splice_input(":ls -l "), Some(PluginResponse::Append(r)) if r.name == "ls -l"));
    assert!(t.shell_only);
    assert_eq!(t.activate().as_deref(), Some("ls -l; echo \"Press Enter to exit\"; read t"));
    assert!(t.activate().is_none());
    assert!(t.splice_input("t: top").is_some());
    assert!(!t.shell_only);
    assert_eq!(t.last_query.as_deref(), Some("top"));
    assert!(t.splice_input("run htop").is_some());
    assert_eq!(t.last_query.as_deref(), Some("htop"));
    assert!(t.splice_input("nothing").is_none());
}

#[test]
fn volume_actions() {
    let sel = pulse::selections();
    let rs = pulse::search(&sel, "VOL");
    assert_eq!(rs.len(), 3);
    assert_eq!(pulse::search(&sel, "up").len(), 2);
    assert_eq!(pulse::search(&sel, "").len(), 1);
    assert_eq!(pulse::action_command(2), Some(("set-sink-volume".to_string(), "-5%".to_string())));
    assert!(pulse::action_command(3).is_none());
    assert_eq!(pulse::sink_of_line("Sink #42 ").as_deref(), Some("42"));
    assert!(pulse::sink_of_line("Source #1").is_none());
}

#[test]
fn recent_files_query() {
    assert_eq!(normalized("r  My File "), Some("my file".to_string()));
    assert_eq!(normalized("r"), None);
}

#[test]
fn file_results() {
    assert_eq!(mime_from_path("/a/b", true), "inode/directory");
    assert_eq!(mime_from_path("/a/b.png", false), "image/png");
    assert_eq!(mime_from_path("/a/b", false), "text/plain");
    assert!(matches!(find_result(4, "docs/notes.txt", "text/plain".to_string()), PluginResponse::Append(r) if r.name == "notes.txt" && r.description == "~/docs/notes.txt" && r.id == 4));
    assert_eq!(search_pattern("find  *.rs"), "*.rs");
    assert_eq!(search_pattern("pattern"), "pattern");
}

#[test]
fn bookmarks_and_history() {
    let b = Bookmark { bookmark_name: None, url: "https://Rust-Lang.org".to_string(), title: Some("Rust".to_string()), description: None };
    assert!(matches!(b.map_to_plugin_response(2), PluginResponse::Append(r) if r.name == "https://Rust-Lang.org" && r.description.is_empty() && r.id == 2));
    assert_eq!(b.overlap("rust-lang"), 9);
    let h = HistoryEntry { url: "https://a.org".to_string(), title: None, description: Some("Docs".to_string()) };
    assert!(matches!(h.map_to_plugin_response(0), PluginResponse::Append(r) if r.name == "https://a.org" && r.description == "Docs"));
    assert_eq!(h.overlap("docs"), 4);
    assert_eq!(rank_by_overlap(&vec![3, 9, 3, 1], &vec![true, true, true, false]), vec![1, 0, 2]);
    assert_eq!(strip_prefix_or_empty("b rust", "b "), "rust");
    assert_eq!(strip_prefix_or_empty("rust", "b "), "");
    assert_eq!(Browser::from_setting(Some(" firefox.desktop\n")), Browser::Firefox);
    assert_eq!(Browser::from_setting(None), Browser::Unknown);
}

#[test]
fn external_process_bookkeeping() {
    let mut s = ExternalPluginState::new();
    assert!(s.needs_launch());
    s.launched(true);
    assert!(s.search_sent(true).is_none());
    assert!(matches!(s.on_task_end(), Some(PluginResponse::Finished)));
    s.process_check(false);
    assert!(s.needs_launch());
    assert!(matches!(s.search_sent(false), Some(PluginResponse::Finished)));
    assert!(matches!(plugin_call(Request::Close), PluginCall::Exit { stop: false }));
    assert!(matches!(toolkit_call(Request::Close), PluginCall::Exit { stop: true }));
    assert!(matches!(plugin_call(Request::Quit(3)), PluginCall::Quit(3)));
}

#[test]
fn manifests_and_pop_shell_config() {
    let config = PluginConfig {
        name: "calc".to_string(),
        description: "Calculator".to_string(),
        bin: Some(PluginBinary { path: "calc".to_string(), args: Vec::new() }),
        icon: None,
        query: PluginQuery { regex: Some("^=".to_string()), ..PluginQuery::default() },
    };
    let (exec, _, regex) = load("/usr/lib/pop-launcher/plugins/calc", config).unwrap();
    assert_eq!(exec, "/usr/lib/pop-launcher/plugins/calc/calc");
    assert_eq!(regex.unwrap().as_str(), "^=");
    let none = PluginConfig {
        name: "x".to_string(),
        description: String::new(),
        bin: None,
        icon: None,
        query: PluginQuery::default(),
    };
    assert!(load("/p", none).is_none());
    assert!(bool_true());
    let scope = SearchScope::default();
    assert!(scope.name && scope.description);
}

#[test]
fn history_queries_are_lowercased_beyond_ascii() {
    assert_eq!(lowercase_query("RuSt ÄÖ"), "rust äö");
}
