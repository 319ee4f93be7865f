use pop_launcher::cosmic_toplevel::{
    build_thumbnail_rgba, thumbnail_size_fits, ThumbnailCaptureState, Toplevel, WindowList, WindowSearch,
    THUMBNAIL_TARGET_WIDTH,
};
use pop_launcher::help::HelpPlugin;
use pop_launcher::manifest::plugin_paths;
use pop_launcher::pop_shell::{desktop_entry_stem, search_windows, window_for, SearchScope, WindowItem};
use pop_launcher::protocol::{IconSource, PluginResponse, WorkspaceFilter};
use pop_launcher::service::PluginHelp;
use pop_launcher::terminal::detect_terminal;

fn counting_bytes(n: usize) -> Vec<u8> {
    (0..n).map(|i| i as u8).collect()
}

fn window(id: u32, app_id: &str, title: &str, activated: bool, ws: &[&[u32]]) -> Toplevel {
    Toplevel {
        id,
        app_id: app_id.to_string(),
        title: title.to_string(),
        activated,
        workspace_coordinates: ws.iter().map(|c| c.to_vec()).collect(),
    }
}

#[test]
fn thumbnail_samples_nearest_pixels() {
    // A 4 by 2 frame, rows 16 bytes apart, scaled to 2 pixels wide: one row, pixels 0 and 2.
    let raw = counting_bytes(32);
    let t = build_thumbnail_rgba(&raw, 4, 2, 16, 2).expect("thumbnail");
    assert_eq!((t.width, t.height), (2, 1));
    assert_eq!(t.pixels, vec![0, 1, 2, 3, 8, 9, 10, 11]);
}

#[test]
fn thumbnail_rejects_empty_or_short_frames() {
    let raw = counting_bytes(32);
    assert!(build_thumbnail_rgba(&raw, 0, 2, 16, 2).is_none());
    assert!(build_thumbnail_rgba(&raw, 4, 0, 16, 2).is_none());
    assert!(build_thumbnail_rgba(&raw, 4, 2, 16, 0).is_none());
    assert!(build_thumbnail_rgba(&raw[..11], 4, 2, 16, 2).is_none());
}

#[test]
fn thumbnail_height_is_at_least_one() {
    // 8 wide and 1 high scaled to 2 wide would be a quarter pixel high.
    let raw = counting_bytes(32);
    let t = build_thumbnail_rgba(&raw, 8, 1, 32, 2).expect("thumbnail");
    assert_eq!((t.width, t.height), (2, 1));
    assert_eq!(t.pixels, vec![0, 1, 2, 3, 16, 17, 18, 19]);
}

#[test]
fn thumbnail_capture_lifecycle() {
    let mut state = ThumbnailCaptureState::new();
    assert!(state.request_capture(5));
    state.mark_pending(5);
    assert!(!state.request_capture(5));
    assert!(state.thumbnail_for(5).is_none());
    assert!(thumbnail_size_fits(4, 2));
    state.mark_capturing(5, 4, 2, 16);
    let raw = counting_bytes(32);
    let t = state.mark_ready_from_capture(5, &raw).expect("ready");
    assert_eq!(t.width, THUMBNAIL_TARGET_WIDTH);
    assert_eq!(t.height, 80);
    assert_eq!(t.pixels.len(), 160 * 80 * 4);
    assert_eq!(&t.pixels[..4], &[0, 1, 2, 3]);
    let served = state.thumbnail_for(5).expect("served");
    assert_eq!(served.pixels, t.pixels);
    // A ready thumbnail survives the clearing of captures in flight.
    state.clear_in_flight(5);
    assert!(state.thumbnail_for(5).is_some());
    state.invalidate(5);
    assert!(state.thumbnail_for(5).is_none());
    assert!(state.request_capture(5));
}

#[test]
fn thumbnail_capture_failures_forget_the_window() {
    let mut state = ThumbnailCaptureState::new();
    state.mark_pending(7);
    // Nothing is being captured yet: the capture is ignored and the window stays pending.
    assert!(state.mark_ready_from_capture(7, &counting_bytes(32)).is_none());
    assert!(!state.request_capture(7));
    state.mark_capturing(7, 4, 2, 16);
    assert!(state.mark_ready_from_capture(7, &counting_bytes(8)).is_none());
    assert!(state.request_capture(7));
    state.mark_pending(8);
    state.clear_in_flight(8);
    assert!(state.request_capture(8));
}

#[test]
fn window_list_updates_and_searches() {
    let mut list = WindowList::new();
    list.update_info(window(1, "firefox", "Rust Docs", false, &[&[0]]));
    list.update_info(window(2, "org.gnome.Terminal", "bash", false, &[&[1]]));
    list.update_info(window(3, "code", "main.rs - Editor", false, &[&[0]]));
    // Window 1 became active: it moves to the end.
    list.update_info(window(1, "firefox", "Rust Docs", true, &[&[0]]));
    let ids: Vec<u32> = list.toplevels.iter().map(|t| t.id).collect();
    assert_eq!(ids, vec![2, 3, 1]);

    match list.search("RUST", WorkspaceFilter::All) {
        WindowSearch::Shown(ps) => assert_eq!(ps, vec![2]),
        WindowSearch::Deferred => panic!("search was deferred"),
    }
    match list.search("", WorkspaceFilter::All) {
        WindowSearch::Shown(ps) => assert_eq!(ps, vec![0, 1, 2]),
        WindowSearch::Deferred => panic!("search was deferred"),
    }
    // The active workspaces are not known yet: the search waits for them.
    assert!(matches!(list.search("term", WorkspaceFilter::Current), WindowSearch::Deferred));
    let pending = list.update_active_workspaces(vec![vec![0]]);
    assert_eq!(pending.as_deref(), Some("term"));
    match list.search("", WorkspaceFilter::Current) {
        WindowSearch::Shown(ps) => assert_eq!(ps, vec![1, 2]),
        WindowSearch::Deferred => panic!("search was deferred"),
    }
}

#[test]
fn removed_windows_are_ignored_until_the_next_search() {
    let mut list = WindowList::new();
    list.update_info(window(1, "a", "one", false, &[]));
    list.update_info(window(2, "b", "two", false, &[]));
    assert_eq!(list.target(2), Some(2));
    assert!(list.update_remove(2));
    assert!(!list.update_remove(2));
    assert_eq!(list.target(2), None);
    // A window with the same identifier that comes back is still ignored until the next search.
    list.update_info(window(2, "b", "two", false, &[]));
    assert_eq!(list.target(2), None);
    list.clear_ignored();
    assert_eq!(list.target(2), Some(2));
    assert_eq!(list.target(9), None);
}

fn item(name: &str, description: &str, entry: &str, entity: (u32, u32)) -> WindowItem {
    WindowItem {
        entity,
        name: name.to_string(),
        description: description.to_string(),
        desktop_entry: entry.to_string(),
    }
}

#[test]
fn pop_shell_window_search() {
    let items = vec![
        item("Firefox", "Rust Documentation", "firefox.desktop", (1, 1)),
        item("Terminal", "bash in home", "org.gnome.Terminal.desktop", (2, 5)),
    ];
    let icons = vec![Some("firefox".to_string())];
    let both = SearchScope { name: true, description: true };
    let rs = search_windows(&items, &icons, both, "rust doc");
    assert_eq!(rs.len(), 2);
    match &rs[0] {
        PluginResponse::Append(r) => {
            assert_eq!(r.id, 0);
            assert_eq!(r.name, "Firefox");
            assert_eq!(r.window, Some((1, 1)));
            assert!(matches!(&r.icon, Some(IconSource::Name(n)) if n == "firefox"));
        }
        other => panic!("unexpected {:?}", other),
    }
    assert!(matches!(rs[1], PluginResponse::Finished));

    // Only names are searched: the description no longer matches.
    let names = SearchScope { name: true, description: false };
    assert_eq!(search_windows(&items, &icons, names, "rust").len(), 1);

    // An empty query keeps every window; the second has no icon found.
    let rs = search_windows(&items, &icons, both, "");
    assert_eq!(rs.len(), 3);
    match &rs[1] {
        PluginResponse::Append(r) => {
            assert_eq!(r.id, 1);
            assert!(matches!(&r.icon, Some(IconSource::Name(n)) if n == "application-x-executable"));
        }
        other => panic!("unexpected {:?}", other),
    }

    assert_eq!(window_for(&items, 1), Some((2, 5)));
    assert_eq!(window_for(&items, 2), None);
    assert_eq!(desktop_entry_stem("firefox.desktop").as_deref(), Some("firefox"));
    assert_eq!(desktop_entry_stem("firefox"), None);
    assert_eq!(desktop_entry_stem(".desktop").as_deref(), Some(""));
}

#[test]
fn terminal_detection() {
    assert_eq!(
        detect_terminal(Some("/usr/bin/gnome-terminal.wrapper"), None),
        ("/usr/bin/gnome-terminal.wrapper".to_string(), "--".to_string())
    );
    assert_eq!(
        detect_terminal(Some("/etc/alternatives/x-terminal-emulator"), Some("/usr/bin/kitty")),
        ("/usr/bin/kitty".to_string(), "-e".to_string())
    );
    assert_eq!(detect_terminal(None, None), ("/usr/bin/gnome-terminal".to_string(), "--".to_string()));
}

#[test]
fn plugin_directories() {
    assert_eq!(
        plugin_paths("/home/me"),
        vec![
            "/home/me/.local/share/pop-launcher/plugins".to_string(),
            "/etc/pop-launcher/plugins".to_string(),
            "/usr/lib/pop-launcher/plugins".to_string(),
        ]
    );
    assert_eq!(plugin_paths("/root/")[0], "/root/.local/share/pop-launcher/plugins");
}

fn help(name: &str, prefix: Option<&str>) -> PluginHelp {
    PluginHelp { name: name.to_string(), description: format!("{} plugin", name), help: prefix.map(|p| p.to_string()) }
}

#[test]
fn help_lists_query_prefixes() {
    let mut plugin = HelpPlugin::new();
    assert!(plugin.needs_reload());
    plugin.details = vec![help("Calculator", Some("= ")), help("Desktop", None), help("Files", Some("~/"))];
    assert!(!plugin.needs_reload());
    let rs = plugin.search();
    assert_eq!(rs.len(), 3);
    match &rs[1] {
        PluginResponse::Append(r) => {
            assert_eq!(r.id, 2);
            assert_eq!(r.name, "Files");
        }
        other => panic!("unexpected {:?}", other),
    }
    assert!(matches!(plugin.activate(0), Some(PluginResponse::Fill(p)) if p == "= "));
    assert!(plugin.activate(1).is_none());
    assert!(plugin.activate(5).is_none());
}

#[test]
fn capture_buffers_are_sized_for_abgr_frames() {
    let mut state = ThumbnailCaptureState::new();
    state.mark_pending(3);
    assert_eq!(state.capture_size(3, true, 100, 50), Some((400, 20000)));
    assert!(!state.request_capture(3));
    // Without the format, or for an empty frame, the capture in flight is forgotten.
    assert_eq!(state.capture_size(3, false, 100, 50), None);
    assert!(state.request_capture(3));
    state.mark_pending(4);
    assert_eq!(state.capture_size(4, true, 0, 50), None);
    assert!(state.request_capture(4));
}
