use pop_launcher::browser::places_db;
use pop_launcher::desktop_entries::{
    get_description, icon_candidates, is_session_cosmic, path_string, resolve_icon, search_results, EntryResult, EntrySource,
};
use pop_launcher::protocol::{IconSource, PluginResponse};

#[test]
fn entry_sources_are_named() {
    assert_eq!(path_string(&EntrySource::LocalDesktop), "Local");
    assert_eq!(path_string(&EntrySource::SystemFlatpak), "Flatpak (System)");
    assert_eq!(path_string(&EntrySource::Other("unknown".to_string())), "unknown");
}

#[test]
fn descriptions_join_the_source_and_the_comment() {
    assert_eq!(get_description(&EntrySource::System, Some("Web Browser")), "System - Web Browser");
    assert_eq!(get_description(&EntrySource::System, Some("")), "System");
    assert_eq!(get_description(&EntrySource::Nix, None), "Nix (System)");
}

#[test]
fn cosmic_sessions_are_recognized() {
    assert!(is_session_cosmic(Some("COSMIC")));
    assert!(is_session_cosmic(Some("pop:COSMIC")));
    assert!(!is_session_cosmic(Some("GNOME")));
    assert!(!is_session_cosmic(None));
}

#[test]
fn icon_candidates_in_order() {
    let cs = icon_candidates("firefox", Some("/home/me"));
    assert_eq!(cs.len(), 20);
    assert_eq!(cs[0], "/home/me/.local/share/icons/firefox");
    assert_eq!(cs[1], "/home/me/.local/share/icons/firefox.png");
    assert_eq!(cs[4], "/home/me/.local/share/pixmaps/firefox");
    assert_eq!(cs[12], "/usr/share/pixmaps/firefox");
    assert_eq!(cs[19], "/usr/local/share/pixmaps/firefox.xpm");

    let cs = icon_candidates("~/icons/app.svg", Some("/home/me"));
    assert_eq!(cs[0], "/home/me/icons/app.svg");
    assert_eq!(cs.len(), 6);

    let cs = icon_candidates("app.png", None);
    assert_eq!(cs, vec!["/usr/share/pixmaps/app.png".to_string(), "/usr/local/share/pixmaps/app.png".to_string()]);
}

#[test]
fn icons_resolve_to_the_first_existing_file_or_the_name() {
    assert!(resolve_icon(None, Some("/home/me"), &vec![]).is_none());
    assert!(resolve_icon(Some(""), Some("/home/me"), &vec![]).is_none());
    let mut exists = vec![false; 20];
    exists[13] = true;
    exists[15] = true;
    assert!(matches!(resolve_icon(Some("firefox"), Some("/home/me"), &exists),
        Some(IconSource::Name(p)) if p == "/usr/share/pixmaps/firefox.png"));
    assert!(matches!(resolve_icon(Some("firefox"), Some("/home/me"), &vec![false; 3]),
        Some(IconSource::Name(p)) if p == "firefox"));
}

#[test]
fn browser_places_database_of_the_release_profile() {
    let entries: Vec<String> = vec!["/h/.mozilla/firefox/a.default", "/h/.mozilla/firefox/b.default-release", "/h/.mozilla/firefox/c.default-release"]
        .into_iter()
        .map(String::from)
        .collect();
    assert_eq!(places_db(&entries).as_deref(), Some("/h/.mozilla/firefox/b.default-release/places.sqlite"));
    assert_eq!(places_db(&entries[..1].to_vec()), None);
}

fn shown(name: &str) -> EntryResult {
    EntryResult {
        name: name.to_string(),
        description: "System".to_string(),
        keywords: Some(vec!["web".to_string()]),
        icon: Some(format!("{}-icon", name)),
        exec_command: Some(format!("{} %u", name)),
    }
}

#[test]
fn entry_search_shows_the_matched_entries_by_position() {
    let entries = vec![shown("firefox"), shown("files"), shown("fonts")];
    let rs = search_results(&entries, &vec![true, false, true]);
    assert_eq!(rs.len(), 3);
    match &rs[1] {
        PluginResponse::Append(r) => {
            assert_eq!(r.id, 2);
            assert_eq!(r.name, "fonts");
            assert_eq!(r.keywords, Some(vec!["web".to_string()]));
            assert!(matches!(&r.icon, Some(IconSource::Name(i)) if i == "fonts-icon"));
            assert_eq!(r.exec_command.as_deref(), Some("fonts %u"));
        }
        other => panic!("unexpected {:?}", other),
    }
    assert!(matches!(rs[2], PluginResponse::Finished));
}
