use pop_launcher::plugin_config::{ConfigError, DesktopField, DesktopGroup, PluginConfig, PluginPriority};

const MANIFEST: &str = "[Plugin]
Name=Files
Name[de]=Dateien
Description=Browse files
Exec=run --fast now
Icon=folder
Regex=^(/|~)
Isolate=true
ShowOnEmptyQuery=false
NoSort=true
GenericQuery=~/
History=true
Priority=High
";

#[test]
fn reads_a_plugin_desktop_entry() {
    let locales = vec!["en_US".to_string()];
    let c = PluginConfig::from_str_with_locales("/usr/lib/plugins/files", "/usr/lib/plugins/files/plugin.desktop", MANIFEST, &locales).unwrap();
    assert_eq!(c.name, "Files");
    assert_eq!(c.description.as_deref(), Some("Browse files"));
    assert_eq!(c.icon.as_deref(), Some("folder"));
    assert_eq!(c.command.path, "/usr/lib/plugins/files/run");
    assert_eq!(c.command.args, vec!["--fast".to_string(), "now".to_string()]);
    assert_eq!(c.regex.as_ref().map(|r| r.as_str()), Some("^(/|~)"));
    assert!(c.isolate);
    assert!(c.isolate_with.is_none());
    assert!(!c.show_on_empty_query);
    assert!(c.no_sort);
    assert_eq!(c.generic_query.as_deref(), Some("~/"));
    assert!(!c.long_lived);
    assert!(c.history);
    assert_eq!(c.priority, PluginPriority::High);
}

#[test]
fn localized_name_follows_the_locales() {
    let locales = vec!["de_DE".to_string()];
    let c = PluginConfig::from_str_with_locales("/p", "/p/plugin.desktop", MANIFEST, &locales).unwrap();
    assert_eq!(c.name, "Dateien");
}

#[test]
fn absolute_exec_is_kept() {
    let text = "[Plugin]\nName=A\nExec=/bin/a -x\n";
    let c = PluginConfig::from_str_with_locales("/p", "/p/plugin.desktop", text, &Vec::new()).unwrap();
    assert_eq!(c.command.path, "/bin/a");
    assert_eq!(c.priority, PluginPriority::Default);
}

#[test]
fn refuses_missing_parts_and_bad_regexes() {
    let none: Vec<String> = Vec::new();
    assert!(matches!(
        PluginConfig::from_str_with_locales("/p", "/p/plugin.desktop", "[Other]\nName=A\n", &none),
        Err(ConfigError::NoPluginGroup)
    ));
    assert!(matches!(
        PluginConfig::from_str_with_locales("/p", "/p/plugin.desktop", "[Plugin]\nExec=a\n", &none),
        Err(ConfigError::NoName)
    ));
    assert!(matches!(
        PluginConfig::from_str_with_locales("/p", "/p/plugin.desktop", "[Plugin]\nName=A\n", &none),
        Err(ConfigError::NoExec)
    ));
    assert!(matches!(
        PluginConfig::from_str_with_locales("/p", "/p/plugin.desktop", "[Plugin]\nName=A\nExec=a\nRegex=(\n", &none),
        Err(ConfigError::Regex(p)) if p == "("
    ));
    assert!(matches!(
        PluginConfig::from_str_with_locales("/p", "/p/plugin.desktop", "[Plugin]\nName=A\nExec=a\nIsolateWith=[\n", &none),
        Err(ConfigError::IsolateWith(p)) if p == "["
    ));
    assert!(matches!(
        PluginConfig::from_str_with_locales("/p", "/p/not-a-desktop-file", "[Plugin]\nName=A\nExec=a\n", &none),
        Err(ConfigError::Decode(_))
    ));
}

#[test]
fn groups_are_read_as_given() {
    let groups = vec![DesktopGroup {
        name: "Plugin".to_string(),
        fields: vec![
            DesktopField { key: "Name".to_string(), value: "N".to_string(), localized: vec![("fr".to_string(), "Nom".to_string())] },
            DesktopField { key: "Exec".to_string(), value: "x".to_string(), localized: Vec::new() },
            DesktopField { key: "Priority".to_string(), value: "Low".to_string(), localized: Vec::new() },
            DesktopField { key: "LongLived".to_string(), value: "yes".to_string(), localized: Vec::new() },
        ],
    }];
    let c = PluginConfig::from_groups("src", &groups, &vec!["fr_FR".to_string()]).unwrap();
    assert_eq!(c.name, "Nom");
    assert_eq!(c.command.path, "src/x");
    assert_eq!(c.priority, PluginPriority::Low);
    assert!(!c.long_lived);
    let g = &groups[0];
    assert_eq!(g.entry_bool("LongLived"), None);
    assert_eq!(g.localized_entry("Name", &vec!["it".to_string()]), Some("N"));
}
