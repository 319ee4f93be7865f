use pop_launcher::protocol::{IconSource, PluginResponse};
use pop_launcher::web::{
    allowed_favicon_mime, build_query, first_word, icon_sources, page_icon_url, parse_favicon, rest_after, Config, Definition,
    RawConfig, Rule, WebApp,
};

fn def(name: &str, query: &str) -> Definition {
    Definition { name: name.to_string(), query: query.to_string() }
}

#[test]
fn build_query_adds_the_scheme_and_encodes() {
    assert_eq!(build_query(&def("DDG", "duckduckgo.com/?q="), "a b&c"), "https://duckduckgo.com/?q=a%20b%26c");
    assert_eq!(build_query(&def("X", "http://x.org/s?"), "é"), "http://x.org/s?%C3%A9");
    assert_eq!(build_query(&def("X", "x.org/"), "A-z_0.~"), "https://x.org/A-z_0.~");
}

#[test]
fn config_words_select_the_last_rule() {
    let mut c = Config::new();
    c.append(RawConfig {
        rules: vec![
            Rule { matches: vec!["ddg".to_string(), "d".to_string()], queries: vec![def("DDG", "duckduckgo.com/?q=")] },
            Rule { matches: vec!["d".to_string()], queries: vec![def("Docs", "docs.rs/"), def("Crates", "crates.io/")] },
        ],
    });
    assert_eq!(c.get("ddg").unwrap()[0].name, "DDG");
    let d = c.get("d").unwrap();
    assert_eq!(d.len(), 2);
    assert_eq!(d[1].name, "Crates");
    assert!(c.get("g").is_none());
}

#[test]
fn search_results_and_activation() {
    let q = "ddg  rust lang ";
    let w = first_word(q).unwrap();
    assert_eq!(w, "ddg");
    let rest = rest_after(q, &w);
    assert_eq!(rest, "rust lang");
    let mut app = WebApp::new();
    let defs = vec![def("DDG", "duckduckgo.com/?q=")];
    let rs = app.results(&defs, &rest, &vec![Some(IconSource::Name("/c/DDG.ico".to_string()))]);
    assert!(matches!(&rs[0], PluginResponse::Append(r) if r.name == "DDG: rust lang" && r.description == "https://duckduckgo.com/?q=rust%20lang"));
    assert!(matches!(&rs[1], PluginResponse::Finished));
    let (url, close) = app.activate(0);
    assert_eq!(url.as_deref(), Some("https://duckduckgo.com/?q=rust%20lang"));
    assert!(matches!(close, PluginResponse::Close));
    assert!(app.activate(3).0.is_none());
    assert!(first_word("   ").is_none());
}

#[test]
fn favicons_in_pages() {
    let page = "<html><!-- <link rel=\"icon\" href=\"old.ico\"> --><link rel=\"icon\" type=\"image/png\" href=\"/assets/favicon-32x32.png\"></html>";
    assert_eq!(parse_favicon(page), Some("/assets/favicon-32x32.png".to_string()));
    let page = "<link rel=\"shortcut icon\" href=\"//cdn.example.com/i.ico\">";
    assert_eq!(parse_favicon(page), Some("https://cdn.example.com/i.ico".to_string()));
    assert_eq!(parse_favicon("<html></html>"), None);
    assert_eq!(page_icon_url("example.com", "/f.ico"), "https://example.com/f.ico");
    assert_eq!(page_icon_url("example.com", "https://a/f.ico"), "https://a/f.ico");
    assert_eq!(
        icon_sources("example.com", None),
        vec![
            "https://example.com/favicon.ico".to_string(),
            "https://www.google.com/s2/favicons?domain=example.com&sz=32".to_string()
        ]
    );
    assert!(allowed_favicon_mime("image/png"));
    assert!(!allowed_favicon_mime("text/html"));
}
