use apidoc::error::Error;
use apidoc::model::{
    content_kind, same_text, section_links, Content, ContentKind, Entry, Index, Link, Meta, Route,
    Section, Suite, TOC,
};

fn content(mime: &str, data: &str) -> Content {
    Content { mime: mime.to_string(), data: data.to_string() }
}

fn route(title: Option<&str>, method: &str, resource: &str, sections: &[&str]) -> Route {
    Route {
        sections: Some(sections.iter().map(|s| s.to_string()).collect()),
        title: title.map(|t| t.to_string()),
        detail: None,
        method: method.to_string(),
        resource: resource.to_string(),
        attrs: None,
        params: None,
        examples: None,
    }
}

fn section(key: &str, title: &str) -> Section {
    Section { key: key.to_string(), title: title.to_string(), detail: None, routes: None }
}

fn urls(links: &Option<Vec<Link>>) -> Vec<String> {
    links.as_ref().map(|v| v.iter().map(|l| l.url.clone()).collect()).unwrap_or_default()
}

#[test]
fn render_plain_text_is_escaped() {
    assert_eq!("&lt;b&gt;", content("text/plain", "<b>").render().unwrap());
    assert_eq!(
        "&amp;&quot;&#x27;&#x60;&#x3D; ok",
        content("text/plain", "&\"'`= ok").render().unwrap()
    );
}

#[test]
fn render_markdown_is_html() {
    let html = content("text/markdown", "*hi* ~~no~~").render().unwrap();
    assert!(html.contains("<em>hi</em>"));
    assert!(html.contains("<del>no</del>"));
    let code = content("text/markdown", "```rust\nfn x() {}\n```\n").render().unwrap();
    assert!(code.contains("<pre lang=\"rust\">"));
}

#[test]
fn render_unknown_kind_fails() {
    match content("text/unknown", "x").render() {
        Err(Error::UnsupportedContentType(m)) => assert_eq!("text/unknown", m),
        Ok(_) => panic!("rendered an unknown kind"),
    }
}

#[test]
fn text_of_unknown_kind_is_placeholder() {
    let t = content("text/unknown", "x").text();
    assert_eq!("* * * Could not render: Content type is not supported: text/unknown * * *", t);
    assert_eq!("a &lt; b", content("text/plain", "a < b").text());
}

#[test]
fn error_message_names_kind() {
    let e = Error::UnsupportedContentType("image/png".to_string());
    assert_eq!("Content type is not supported: image/png", e.message());
}

#[test]
fn content_kinds_are_closed() {
    assert_eq!(Some(ContentKind::Plain), content_kind("text/plain"));
    assert_eq!(Some(ContentKind::Markdown), content_kind("text/markdown"));
    assert_eq!(None, content_kind("text/Plain"));
    assert_eq!(None, content_kind(""));
    assert!(same_text("abc", "abc"));
    assert!(!same_text("abc", "abd"));
    assert!(!same_text("abc", "ab"));
}

#[test]
fn route_slug_falls_back_to_method_and_resource() {
    let r = route(None, "GET", "/users/{id}", &[]);
    assert_eq!("GET /users/{id}", r.anchor());
    assert_eq!("get-users-id", r.slug());
    let l = r.link();
    assert_eq!(None, l.title);
    assert_eq!("#get-users-id", l.url);
    let t = route(Some("List Users"), "GET", "/users", &[]);
    assert_eq!("#list-users", t.link().url);
    assert_eq!(Some("List Users".to_string()), t.link().title);
}

#[test]
fn toc_links_follow_route_order() {
    let toc = TOC { detail: None, sections: Some(vec![section("s1", "One"), section("s2", "Two")]) };
    let routes = vec![
        route(Some("R1"), "GET", "/r1", &["s1"]),
        route(Some("R2"), "GET", "/r2", &["s1", "s2"]),
        route(Some("R3"), "GET", "/r3", &[]),
    ];
    let r = toc.with_routes(&routes);
    let ss = r.sections.unwrap();
    assert_eq!(2, ss.len());
    assert_eq!("s1", ss[0].key);
    assert_eq!("One", ss[0].title);
    assert_eq!("s2", ss[1].key);
    assert_eq!(vec!["#r1", "#r2"], urls(&ss[0].routes));
    assert_eq!(vec!["#r2"], urls(&ss[1].routes));
    assert_eq!(Some("R1".to_string()), ss[0].routes.as_ref().unwrap()[0].title);
}

#[test]
fn toc_section_order_ignores_route_order() {
    let toc = TOC { detail: None, sections: Some(vec![section("s1", "One"), section("s2", "Two")]) };
    let routes = vec![
        route(Some("B"), "GET", "/b", &["s2"]),
        route(Some("A"), "GET", "/a", &["s1", "s2"]),
    ];
    let ss = toc.with_routes(&routes).sections.unwrap();
    assert_eq!("s1", ss[0].key);
    assert_eq!("s2", ss[1].key);
    assert_eq!(vec!["#a"], urls(&ss[0].routes));
    assert_eq!(vec!["#b", "#a"], urls(&ss[1].routes));
}

#[test]
fn toc_unreferenced_and_unknown_sections() {
    let toc = TOC {
        detail: Some(content("text/plain", "d")),
        sections: Some(vec![section("s1", "One"), section("empty", "Empty")]),
    };
    let routes = vec![route(None, "POST", "/x", &["s1", "nowhere", "s1"])];
    let r = toc.with_routes(&routes);
    assert_eq!("d", r.detail.unwrap().data);
    let ss = r.sections.unwrap();
    assert_eq!(2, ss.len());
    assert_eq!(vec!["#post-x", "#post-x"], urls(&ss[0].routes));
    assert!(ss[1].routes.is_none());
}

#[test]
fn toc_without_sections_is_unchanged() {
    let toc = TOC { detail: None, sections: None };
    let r = toc.with_routes(&vec![route(None, "GET", "/", &["s1"])]);
    assert!(r.sections.is_none());
    assert!(r.detail.is_none());
}

#[test]
fn section_links_counts_each_mention() {
    let routes = vec![route(Some("X"), "GET", "/x", &["k", "k"]), route(Some("Y"), "GET", "/y", &["j"])];
    let links = section_links(&"k".to_string(), &routes);
    assert_eq!(2, links.len());
    assert!(section_links(&"none".to_string(), &routes).is_empty());
}

#[test]
fn process_attaches_meta_and_resolves() {
    let mut suite = Suite {
        title: Some("API".to_string()),
        detail: None,
        toc: Some(TOC { detail: None, sections: Some(vec![section("s", "S")]) }),
        routes: vec![route(Some("Get it"), "GET", "/it", &["s"])],
        meta: None,
    };
    suite.process(Meta { index: Some("out/index.html".to_string()), generated: 1_700_000_000 });
    let meta = suite.meta.as_ref().unwrap();
    assert_eq!(1_700_000_000, meta.generated);
    assert_eq!(Some("out/index.html".to_string()), meta.index);
    let ss = suite.toc.as_ref().unwrap().sections.as_ref().unwrap();
    assert_eq!(vec!["#get-it"], urls(&ss[0].routes));
    suite.process(Meta { index: None, generated: 1_700_000_001 });
    assert_eq!(1_700_000_001, suite.meta.as_ref().unwrap().generated);
    assert!(suite.meta.as_ref().unwrap().index.is_none());
    let ss = suite.toc.as_ref().unwrap().sections.as_ref().unwrap();
    assert_eq!(vec!["#get-it"], urls(&ss[0].routes));
}

#[test]
fn normalize_without_toc_keeps_none() {
    let mut suite = Suite { title: None, detail: None, toc: None, routes: vec![], meta: None };
    suite.normalize();
    assert!(suite.toc.is_none());
    assert!(suite.meta.is_none());
}

#[test]
fn index_process_attaches_meta() {
    let mut index = Index {
        title: Some("All".to_string()),
        detail: None,
        entries: vec![Entry { link: Link { title: Some("a".to_string()), url: "a.html".to_string() } }],
        meta: None,
    };
    index.process(Meta { index: None, generated: 5 });
    assert_eq!(5, index.meta.unwrap().generated);
    assert_eq!(1, index.entries.len());
}

#[test]
fn index_entry_links_relative_to_base() {
    let e = Entry::for_document("API".to_string(), "/out/docs/api.html".to_string(), Some("/out".to_string()));
    assert_eq!(Some("API".to_string()), e.link.title);
    assert_eq!("docs/api.html", e.link.url);
    let f = Entry::for_document("B".to_string(), "out/b.html".to_string(), None);
    assert_eq!("out/b.html", f.link.url);
}
