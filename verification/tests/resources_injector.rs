use farm_plugins::html_ast::{Attribute, Child, Document, Element};
use farm_plugins::resources_injector::{create_element, is_removed, ResourcesInjector, FARM_ENTRY};

fn attr(name: &str, value: &str) -> Attribute {
    Attribute { name: name.to_string(), value: Some(value.to_string()) }
}

fn el(tag: &str, attrs: Vec<Attribute>, children: Vec<Child>) -> Element {
    Element { tag_name: tag.to_string(), attributes: attrs, children, content: None }
}

fn element(c: &Child) -> &Element {
    match c {
        Child::Element(e) => e,
        _ => panic!("not an element"),
    }
}

fn attr_value<'a>(e: &'a Element, name: &str) -> Option<&'a str> {
    e.attributes.iter().find(|a| a.name == name).and_then(|a| a.value.as_deref())
}

fn text_of(e: &Element) -> Option<&str> {
    match e.children.first() {
        Some(Child::Text(t)) => Some(t.as_str()),
        _ => None,
    }
}

fn injector() -> ResourcesInjector {
    ResourcesInjector::new(
        "runtime();".to_string(),
        vec!["/a.js".to_string()],
        vec!["/a.css".to_string(), "/b.css".to_string()],
        vec!["main".to_string()],
    )
}

fn document() -> Document {
    let head = el(
        "head",
        vec![],
        vec![
            Child::Element(el("meta", vec![attr("charset", "utf-8")], vec![])),
            Child::Element(el("script", vec![attr("src", "./old.js")], vec![])),
            Child::Element(el("link", vec![attr("rel", "stylesheet"), attr("href", "./old.css")], vec![])),
            Child::Element(el("link", vec![attr("rel", "icon"), attr("href", "./favicon.ico")], vec![])),
        ],
    );
    let body = el(
        "body",
        vec![],
        vec![
            Child::Element(el(
                "div",
                vec![],
                vec![
                    Child::Element(el("script", vec![attr("src", "https://cdn.example/x.js")], vec![])),
                    Child::Element(el("script", vec![attr(FARM_ENTRY, "true")], vec![])),
                    Child::Text("hello".to_string()),
                ],
            )),
            Child::Comment("c".to_string()),
        ],
    );
    let html = el("html", vec![], vec![Child::Element(head), Child::Element(body)]);
    Document { children: vec![Child::DocumentType("html".to_string()), Child::Element(html)] }
}

#[test]
fn create_element_builds_tag_attributes_and_text() {
    let e = create_element("script", Some("code"), vec![("src", "/x.js"), ("defer", "")]);
    assert_eq!(e.tag_name, "script");
    assert_eq!(e.attributes.len(), 2);
    assert_eq!(attr_value(&e, "src"), Some("/x.js"));
    assert_eq!(attr_value(&e, "defer"), Some(""));
    assert_eq!(text_of(&e), Some("code"));
    let bare = create_element("link", None, vec![]);
    assert!(bare.children.is_empty());
}

#[test]
fn removal_picks_local_scripts_entries_and_stylesheets() {
    assert!(is_removed(&el("script", vec![attr("src", "/a.js")], vec![])));
    assert!(!is_removed(&el("script", vec![attr("src", "http://a/b.js")], vec![])));
    assert!(!is_removed(&el("script", vec![attr("src", "https://a/b.js")], vec![])));
    assert!(!is_removed(&el("script", vec![attr("src", "//a/b.js")], vec![])));
    assert!(is_removed(&el("script", vec![attr(FARM_ENTRY, "true")], vec![])));
    assert!(!is_removed(&el("script", vec![], vec![])));
    assert!(is_removed(&el("link", vec![attr("rel", "stylesheet"), attr("href", "a.css")], vec![])));
    assert!(!is_removed(&el("link", vec![attr("rel", "icon"), attr("href", "a.ico")], vec![])));
    assert!(!is_removed(&el("link", vec![attr("rel", "stylesheet"), attr("href", "https://x/a.css")], vec![])));
    assert!(!is_removed(&el("div", vec![attr("src", "/a.js")], vec![])));
}

#[test]
fn inject_fills_head_and_body() {
    let mut inj = injector();
    let mut doc = document();
    inj.inject(&mut doc);
    assert_eq!(doc.children.len(), 2);
    let html = element(&doc.children[1]);
    let head = element(&html.children[0]);
    // meta and the icon link stay; two stylesheet links and the runtime script arrive
    assert_eq!(head.children.len(), 5);
    assert_eq!(element(&head.children[0]).tag_name, "meta");
    assert_eq!(attr_value(element(&head.children[1]), "rel"), Some("icon"));
    let css1 = element(&head.children[2]);
    assert_eq!(css1.tag_name, "link");
    assert_eq!(attr_value(css1, "rel"), Some("stylesheet"));
    assert_eq!(attr_value(css1, "href"), Some("/a.css"));
    assert_eq!(attr_value(element(&head.children[3]), "href"), Some("/b.css"));
    let runtime = element(&head.children[4]);
    assert_eq!(runtime.tag_name, "script");
    assert_eq!(attr_value(runtime, FARM_ENTRY), Some("true"));
    assert_eq!(text_of(runtime), Some("runtime();"));

    let body = element(&html.children[1]);
    assert_eq!(body.children.len(), 5);
    let div = element(&body.children[0]);
    // the remote script stays, the old entry script goes
    assert_eq!(div.children.len(), 2);
    assert_eq!(attr_value(element(&div.children[0]), "src"), Some("https://cdn.example/x.js"));
    assert!(matches!(body.children[1], Child::Comment(_)));
    assert_eq!(attr_value(element(&body.children[2]), "src"), Some("/a.js"));
    let boot = element(&body.children[3]);
    assert_eq!(
        text_of(boot),
        Some(
            "var __farm_global_this__ = globalThis || window || self;\n            var __farm_module_system_local__ = __farm_global_this__.__farm_module_system__;\n            __farm_module_system_local__.bootstrap();"
        )
    );
    let entry = element(&body.children[4]);
    assert_eq!(attr_value(entry, FARM_ENTRY), Some("true"));
    assert_eq!(
        text_of(entry),
        Some(
            "var __farm_global_this__ = globalThis || window || self;\n              var __farm_module_system_local__ = __farm_global_this__.__farm_module_system__;\n              __farm_module_system_local__.require(\"main\")"
        )
    );
}

fn shape(c: &Child) -> String {
    match c {
        Child::Element(e) => {
            let attrs: Vec<String> =
                e.attributes.iter().map(|a| format!("{}={:?}", a.name, a.value)).collect();
            let kids: Vec<String> = e.children.iter().map(shape).collect();
            format!("<{} {}>{}</>", e.tag_name, attrs.join(" "), kids.join(""))
        },
        Child::Text(t) => format!("text:{}", t),
        Child::Comment(t) => format!("comment:{}", t),
        Child::DocumentType(t) => format!("doctype:{}", t),
    }
}

#[test]
fn injecting_twice_is_injecting_once() {
    let mut inj = injector();
    let mut once = document();
    inj.inject(&mut once);
    let mut twice = document();
    inj.inject(&mut twice);
    inj.inject(&mut twice);
    let a: Vec<String> = once.children.iter().map(shape).collect();
    let b: Vec<String> = twice.children.iter().map(shape).collect();
    assert_eq!(a, b);
}

#[test]
fn visit_mut_element_leaves_other_tags_without_additions() {
    let mut inj = injector();
    let mut e = el("div", vec![], vec![Child::Element(el("script", vec![attr("src", "x.js")], vec![]))]);
    inj.visit_mut_element(&mut e);
    assert!(e.children.is_empty());
}

#[test]
fn template_content_is_visited() {
    let mut inj = injector();
    let inner = el("div", vec![], vec![Child::Element(el("script", vec![attr("src", "/t.js")], vec![])), Child::Text("x".to_string())]);
    let top_script = el("script", vec![attr("src", "/top.js")], vec![]);
    let mut template = el("template", vec![], vec![]);
    template.content = Some(vec![Child::Element(inner), Child::Element(top_script)]);
    let mut holder = el("section", vec![], vec![Child::Element(template)]);
    inj.visit_mut_element(&mut holder);
    let t = element(&holder.children[0]);
    let content = t.content.as_ref().unwrap();
    assert_eq!(content.len(), 2);
    // the script inside the div of the fragment goes
    let div = element(&content[0]);
    assert_eq!(div.children.len(), 1);
    assert!(matches!(div.children[0], Child::Text(_)));
    // a script at the top of the fragment is no element's child and stays
    assert_eq!(attr_value(element(&content[1]), "src"), Some("/top.js"));
}
