//! Injection of the build's resources into an HTML document.
//!
//! Every element first loses its local `<script src>`, entry `<script>` and
//! stylesheet `<link href>` children (those whose address is not an absolute
//! `http(s)://` or `//` URL). Then `<head>` receives a stylesheet link for
//! each CSS resource and the runtime script, and `<body>` receives a script
//! for each script resource, the module-system bootstrap and one loader
//! script per entry. All other children are visited in the same way.
use vstd::prelude::*;
use crate::html_ast::{
    attribute_view, attributes_view, child_view, children_view, content_view, element_view, Attribute, AttributeV, Child, ChildV,
    Document, Element, ElementV,
};
use crate::text::{concat_text, has_prefix, text_eq, to_owned_text};

verus! {

/// The attribute that marks a script as one of the build's entry scripts.
pub const FARM_ENTRY: &'static str = "data-farm-entry-script";

/// The global name under which the runtime publishes itself.
pub const FARM_GLOBAL_THIS: &'static str = "__farm_global_this__";

/// The property of the global that holds the module system.
pub const FARM_MODULE_SYSTEM: &'static str = "__farm_module_system__";

/// The first attribute of `attrs` named `name`, if any.
pub open spec fn find_attr(attrs: Seq<AttributeV>, name: Seq<char>) -> Option<AttributeV>
    decreases attrs.len(),
{
    if attrs.len() == 0 {
        None
    } else if attrs[0].name == name {
        Some(attrs[0])
    } else {
        find_attr(attrs.drop_first(), name)
    }
}

/// The value of the first attribute of `attrs` named `name`, when that
/// attribute exists and has a value.
pub open spec fn attr_value(attrs: Seq<AttributeV>, name: Seq<char>) -> Option<Seq<char>> {
    match find_attr(attrs, name) {
        Some(a) => a.value,
        None => None,
    }
}

/// An address that the browser loads from elsewhere: `http://..`,
/// `https://..` or protocol-relative `//..`.
pub open spec fn is_absolute_url(v: Seq<char>) -> bool {
    "http://"@.is_prefix_of(v) || "https://"@.is_prefix_of(v) || "//"@.is_prefix_of(v)
}

/// `<script src="..">` with a local address.
pub open spec fn is_script_src(e: ElementV) -> bool {
    e.tag_name == "script"@ && match attr_value(e.attributes, "src"@) {
        Some(v) => !is_absolute_url(v),
        None => false,
    }
}

/// `<script data-farm-entry-script ..>`
pub open spec fn is_script_entry(e: ElementV) -> bool {
    e.tag_name == "script"@ && find_attr(e.attributes, FARM_ENTRY@) is Some
}

/// `<link rel="stylesheet" href="..">` with a local address.
pub open spec fn is_link_href(e: ElementV) -> bool {
    e.tag_name == "link"@ && attr_value(e.attributes, "rel"@) == Some("stylesheet"@) && match attr_value(
        e.attributes,
        "href"@,
    ) {
        Some(v) => !is_absolute_url(v),
        None => false,
    }
}

/// A child element that injection takes out before it adds its own.
pub open spec fn is_removed_element(e: ElementV) -> bool {
    is_script_src(e) || is_script_entry(e) || is_link_href(e)
}

/// The element that `create_element` builds.
pub open spec fn created_element(
    tag: Seq<char>,
    text: Option<Seq<char>>,
    attrs: Seq<(Seq<char>, Seq<char>)>,
) -> ElementV {
    ElementV {
        tag_name: tag,
        attributes: attrs.map_values(|p: (Seq<char>, Seq<char>)| AttributeV { name: p.0, value: Some(p.1) }),
        children: match text {
            Some(t) => seq![ChildV::Text(t)],
            None => Seq::empty(),
        },
        content: None,
    }
}

/// The code of the script that starts the module system.
pub open spec fn bootstrap_code() -> Seq<char> {
    "var __farm_global_this__ = globalThis || window || self;\n            var __farm_module_system_local__ = __farm_global_this__.__farm_module_system__;\n            __farm_module_system_local__.bootstrap();"@
}

/// The code of the script that loads the entry module `entry`.
pub open spec fn entry_code(entry: Seq<char>) -> Seq<char> {
    "var __farm_global_this__ = globalThis || window || self;\n              var __farm_module_system_local__ = __farm_global_this__.__farm_module_system__;\n              __farm_module_system_local__.require(\""@
        + entry + "\")"@
}

pub open spec fn entry_marker() -> Seq<(Seq<char>, Seq<char>)> {
    seq![(FARM_ENTRY@, "true"@)]
}

/// What `<head>` receives: a stylesheet link per CSS resource, then the
/// runtime script.
pub open spec fn head_additions(css: Seq<Seq<char>>, runtime_code: Seq<char>) -> Seq<ChildV> {
    Seq::new(
        css.len(),
        |i: int|
            ChildV::Element(
                created_element("link"@, None, seq![("rel"@, "stylesheet"@), ("href"@, css[i])]),
            ),
    ).push(ChildV::Element(created_element("script"@, Some(runtime_code), entry_marker())))
}

/// What `<body>` receives: a script per script resource, the bootstrap
/// script, then a loader script per entry.
pub open spec fn body_additions(scripts: Seq<Seq<char>>, entries: Seq<Seq<char>>) -> Seq<ChildV> {
    Seq::new(
        scripts.len(),
        |i: int| ChildV::Element(created_element("script"@, None, seq![("src"@, scripts[i])])),
    ).push(ChildV::Element(created_element("script"@, Some(bootstrap_code()), entry_marker())))
        + Seq::new(
        entries.len(),
        |i: int|
            ChildV::Element(created_element("script"@, Some(entry_code(entries[i])), entry_marker())),
    )
}

/// The mathematical view of an injector: its four lists.
pub struct InjectorV {
    pub runtime_code: Seq<char>,
    pub script_resources: Seq<Seq<char>>,
    pub css_resources: Seq<Seq<char>>,
    pub script_entries: Seq<Seq<char>>,
}

/// What an element of tag `tag` receives.
pub open spec fn additions(inj: InjectorV, tag: Seq<char>) -> Seq<ChildV> {
    if tag == "head"@ {
        head_additions(inj.css_resources, inj.runtime_code)
    } else if tag == "body"@ {
        body_additions(inj.script_resources, inj.script_entries)
    } else {
        Seq::empty()
    }
}

/// The element after injection.
pub open spec fn visit_element_spec(inj: InjectorV, e: ElementV) -> ElementV
    decreases e,
{
    ElementV {
        tag_name: e.tag_name,
        attributes: e.attributes,
        children: visit_children_spec(inj, e.children) + additions(inj, e.tag_name),
        content: match e.content {
            Some(c) => Some(visit_fragment_spec(inj, c)),
            None => None,
        },
    }
}

/// The children of an element after injection: removed elements are gone,
/// other elements are visited, other nodes stay as they are.
pub open spec fn visit_children_spec(inj: InjectorV, s: Seq<ChildV>) -> Seq<ChildV>
    decreases s,
{
    if s.len() == 0 {
        Seq::empty()
    } else {
        let rest = visit_children_spec(inj, s.drop_last());
        match s.last() {
            ChildV::Element(x) => if is_removed_element(x) {
                rest
            } else {
                rest.push(ChildV::Element(visit_element_spec(inj, x)))
            },
            c => rest.push(c),
        }
    }
}

/// A top-level node of a document or template fragment after injection:
/// an element is visited, nothing is taken out at this level.
pub open spec fn visit_top_spec(inj: InjectorV, c: ChildV) -> ChildV
    decreases c,
{
    match c {
        ChildV::Element(x) => ChildV::Element(visit_element_spec(inj, x)),
        _ => c,
    }
}

/// The nodes of a document or a template fragment after injection.
pub open spec fn visit_fragment_spec(inj: InjectorV, s: Seq<ChildV>) -> Seq<ChildV>
    decreases s,
{
    Seq::new(
        s.len(),
        |i: int|
            if 0 <= i < s.len() {
                visit_top_spec(inj, s[i])
            } else {
                ChildV::Text(Seq::empty())
            },
    )
}

/// The document after injection.
pub open spec fn inject_spec(inj: InjectorV, doc: Seq<ChildV>) -> Seq<ChildV> {
    visit_fragment_spec(inj, doc)
}

/// Injects resources into the HTML tree.
pub struct ResourcesInjector {
    runtime_code: String,
    script_resources: Vec<String>,
    css_resources: Vec<String>,
    script_entries: Vec<String>,
}

pub open spec fn texts_view(v: Vec<String>) -> Seq<Seq<char>> {
    v@.map_values(|s: String| s@)
}

impl View for ResourcesInjector {
    type V = InjectorV;

    closed spec fn view(&self) -> InjectorV {
        InjectorV {
            runtime_code: self.runtime_code@,
            script_resources: texts_view(self.script_resources),
            css_resources: texts_view(self.css_resources),
            script_entries: texts_view(self.script_entries),
        }
    }
}

/// An element with tag `tag`, an attribute for each pair of `attrs`, and
/// `text` as its only child when given.
pub fn create_element(tag: &str, text: Option<&str>, attrs: Vec<(&str, &str)>) -> (r: Element)
    ensures
        r@ == created_element(
            tag@,
            match text {
                Some(t) => Some(t@),
                None => None,
            },
            attrs@.map_values(|p: (&str, &str)| (p.0@, p.1@)),
        ),
{
    let mut attributes: Vec<Attribute> = Vec::new();
    let mut i: usize = 0;
    while i < attrs.len()
        invariant
            i <= attrs@.len(),
            attributes@.len() == i,
            forall|j: int|
                0 <= j < i ==> attributes_view(attributes)[j] == (AttributeV {
                    name: attrs@[j].0@,
                    value: Some(attrs@[j].1@),
                }),
        decreases attrs@.len() - i,
    {
        let (n, v) = attrs[i];
        let a = Attribute { name: to_owned_text(n), value: Some(to_owned_text(v)) };
        let ghost before = attributes;
        attributes.push(a);
        assert(attribute_view(a) == (AttributeV { name: attrs@[i as int].0@, value: Some(attrs@[i as int].1@) }));
        assert forall|j: int| 0 <= j < i + 1 implies attributes_view(attributes)[j] == (AttributeV {
            name: attrs@[j].0@,
            value: Some(attrs@[j].1@),
        }) by {
            if j < i {
                assert(attributes@[j] == before@[j]);
                assert(attributes_view(before)[j] == attribute_view(before@[j]));
            }
        }
        i = i + 1;
    }
    let mut children: Vec<Child> = Vec::new();
    match text {
        Some(t) => children.push(Child::Text(to_owned_text(t))),
        None => {},
    }
    let r = Element { tag_name: to_owned_text(tag), attributes, children, content: None };
    let ghost want = created_element(
        tag@,
        match text {
            Some(t) => Some(t@),
            None => None,
        },
        attrs@.map_values(|p: (&str, &str)| (p.0@, p.1@)),
    );
    assert(attributes_view(r.attributes) =~= want.attributes);
    assert(children_view(r.children) =~= want.children);
    r
}

/// The index of the first attribute of `attrs` named `name`.
fn find_attr_index(attrs: &Vec<Attribute>, name: &str) -> (r: Option<usize>)
    ensures
        match r {
            Some(i) => i < attrs@.len() && find_attr(attributes_view(*attrs), name@) == Some(
                attribute_view(attrs@[i as int]),
            ),
            None => find_attr(attributes_view(*attrs), name@) is None,
        },
{
    let ghost all = attributes_view(*attrs);
    let mut i: usize = 0;
    assert(all.subrange(0, all.len() as int) =~= all);
    while i < attrs.len()
        invariant
            i <= attrs@.len(),
            all == attributes_view(*attrs),
            find_attr(all, name@) == find_attr(all.subrange(i as int, all.len() as int), name@),
        decreases attrs@.len() - i,
    {
        if text_eq(attrs[i].name.as_str(), name) {
            return Some(i);
        }
        assert(all.subrange(i as int, all.len() as int).drop_first() =~= all.subrange(
            i + 1,
            all.len() as int,
        ));
        i = i + 1;
    }
    None
}

/// The value of the first attribute of `e` named `name`, when it has one.
fn attr_value_of<'a>(e: &'a Element, name: &str) -> (r: Option<&'a String>)
    ensures
        match r {
            Some(v) => attr_value(attributes_view(e.attributes), name@) == Some(v@),
            None => attr_value(attributes_view(e.attributes), name@) is None,
        },
{
    match find_attr_index(&e.attributes, name) {
        Some(i) => match &e.attributes[i].value {
            Some(v) => Some(v),
            None => None,
        },
        None => None,
    }
}

/// Whether `v` is an absolute URL.
fn is_absolute_url_exec(v: &str) -> (r: bool)
    ensures
        r == is_absolute_url(v@),
{
    has_prefix(v, "http://") || has_prefix(v, "https://") || has_prefix(v, "//")
}

/// Whether injection takes the child element `e` out.
pub fn is_removed(e: &Element) -> (r: bool)
    ensures
        r == is_removed_element(e@),
{
    let tag = e.tag_name.as_str();
    proof {
        reveal_strlit("script");
        reveal_strlit("link");
        assert(e@.tag_name == e.tag_name@);
        assert(e@.attributes == attributes_view(e.attributes));
    }
    if text_eq(tag, "script") {
        let src = match attr_value_of(e, "src") {
            Some(v) => !is_absolute_url_exec(v.as_str()),
            None => false,
        };
        let entry = find_attr_index(&e.attributes, FARM_ENTRY).is_some();
        src || entry
    } else if text_eq(tag, "link") {
        let rel = match attr_value_of(e, "rel") {
            Some(v) => text_eq(v.as_str(), "stylesheet"),
            None => false,
        };
        let href = match attr_value_of(e, "href") {
            Some(v) => !is_absolute_url_exec(v.as_str()),
            None => false,
        };
        rel && href
    } else {
        false
    }
}

impl ResourcesInjector {
    pub fn new(
        runtime_code: String,
        script_resources: Vec<String>,
        css_resources: Vec<String>,
        script_entries: Vec<String>,
    ) -> (r: Self)
        ensures
            r@ == (InjectorV {
                runtime_code: runtime_code@,
                script_resources: texts_view(script_resources),
                css_resources: texts_view(css_resources),
                script_entries: texts_view(script_entries),
            }),
    {
        Self { runtime_code, css_resources, script_resources, script_entries }
    }

    /// Injects the resources into the whole document.
    pub fn inject(&mut self, ast: &mut Document)
        ensures
            *final(self) == *old(self),
            final(ast)@ == inject_spec(old(self)@, old(ast)@),
    {
        let mut children: Vec<Child> = Vec::new();
        std::mem::swap(&mut children, &mut ast.children);
        let out = self.visit_fragment(children);
        ast.children = out;
    }

    /// The nodes of a document or template fragment after injection.
    fn visit_fragment(&self, v: Vec<Child>) -> (r: Vec<Child>)
        ensures
            children_view(r) == visit_fragment_spec(self@, children_view(v)),
        decreases v,
    {
        let ghost orig = v;
        let mut out: Vec<Child> = Vec::new();
        let mut rest = v;
        #[verifier::loop_isolation(false)]
        while rest.len() > 0
            invariant
                out@.len() + rest@.len() == orig@.len(),
                forall|j: int|
                    0 <= j < rest@.len() ==> #[trigger] rest@[j] == orig@[out@.len() + j],
                forall|j: int|
                    0 <= j < out@.len() ==> child_view(#[trigger] out@[j]) == visit_top_spec(
                        self@,
                        child_view(orig@[j]),
                    ),
            decreases rest@.len(),
        {
            let c = rest.remove(0);
            proof {
                assert(c == orig@[out@.len() as int]);
                assert(decreases_to!(orig => orig@));
                assert(decreases_to!(orig@ => orig@[out@.len() as int]));
            }
            let ghost cv = child_view(c);
            let d = match c {
                Child::Element(x) => {
                    assert(cv == ChildV::Element(element_view(x)));
                    let y = self.visit_element(x);
                    let d = Child::Element(y);
                    assert(child_view(d) == ChildV::Element(element_view(y)));
                    d
                },
                other => {
                    assert(!(cv is Element));
                    other
                },
            };
            out.push(d);
        }
        assert(children_view(out) =~= visit_fragment_spec(self@, children_view(orig)));
        out
    }

    /// Injects the resources into `element` and everything below it.
    pub fn visit_mut_element(&mut self, element: &mut Element)
        ensures
            *final(self) == *old(self),
            final(element)@ == visit_element_spec(old(self)@, old(element)@),
    {
        let mut taken = Element {
            tag_name: String::new(),
            attributes: Vec::new(),
            children: Vec::new(),
            content: None,
        };
        std::mem::swap(&mut taken, element);
        let done = self.visit_element(taken);
        *element = done;
    }

    /// The element after injection, built from the one given.
    fn visit_element(&self, element: Element) -> (r: Element)
        ensures
            r@ == visit_element_spec(self@, element@),
        decreases element,
    {
        let ghost ev = element_view(element);
        let Element { tag_name, attributes, children, content } = element;
        let ghost orig = children;
        let mut kept: Vec<Child> = Vec::new();
        let mut i: usize = 0;
        let n = children.len();
        let mut rest = children;
        #[verifier::loop_isolation(false)]
        while rest.len() > 0
            invariant
                i + rest@.len() == orig@.len(),
                orig@.len() == n,
                forall|j: int| 0 <= j < rest@.len() ==> #[trigger] rest@[j] == orig@[i + j],
                children_view(kept) == visit_children_spec(
                    self@,
                    children_view(orig).subrange(0, i as int),
                ),
            decreases rest@.len(),
        {
            let c = rest.remove(0);
            let ghost prefix = children_view(orig).subrange(0, i as int);
            let ghost next = children_view(orig).subrange(0, i + 1);
            assert(next.drop_last() =~= prefix);
            assert(next.last() == child_view(c));
            let ghost before = children_view(kept);
            match c {
                Child::Element(x) => {
                    assert(child_view(c) == ChildV::Element(element_view(x)));
                    if !is_removed(&x) {
                        proof {
                            assert(decreases_to!(orig => orig@));
                            assert(decreases_to!(orig@ => orig@[i as int]));
                        }
                        let y = self.visit_element(x);
                        kept.push(Child::Element(y));
                        assert(child_view(Child::Element(y)) == ChildV::Element(element_view(y)));
                        assert(children_view(kept) =~= before.push(ChildV::Element(element_view(y))));
                    }
                },
                other => {
                    assert(!(child_view(other) is Element));
                    kept.push(other);
                    assert(children_view(kept) =~= before.push(child_view(other)));
                },
            }
            i = i + 1;
        }
        assert(children_view(orig).subrange(0, i as int) =~= children_view(orig));
        let added = self.additions_for(tag_name.as_str());
        let ghost kv = children_view(kept);
        let ghost av = children_view(added);
        let mut all = kept;
        let mut added = added;
        all.append(&mut added);
        assert(children_view(all) =~= kv + av);
        let ghost cv = content_view(content);
        let content2 = match content {
            Some(c) => {
                proof {
                    assert(decreases_to!(element => content));
                    assert(decreases_to!(content => c));
                }
                let c2 = self.visit_fragment(c);
                Some(c2)
            },
            None => None,
        };
        let r = Element { tag_name, attributes, children: all, content: content2 };
        assert(r@.content == match cv {
            Some(c) => Some(visit_fragment_spec(self@, c)),
            None => None::<Seq<ChildV>>,
        });
        r
    }

    /// The nodes that an element with tag `tag` receives.
    fn additions_for(&self, tag: &str) -> (r: Vec<Child>)
        ensures
            children_view(r) == additions(self@, tag@),
    {
        let mut out: Vec<Child> = Vec::new();
        proof {
            reveal_strlit("head");
            reveal_strlit("body");
        }
        if text_eq(tag, "head") {
            let mut i: usize = 0;
            while i < self.css_resources.len()
                invariant
                    i <= self.css_resources@.len(),
                    children_view(out) =~= Seq::new(
                        i as nat,
                        |k: int|
                            ChildV::Element(
                                created_element(
                                    "link"@,
                                    None,
                                    seq![("rel"@, "stylesheet"@), ("href"@, self@.css_resources[k])],
                                ),
                            ),
                    ),
                decreases self.css_resources@.len() - i,
            {
                let css = self.css_resources[i].as_str();
                let attrs = vec![("rel", "stylesheet"), ("href", css)];
                assert(attrs@.map_values(|p: (&str, &str)| (p.0@, p.1@)) =~= seq![("rel"@, "stylesheet"@), ("href"@, self@.css_resources[i as int])]);
                let e = create_element("link", None, attrs);
                let ghost before = children_view(out);
                out.push(Child::Element(e));
                assert(children_view(out) =~= before.push(child_view(Child::Element(e))));
                i = i + 1;
            }
            let ghost before = children_view(out);
            let e = create_element("script", Some(self.runtime_code.as_str()), marker_attrs());
            out.push(Child::Element(e));
            assert(children_view(out) =~= before.push(child_view(Child::Element(e))));
        } else if text_eq(tag, "body") {
            let mut i: usize = 0;
            while i < self.script_resources.len()
                invariant
                    i <= self.script_resources@.len(),
                    children_view(out) =~= Seq::new(
                        i as nat,
                        |k: int|
                            ChildV::Element(
                                created_element("script"@, None, seq![("src"@, self@.script_resources[k])]),
                            ),
                    ),
                decreases self.script_resources@.len() - i,
            {
                let s = self.script_resources[i].as_str();
                let attrs = vec![("src", s)];
                assert(attrs@.map_values(|p: (&str, &str)| (p.0@, p.1@)) =~= seq![("src"@, self@.script_resources[i as int])]);
                let e = create_element("script", None, attrs);
                let ghost before = children_view(out);
                out.push(Child::Element(e));
                assert(children_view(out) =~= before.push(child_view(Child::Element(e))));
                i = i + 1;
            }
            let boot = bootstrap_script();
            let e = create_element("script", Some(boot.as_str()), marker_attrs());
            let ghost before = children_view(out);
            out.push(Child::Element(e));
            assert(children_view(out) =~= before.push(child_view(Child::Element(e))));
            let ghost head = children_view(out);
            let mut j: usize = 0;
            while j < self.script_entries.len()
                invariant
                    j <= self.script_entries@.len(),
                    children_view(out) =~= head + Seq::new(
                        j as nat,
                        |k: int|
                            ChildV::Element(
                                created_element(
                                    "script"@,
                                    Some(entry_code(self@.script_entries[k])),
                                    entry_marker(),
                                ),
                            ),
                    ),
                decreases self.script_entries@.len() - j,
            {
                let code = entry_script(self.script_entries[j].as_str());
                let e = create_element("script", Some(code.as_str()), marker_attrs());
                let ghost before = children_view(out);
                out.push(Child::Element(e));
                assert(children_view(out) =~= before.push(child_view(Child::Element(e))));
                j = j + 1;
            }
        }
        out
    }
}

/// The attribute list that marks an entry script.
fn marker_attrs() -> (r: Vec<(&'static str, &'static str)>)
    ensures
        r@.map_values(|p: (&str, &str)| (p.0@, p.1@)) == entry_marker(),
{
    let r = vec![(FARM_ENTRY, "true")];
    assert(r@.map_values(|p: (&str, &str)| (p.0@, p.1@)) =~= entry_marker());
    r
}

/// The code of the bootstrap script.
fn bootstrap_script() -> (r: String)
    ensures
        r@ == bootstrap_code(),
{
    to_owned_text(
        "var __farm_global_this__ = globalThis || window || self;\n            var __farm_module_system_local__ = __farm_global_this__.__farm_module_system__;\n            __farm_module_system_local__.bootstrap();",
    )
}

/// The code of the loader script of `entry`.
fn entry_script(entry: &str) -> (r: String)
    ensures
        r@ == entry_code(entry@),
{
    let head = concat_text(
        "var __farm_global_this__ = globalThis || window || self;\n              var __farm_module_system_local__ = __farm_global_this__.__farm_module_system__;\n              __farm_module_system_local__.require(\"",
        entry,
    );
    concat_text(head.as_str(), "\")")
}

} // verus!

verus! {

/// None of the resource addresses is an absolute URL.
pub open spec fn resources_local(inj: InjectorV) -> bool {
    &&& forall|i: int| 0 <= i < inj.css_resources.len() ==> !is_absolute_url(#[trigger] inj.css_resources[i])
    &&& forall|i: int| 0 <= i < inj.script_resources.len() ==> !is_absolute_url(#[trigger] inj.script_resources[i])
}

proof fn lemma_visit_children_concat(inj: InjectorV, s: Seq<ChildV>, t: Seq<ChildV>)
    ensures
        visit_children_spec(inj, s + t) == visit_children_spec(inj, s) + visit_children_spec(inj, t),
    decreases t.len(),
{
    if t.len() == 0 {
        assert(s + t =~= s);
        assert(visit_children_spec(inj, s) + visit_children_spec(inj, t) =~= visit_children_spec(inj, s));
    } else {
        lemma_visit_children_concat(inj, s, t.drop_last());
        assert((s + t).drop_last() =~= s + t.drop_last());
        assert((s + t).last() == t.last());
        let a = visit_children_spec(inj, s);
        let b = visit_children_spec(inj, t.drop_last());
        match t.last() {
            ChildV::Element(x) => {
                if !is_removed_element(x) {
                    let y = ChildV::Element(visit_element_spec(inj, x));
                    assert((a + b).push(y) =~= a + b.push(y));
                }
            },
            c => {
                assert((a + b).push(c) =~= a + b.push(c));
            },
        }
    }
}

/// Every node of `s` is an element that injection takes out.
pub open spec fn all_removed(s: Seq<ChildV>) -> bool {
    forall|i: int| 0 <= i < s.len() ==> (#[trigger] s[i] matches ChildV::Element(e) && is_removed_element(e))
}

proof fn lemma_visit_children_all_removed(inj: InjectorV, s: Seq<ChildV>)
    requires
        all_removed(s),
    ensures
        visit_children_spec(inj, s) == Seq::<ChildV>::empty(),
    decreases s.len(),
{
    if s.len() > 0 {
        assert(s.last() == s[s.len() - 1]);
        assert forall|i: int| 0 <= i < s.drop_last().len() implies (#[trigger] s.drop_last()[i] matches ChildV::Element(e)
            && is_removed_element(e)) by {
            assert(s.drop_last()[i] == s[i]);
        }
        lemma_visit_children_all_removed(inj, s.drop_last());
    }
}

proof fn lemma_additions_removed(inj: InjectorV, tag: Seq<char>)
    requires
        resources_local(inj),
    ensures
        all_removed(additions(inj, tag)),
{
    reveal_strlit("script");
    reveal_strlit("link");
    reveal_strlit("rel");
    reveal_strlit("href");
    reveal_strlit("src");
    reveal_strlit("data-farm-entry-script");
    let adds = additions(inj, tag);
    assert forall|i: int| 0 <= i < adds.len() implies (#[trigger] adds[i] matches ChildV::Element(e)
        && is_removed_element(e)) by {
        let x = adds[i]->Element_0;
        let attrs = x.attributes;
        if tag == "head"@ {
            let n = inj.css_resources.len();
            if i < n {
                let css = inj.css_resources[i];
                assert(attrs =~= seq![
                    AttributeV { name: "rel"@, value: Some("stylesheet"@) },
                    AttributeV { name: "href"@, value: Some(css) },
                ]);
                assert(attrs.drop_first() =~= seq![AttributeV { name: "href"@, value: Some(css) }]);
                assert(find_attr(attrs.drop_first(), "href"@) == Some(AttributeV { name: "href"@, value: Some(css) }));
                assert(find_attr(attrs, "rel"@) == Some(attrs[0]));
                assert("rel"@.len() == 3 && "href"@.len() == 4);
                assert(attrs[0].name != "href"@);
                assert(find_attr(attrs, "href"@) == find_attr(attrs.drop_first(), "href"@));
                assert(attr_value(attrs, "href"@) == Some(css));
                assert(attr_value(attrs, "rel"@) == Some("stylesheet"@));
                assert(x.tag_name == "link"@);
                assert(!is_absolute_url(inj.css_resources[i]));
                assert(is_link_href(x));
            } else {
                assert(attrs =~= seq![AttributeV { name: FARM_ENTRY@, value: Some("true"@) }]);
                assert(find_attr(attrs, FARM_ENTRY@) is Some);
                assert(is_script_entry(x));
            }
        } else if tag == "body"@ {
            let n = inj.script_resources.len();
            if i < n {
                let src = inj.script_resources[i];
                assert(attrs =~= seq![AttributeV { name: "src"@, value: Some(src) }]);
                assert(find_attr(attrs, "src"@) == Some(AttributeV { name: "src"@, value: Some(src) }));
                assert(x.tag_name == "script"@);
                assert(!is_absolute_url(inj.script_resources[i]));
                assert(is_script_src(x));
            } else {
                assert(attrs =~= seq![AttributeV { name: FARM_ENTRY@, value: Some("true"@) }]);
                assert(find_attr(attrs, FARM_ENTRY@) is Some);
                assert(is_script_entry(x));
            }
        }
    }
}

/// Injecting into an element twice gives what injecting once gives, when
/// no resource address is absolute: the second pass takes out what the
/// first one added and adds it again.
pub proof fn lemma_visit_element_idempotent(inj: InjectorV, e: ElementV)
    requires
        resources_local(inj),
    ensures
        visit_element_spec(inj, visit_element_spec(inj, e)) == visit_element_spec(inj, e),
    decreases e,
{
    let kept = visit_children_spec(inj, e.children);
    let adds = additions(inj, e.tag_name);
    lemma_visit_children_idempotent(inj, e.children);
    lemma_visit_children_concat(inj, kept, adds);
    lemma_additions_removed(inj, e.tag_name);
    lemma_visit_children_all_removed(inj, adds);
    assert(visit_children_spec(inj, kept + adds) =~= kept);
    match e.content {
        Some(c) => lemma_visit_fragment_idempotent(inj, c),
        None => {},
    }
}

/// Visiting the nodes of a fragment twice gives what visiting them once
/// gives, when no resource address is absolute.
pub proof fn lemma_visit_fragment_idempotent(inj: InjectorV, s: Seq<ChildV>)
    requires
        resources_local(inj),
    ensures
        visit_fragment_spec(inj, visit_fragment_spec(inj, s)) == visit_fragment_spec(inj, s),
    decreases s,
{
    let once = visit_fragment_spec(inj, s);
    let twice = visit_fragment_spec(inj, once);
    assert forall|i: int| 0 <= i < s.len() implies twice[i] == once[i] by {
        match s[i] {
            ChildV::Element(x) => {
                assert(decreases_to!(s => s[i]));
                lemma_visit_element_idempotent(inj, x);
            },
            _ => {},
        }
    }
    assert(twice =~= once);
}

/// Visiting the children of an element twice gives what visiting them once
/// gives, when no resource address is absolute.
pub proof fn lemma_visit_children_idempotent(inj: InjectorV, s: Seq<ChildV>)
    requires
        resources_local(inj),
    ensures
        visit_children_spec(inj, visit_children_spec(inj, s)) == visit_children_spec(inj, s),
    decreases s,
{
    if s.len() > 0 {
        let rest = visit_children_spec(inj, s.drop_last());
        lemma_visit_children_idempotent(inj, s.drop_last());
        match s.last() {
            ChildV::Element(x) => {
                if !is_removed_element(x) {
                    assert(decreases_to!(s => s[s.len() - 1]));
                    lemma_visit_element_idempotent(inj, x);
                    let vx = ChildV::Element(visit_element_spec(inj, x));
                    lemma_visit_children_concat(inj, rest, seq![vx]);
                    assert(rest.push(vx) =~= rest + seq![vx]);
                    assert(seq![vx].drop_last() =~= Seq::<ChildV>::empty());
                    assert(visit_children_spec(inj, Seq::<ChildV>::empty()) == Seq::<ChildV>::empty());
                    assert(seq![vx].last() == vx);
                    assert(!is_removed_element(visit_element_spec(inj, x)));
                    assert(visit_children_spec(inj, seq![vx]) =~= seq![vx]);
                }
            },
            c => {
                lemma_visit_children_concat(inj, rest, seq![c]);
                assert(rest.push(c) =~= rest + seq![c]);
                assert(seq![c].drop_last() =~= Seq::<ChildV>::empty());
                assert(visit_children_spec(inj, Seq::<ChildV>::empty()) == Seq::<ChildV>::empty());
                assert(seq![c].last() == c);
                assert(visit_children_spec(inj, seq![c]) =~= seq![c]);
            },
        }
    }
}

/// Injecting into a document twice gives what injecting once gives, when
/// no resource address is absolute.
pub proof fn lemma_inject_idempotent(inj: InjectorV, doc: Seq<ChildV>)
    requires
        resources_local(inj),
    ensures
        inject_spec(inj, inject_spec(inj, doc)) == inject_spec(inj, doc),
{
    lemma_visit_fragment_idempotent(inj, doc);
}

/// A `<body>` receives, after its own kept children and in this order: a
/// script per script resource, in the order of the resources; the
/// bootstrap script; then a loader script per entry, the `i`-th loader
/// requiring the `i`-th entry.
pub proof fn lemma_body_receives_resources_in_order(inj: InjectorV, e: ElementV)
    requires
        e.tag_name == "body"@,
    ensures
        ({
            let ch = visit_element_spec(inj, e).children;
            let s = inj.script_resources.len() as int;
            let k = inj.script_entries.len() as int;
            let start = ch.len() - (s + 1 + k);
            &&& ch.len() >= s + 1 + k
            &&& forall|i: int|
                0 <= i < s ==> #[trigger] ch[start + i] == ChildV::Element(
                    created_element("script"@, None, seq![("src"@, inj.script_resources[i])]),
                )
            &&& ch[start + s] == ChildV::Element(created_element("script"@, Some(bootstrap_code()), entry_marker()))
            &&& forall|i: int|
                0 <= i < k ==> #[trigger] ch[start + s + 1 + i] == ChildV::Element(
                    created_element("script"@, Some(entry_code(inj.script_entries[i])), entry_marker()),
                )
        }),
{
    reveal_strlit("head");
    reveal_strlit("body");
    assert("head"@ != "body"@) by {
        assert("head"@[0] != "body"@[0]);
    }
    let kept = visit_children_spec(inj, e.children);
    let adds = body_additions(inj.script_resources, inj.script_entries);
    assert(additions(inj, e.tag_name) == adds);
    let ch = visit_element_spec(inj, e).children;
    assert(ch == kept + adds);
    let s = inj.script_resources.len() as int;
    let k = inj.script_entries.len() as int;
    assert(adds.len() == s + 1 + k);
    let start = ch.len() - (s + 1 + k);
    assert(start == kept.len());
    assert forall|i: int| 0 <= i < s implies #[trigger] ch[start + i] == ChildV::Element(
        created_element("script"@, None, seq![("src"@, inj.script_resources[i])]),
    ) by {
        assert(ch[start + i] == adds[i]);
    }
    assert(ch[start + s] == adds[s]);
    assert forall|i: int| 0 <= i < k implies #[trigger] ch[start + s + 1 + i] == ChildV::Element(
        created_element("script"@, Some(entry_code(inj.script_entries[i])), entry_marker()),
    ) by {
        assert(ch[start + s + 1 + i] == adds[s + 1 + i]);
    }
}

/// A `<head>` receives, after its own kept children and in this order: a
/// stylesheet link per CSS resource, in the order of the resources, then
/// the runtime script.
pub proof fn lemma_head_receives_resources_in_order(inj: InjectorV, e: ElementV)
    requires
        e.tag_name == "head"@,
    ensures
        ({
            let ch = visit_element_spec(inj, e).children;
            let c = inj.css_resources.len() as int;
            let start = ch.len() - (c + 1);
            &&& ch.len() >= c + 1
            &&& forall|i: int|
                0 <= i < c ==> #[trigger] ch[start + i] == ChildV::Element(
                    created_element("link"@, None, seq![("rel"@, "stylesheet"@), ("href"@, inj.css_resources[i])]),
                )
            &&& ch[start + c] == ChildV::Element(created_element("script"@, Some(inj.runtime_code), entry_marker()))
        }),
{
    let kept = visit_children_spec(inj, e.children);
    let adds = head_additions(inj.css_resources, inj.runtime_code);
    assert(additions(inj, e.tag_name) == adds);
    let ch = visit_element_spec(inj, e).children;
    assert(ch == kept + adds);
    let c = inj.css_resources.len() as int;
    let start = ch.len() - (c + 1);
    assert(start == kept.len());
    assert forall|i: int| 0 <= i < c implies #[trigger] ch[start + i] == ChildV::Element(
        created_element("link"@, None, seq![("rel"@, "stylesheet"@), ("href"@, inj.css_resources[i])]),
    ) by {
        assert(ch[start + i] == adds[i]);
    }
    assert(ch[start + c] == adds[c]);
}

/// `c` is an element that injection takes out.
pub open spec fn is_removed_child(c: ChildV) -> bool {
    match c {
        ChildV::Element(x) => is_removed_element(x),
        _ => false,
    }
}

/// Injection takes out exactly the removed elements among an element's
/// children and keeps all the others in their order, each element among
/// them visited in turn and every other node as it was.
pub proof fn lemma_visit_children_keeps_the_rest(inj: InjectorV, s: Seq<ChildV>)
    ensures
        visit_children_spec(inj, s) == s.filter(|c: ChildV| !is_removed_child(c)).map_values(
            |c: ChildV| visit_top_spec(inj, c),
        ),
    decreases s.len(),
{
    reveal(Seq::filter);
    let p = |c: ChildV| !is_removed_child(c);
    let f = |c: ChildV| visit_top_spec(inj, c);
    if s.len() == 0 {
        assert(s.filter(p) =~= Seq::<ChildV>::empty());
        assert(s.filter(p).map_values(f) =~= Seq::<ChildV>::empty());
    } else {
        lemma_visit_children_keeps_the_rest(inj, s.drop_last());
        let sub = s.drop_last().filter(p);
        if p(s.last()) {
            assert(s.filter(p) == sub.push(s.last()));
            assert(sub.push(s.last()).map_values(f) =~= sub.map_values(f).push(f(s.last())));
        } else {
            assert(s.filter(p) == sub);
        }
    }
}

} // verus!
