//! The document model: a suite of routes, its table of contents, and the
//! blocks of prose that they carry.
use vstd::prelude::*;
use std::collections::HashMap;
use crate::error::{Error, unsupported_message};
use crate::slug::{push_char, slugify, slug_of};
use crate::paths::{relative_path, relative_path_of};

verus! {

/// `serde_json::Value`, the free-form attributes of a route, carried through
/// unread.
#[verifier::external_type_specification]
#[verifier::external_body]
pub struct ExJsonValue(serde_json::Value);

/// The root document: one API's routes, prose and table of contents.
#[derive(Debug)]
pub struct Suite {
    pub title: Option<String>,
    pub detail: Option<Content>,
    pub toc: Option<TOC>,
    pub routes: Vec<Route>,
    /// Attached by `process`; absent until then.
    pub meta: Option<Meta>,
}

/// A title with optional prose.
#[derive(Debug)]
pub struct Header {
    pub title: Option<String>,
    pub detail: Option<Content>,
}

/// The table of contents, its sections in the order they are declared.
#[derive(Debug)]
pub struct TOC {
    pub detail: Option<Content>,
    pub sections: Option<Vec<Section>>,
}

/// A named group of routes. `routes` is derived: the links to the routes
/// that name this section, filled in by `TOC::with_routes`.
#[derive(Debug)]
pub struct Section {
    pub key: String,
    pub title: String,
    pub detail: Option<Content>,
    pub routes: Option<Vec<Link>>,
}

/// One documented endpoint.
#[derive(Debug)]
pub struct Route {
    /// The keys of the sections it belongs to.
    pub sections: Option<Vec<String>>,
    pub title: Option<String>,
    pub detail: Option<Content>,
    pub method: String,
    pub resource: String,
    /// Free-form attributes, carried through as they are.
    pub attrs: Option<HashMap<String, serde_json::Value>>,
    pub params: Option<Vec<Parameter>>,
    pub examples: Option<Vec<Example>>,
}

#[derive(Debug)]
pub struct Parameter {
    pub name: String,
    pub data_type: Option<String>,
    pub detail: Option<Content>,
}

#[derive(Debug)]
pub struct Example {
    pub title: Option<String>,
    pub detail: Option<Content>,
    pub request: Option<Listing>,
    pub response: Option<Listing>,
}

/// An example request or response body, not interpreted.
#[derive(Debug)]
pub struct Listing {
    pub entity_type: Option<String>,
    pub title: Option<String>,
    pub data: Option<String>,
}

/// A reference to a route or a document.
#[derive(Debug)]
pub struct Link {
    pub title: Option<String>,
    pub url: String,
}

/// One block of prose and the mime kind it is written in.
#[derive(Debug)]
pub struct Content {
    pub mime: String,
    pub data: String,
}

/// What is stamped on a document just before it is rendered.
#[derive(Debug)]
pub struct Meta {
    /// The path of the generated index, if there is one.
    pub index: Option<String>,
    /// When the document was generated, in seconds since the Unix epoch (UTC).
    pub generated: i64,
}

/// One generated document in an index.
#[derive(Debug)]
pub struct Entry {
    pub link: Link,
}

/// The index of the documents generated together.
#[derive(Debug)]
pub struct Index {
    pub title: Option<String>,
    pub detail: Option<Content>,
    pub entries: Vec<Entry>,
    pub meta: Option<Meta>,
}

/// The kinds of content that can be rendered.
#[derive(Debug, Clone, Copy, PartialEq, Eq, Structural)]
pub enum ContentKind {
    Plain,
    Markdown,
}

pub open spec fn kind_of(mime: Seq<char>) -> Option<ContentKind> {
    if mime == "text/plain"@ {
        Some(ContentKind::Plain)
    } else if mime == "text/markdown"@ {
        Some(ContentKind::Markdown)
    } else {
        None
    }
}

pub open spec fn escape_char(c: char) -> Seq<char> {
    if c == '<' {
        "&lt;"@
    } else if c == '>' {
        "&gt;"@
    } else if c == '"' {
        "&quot;"@
    } else if c == '&' {
        "&amp;"@
    } else if c == '\'' {
        "&#x27;"@
    } else if c == '`' {
        "&#x60;"@
    } else if c == '=' {
        "&#x3D;"@
    } else {
        seq![c]
    }
}

/// A text with the characters that are special in HTML replaced by entities.
pub open spec fn html_escaped(s: Seq<char>) -> Seq<char>
    decreases s.len(),
{
    if s.len() == 0 {
        Seq::empty()
    } else {
        html_escaped(s.drop_last()) + escape_char(s.last())
    }
}

/// Relies on `handlebars::html_escape`: replaces each of the characters
/// less-than, greater-than, double quote, ampersand, apostrophe, backtick and
/// equals sign by its entity, and keeps every other character.
#[verifier::external_body]
fn escape_html(s: &str) -> (r: String)
    ensures
        r@ == html_escaped(s@),
{
    handlebars::html_escape(s)
}

/// What `comrak::markdown_to_html` returns for a text, with the strikethrough
/// and table extensions and the language tag of fenced code set as given.
pub uninterp spec fn markdown_html(
    md: Seq<char>,
    strikethrough: bool,
    table: bool,
    github_pre_lang: bool,
) -> Seq<char>;

/// Relies on `comrak::markdown_to_html`: renders Markdown to HTML, with
/// default options but for the three that are passed.
#[verifier::external_body]
fn markdown_to_html(md: &str, strikethrough: bool, table: bool, github_pre_lang: bool) -> (r:
    String)
    ensures
        r@ == markdown_html(md@, strikethrough, table, github_pre_lang),
{
    let mut options = comrak::ComrakOptions::default();
    options.extension.strikethrough = strikethrough;
    options.extension.table = table;
    options.render.github_pre_lang = github_pre_lang;
    comrak::markdown_to_html(md, &options)
}

/// What a block renders to: escaped plain text, or Markdown turned into
/// HTML with strikethrough, tables and tagged code blocks; any other kind is
/// refused with the kind.
pub open spec fn rendered(mime: Seq<char>, data: Seq<char>) -> Result<Seq<char>, Seq<char>> {
    match kind_of(mime) {
        Some(ContentKind::Plain) => Ok(html_escaped(data)),
        Some(ContentKind::Markdown) => Ok(markdown_html(data, true, true, true)),
        None => Err(mime),
    }
}

/// The rendered block, or a visible note of why it could not be rendered.
pub open spec fn text_of(mime: Seq<char>, data: Seq<char>) -> Seq<char> {
    match rendered(mime, data) {
        Ok(t) => t,
        Err(m) => "* * * Could not render: "@ + unsupported_message(m) + " * * *"@,
    }
}

/// Whether two texts are equal, character by character.
pub fn same_text(a: &str, b: &str) -> (r: bool)
    ensures
        r == (a@ == b@),
{
    let n = a.unicode_len();
    if n != b.unicode_len() {
        return false;
    }
    let mut i: usize = 0;
    while i < n
        invariant
            n == a@.len(),
            n == b@.len(),
            i <= n,
            a@.subrange(0, i as int) == b@.subrange(0, i as int),
        decreases n - i,
    {
        if a.get_char(i) != b.get_char(i) {
            assert(a@[i as int] != b@[i as int]);
            return false;
        }
        assert(a@.subrange(0, i + 1) =~= a@.subrange(0, i as int).push(a@[i as int]));
        assert(b@.subrange(0, i + 1) =~= b@.subrange(0, i as int).push(b@[i as int]));
        i = i + 1;
    }
    assert(a@ =~= a@.subrange(0, n as int));
    assert(b@ =~= b@.subrange(0, n as int));
    true
}

/// The kind that a mime name stands for, if it is one that can be rendered.
pub fn content_kind(mime: &str) -> (r: Option<ContentKind>)
    ensures
        r == kind_of(mime@),
{
    if same_text(mime, "text/plain") {
        Some(ContentKind::Plain)
    } else if same_text(mime, "text/markdown") {
        Some(ContentKind::Markdown)
    } else {
        None
    }
}

impl Content {
    /// Renders the block by its kind: plain text is HTML-escaped, Markdown
    /// becomes HTML; any other kind fails with `UnsupportedContentType`.
    pub fn render(&self) -> (r: Result<String, Error>)
        ensures
            r.is_ok() == rendered(self.mime@, self.data@).is_ok(),
            r matches Ok(t) ==> rendered(self.mime@, self.data@) == Ok::<Seq<char>, Seq<char>>(
                t@,
            ),
            r matches Err(Error::UnsupportedContentType(m)) ==> m@ == self.mime@,
    {
        match content_kind(self.mime.as_str()) {
            Some(ContentKind::Plain) => Ok(escape_html(self.data.as_str())),
            Some(ContentKind::Markdown) => Ok(markdown_to_html(self.data.as_str(), true, true, true)),
            None => Err(Error::UnsupportedContentType(self.mime.clone())),
        }
    }

    /// The rendered block; where it cannot be rendered, a placeholder that
    /// holds the error's message.
    pub fn text(&self) -> (r: String)
        ensures
            r@ == text_of(self.mime@, self.data@),
    {
        match self.render() {
            Ok(t) => t,
            Err(e) => {
                let mut s = String::from_str("* * * Could not render: ");
                s.append(e.message().as_str());
                s.append(" * * *");
                s
            },
        }
    }
}

/// A link as the contracts see it.
pub struct LinkView {
    pub title: Option<Seq<char>>,
    pub url: Seq<char>,
}

pub open spec fn opt_view(o: Option<String>) -> Option<Seq<char>> {
    match o {
        Some(s) => Some(s@),
        None => None,
    }
}

impl View for Link {
    type V = LinkView;

    open spec fn view(&self) -> LinkView {
        LinkView { title: opt_view(self.title), url: self.url@ }
    }
}

pub open spec fn link_views(v: Seq<Link>) -> Seq<LinkView> {
    v.map_values(|l: Link| l@)
}

/// The text a route's anchor is made from: its title, else its method and
/// resource.
pub open spec fn anchor_of(r: Route) -> Seq<char> {
    match r.title {
        Some(t) => t@,
        None => r.method@ + seq![' '] + r.resource@,
    }
}

/// The link to a route: its title, and the fragment of its anchor's slug.
pub open spec fn link_of(r: Route) -> LinkView {
    LinkView { title: opt_view(r.title), url: seq!['#'] + slug_of(anchor_of(r)) }
}

/// How often `key` stands among `ks`.
pub open spec fn occurrences(key: Seq<char>, ks: Seq<String>) -> nat
    decreases ks.len(),
{
    if ks.len() == 0 {
        0
    } else {
        occurrences(key, ks.drop_last()) + if ks.last()@ == key {
            1nat
        } else {
            0nat
        }
    }
}

/// The links that one route gives the section `key`: one for each time it names it.
pub open spec fn route_links(key: Seq<char>, r: Route) -> Seq<LinkView> {
    match r.sections {
        Some(ks) => Seq::new(occurrences(key, ks@), |i: int| link_of(r)),
        None => Seq::empty(),
    }
}

/// The links of the section `key`, in the order of the routes.
pub open spec fn links_for(key: Seq<char>, routes: Seq<Route>) -> Seq<LinkView>
    decreases routes.len(),
{
    if routes.len() == 0 {
        Seq::empty()
    } else {
        links_for(key, routes.drop_last()) + route_links(key, routes.last())
    }
}

/// `r` is the section `s` with its links to `routes`: absent where no route
/// names it.
pub open spec fn section_resolved(s: Section, r: Section, routes: Seq<Route>) -> bool {
    let ls = links_for(s.key@, routes);
    &&& r.key == s.key
    &&& r.title == s.title
    &&& r.detail == s.detail
    &&& if ls.len() == 0 {
        r.routes == None::<Vec<Link>>
    } else {
        match r.routes {
            Some(v) => link_views(v@) == ls,
            None => false,
        }
    }
}

/// `r` is the table `t` with each declared section, in its declared place,
/// resolved against `routes`.
pub open spec fn toc_resolved(t: TOC, r: TOC, routes: Seq<Route>) -> bool {
    &&& r.detail == t.detail
    &&& match t.sections {
        None => r.sections == None::<Vec<Section>>,
        Some(ss) => match r.sections {
            Some(rs) => rs@.len() == ss@.len() && forall|i: int|
                0 <= i < ss@.len() ==> section_resolved(ss@[i], #[trigger] rs@[i], routes),
            None => false,
        },
    }
}

/// Resolving one table against one list of routes is deterministic: any two
/// results hold the same sections, in the same order, with the same links.
pub proof fn lemma_resolution_deterministic(t: TOC, routes: Seq<Route>, r1: TOC, r2: TOC)
    requires
        toc_resolved(t, r1, routes),
        toc_resolved(t, r2, routes),
    ensures
        r1.detail == r2.detail,
        r1.sections.is_some() == r2.sections.is_some(),
        r1.sections.is_some() ==> {
            let s1 = r1.sections.unwrap()@;
            let s2 = r2.sections.unwrap()@;
            &&& s1.len() == s2.len()
            &&& forall|i: int|
                0 <= i < s1.len() ==> {
                    &&& (#[trigger] s1[i]).key == s2[i].key
                    &&& s1[i].title == s2[i].title
                    &&& s1[i].detail == s2[i].detail
                    &&& s1[i].routes.is_some() == s2[i].routes.is_some()
                    &&& s1[i].routes.is_some() ==> link_views(s1[i].routes.unwrap()@)
                        == link_views(s2[i].routes.unwrap()@)
                }
        },
{
    if let Some(ss) = t.sections {
        let s1 = r1.sections.unwrap()@;
        let s2 = r2.sections.unwrap()@;
        assert forall|i: int| 0 <= i < s1.len() implies {
            &&& (#[trigger] s1[i]).key == s2[i].key
            &&& s1[i].title == s2[i].title
            &&& s1[i].detail == s2[i].detail
            &&& s1[i].routes.is_some() == s2[i].routes.is_some()
            &&& s1[i].routes.is_some() ==> link_views(s1[i].routes.unwrap()@) == link_views(
                s2[i].routes.unwrap()@,
            )
        } by {
            assert(section_resolved(ss@[i], s1[i], routes));
            assert(section_resolved(ss@[i], s2[i], routes));
        }
    }
}

fn copy_text(o: &Option<String>) -> (r: Option<String>)
    ensures
        r == *o,
{
    match o {
        Some(s) => Some(s.clone()),
        None => None,
    }
}

impl Content {
    /// A copy of the block.
    pub fn copy(&self) -> (r: Content)
        ensures
            r == *self,
    {
        Content { mime: self.mime.clone(), data: self.data.clone() }
    }
}

fn copy_content(o: &Option<Content>) -> (r: Option<Content>)
    ensures
        r == *o,
{
    match o {
        Some(c) => Some(c.copy()),
        None => None,
    }
}

impl Route {
    /// The text of the route's anchor: its title, else `"{method} {resource}"`.
    pub fn anchor(&self) -> (r: String)
        ensures
            r@ == anchor_of(*self),
    {
        match &self.title {
            Some(t) => t.clone(),
            None => {
                let mut s = self.method.clone();
                push_char(&mut s, ' ');
                s.append(self.resource.as_str());
                s
            },
        }
    }

    /// The identifier of the route's anchor.
    pub fn slug(&self) -> (r: String)
        ensures
            r@ == slug_of(anchor_of(*self)),
    {
        let a = self.anchor();
        slugify(a.as_str())
    }

    /// The link to this route from a table of contents.
    pub fn link(&self) -> (r: Link)
        ensures
            r@ == link_of(*self),
    {
        let mut url = String::new();
        push_char(&mut url, '#');
        let s = self.slug();
        url.append(s.as_str());
        Link { title: copy_text(&self.title), url }
    }
}

/// The links of the section `key`: for each route in order, one link for
/// each time the route names the section.
pub fn section_links(key: &String, routes: &Vec<Route>) -> (r: Vec<Link>)
    ensures
        link_views(r@) == links_for(key@, routes@),
{
    let mut links: Vec<Link> = Vec::new();
    let mut j: usize = 0;
    assert(routes@.subrange(0, 0) =~= Seq::<Route>::empty());
    while j < routes.len()
        invariant
            j <= routes.len(),
            link_views(links@) == links_for(key@, routes@.subrange(0, j as int)),
        decreases routes.len() - j,
    {
        let route = &routes[j];
        let ghost base = links_for(key@, routes@.subrange(0, j as int));
        assert(routes@.subrange(0, j + 1).drop_last() =~= routes@.subrange(0, j as int));
        match &route.sections {
            Some(ks) => {
                let mut m: usize = 0;
                assert(ks@.subrange(0, 0) =~= Seq::<String>::empty());
                assert(link_views(links@) =~= base + Seq::new(
                    occurrences(key@, ks@.subrange(0, 0)),
                    |i: int| link_of(*route),
                ));
                while m < ks.len()
                    invariant
                        m <= ks.len(),
                        link_views(links@) =~= base + Seq::new(
                            occurrences(key@, ks@.subrange(0, m as int)),
                            |i: int| link_of(*route),
                        ),
                    decreases ks.len() - m,
                {
                    assert(ks@.subrange(0, m + 1).drop_last() =~= ks@.subrange(0, m as int));
                    if ks[m] == *key {
                        let l = route.link();
                        let ghost old_links = links@;
                        links.push(l);
                        assert(link_views(links@) =~= link_views(old_links).push(l@));
                    }
                    m = m + 1;
                }
                assert(ks@.subrange(0, ks.len() as int) =~= ks@);
            },
            None => {
                assert(link_views(links@) =~= base + route_links(key@, *route));
            },
        }
        j = j + 1;
    }
    assert(routes@.subrange(0, routes.len() as int) =~= routes@);
    links
}

impl Section {
    /// The section with the given links.
    fn with_routes(&self, routes: Vec<Link>) -> (r: Section)
        ensures
            r.key == self.key,
            r.title == self.title,
            r.detail == self.detail,
            r.routes == Some(routes),
    {
        Section {
            key: self.key.clone(),
            title: self.title.clone(),
            detail: copy_content(&self.detail),
            routes: Some(routes),
        }
    }
}

impl TOC {
    /// Resolves the table against `routes`: each declared section, in its
    /// declared order, gets the links to the routes that name it, in the
    /// order of the routes. Keys that no section declares are left out.
    pub fn with_routes(&self, routes: &Vec<Route>) -> (r: TOC)
        ensures
            toc_resolved(*self, r, routes@),
    {
        let before = match &self.sections {
            Some(sections) => sections,
            None => {
                return TOC { detail: copy_content(&self.detail), sections: None };
            },
        };
        let mut after: Vec<Section> = Vec::new();
        let mut i: usize = 0;
        while i < before.len()
            invariant
                i <= before.len(),
                after@.len() == i,
                forall|k: int|
                    0 <= k < i ==> section_resolved(before@[k], #[trigger] after@[k], routes@),
            decreases before.len() - i,
        {
            let section = &before[i];
            let links = section_links(&section.key, routes);
            if links.len() > 0 {
                after.push(section.with_routes(links));
            } else {
                after.push(
                    Section {
                        key: section.key.clone(),
                        title: section.title.clone(),
                        detail: copy_content(&section.detail),
                        routes: None,
                    },
                );
            }
            i = i + 1;
        }
        TOC { detail: copy_content(&self.detail), sections: Some(after) }
    }
}

impl Suite {
    /// Resolves the table of contents, if there is one, against the routes.
    pub fn normalize(&mut self)
        ensures
            final(self).title == old(self).title,
            final(self).detail == old(self).detail,
            final(self).routes == old(self).routes,
            final(self).meta == old(self).meta,
            match old(self).toc {
                Some(t) => match final(self).toc {
                    Some(r) => toc_resolved(t, r, old(self).routes@),
                    None => false,
                },
                None => final(self).toc == None::<TOC>,
            },
    {
        if let Some(toc) = &self.toc {
            self.toc = Some(toc.with_routes(&self.routes));
        }
    }

    /// Prepares the document for rendering: attaches `meta`, replacing any
    /// that was there, and resolves the table of contents.
    pub fn process(&mut self, meta: Meta)
        ensures
            final(self).meta == Some(meta),
            final(self).title == old(self).title,
            final(self).detail == old(self).detail,
            final(self).routes == old(self).routes,
            match old(self).toc {
                Some(t) => match final(self).toc {
                    Some(r) => toc_resolved(t, r, old(self).routes@),
                    None => false,
                },
                None => final(self).toc == None::<TOC>,
            },
    {
        self.meta = Some(meta);
        self.normalize();
    }
}

impl Index {
    /// Attaches `meta` to the index, replacing any that was there.
    pub fn process(&mut self, meta: Meta)
        ensures
            final(self).meta == Some(meta),
            final(self).title == old(self).title,
            final(self).detail == old(self).detail,
            final(self).entries == old(self).entries,
    {
        self.meta = Some(meta);
    }
}

impl Entry {
    /// The index entry of a generated document: titled `title`, and linked by
    /// the path that leads from `base` to `output`, or by `output` itself
    /// where there is no base.
    pub fn for_document(title: String, output: String, base: Option<String>) -> (r: Entry)
        ensures
            r.link.title == Some(title),
            r.link.url@ == match base {
                Some(b) => relative_path_of(b@, output@),
                None => output@,
            },
    {
        let url = match &base {
            Some(b) => relative_path(b.as_str(), output.as_str()),
            None => output,
        };
        Entry { link: Link { title: Some(title), url } }
    }
}

} // verus!
