//! The rendering engine: resolves topic slugs and post identifiers to
//! content paths under the web root, orders posts newest-first, converts
//! markdown to HTML, and places the result into the page template.

use vstd::prelude::*;

use crate::common::{
    glob_clean, glob_entry, has_traversal, has_traversal_str, path_matches, seq_views, slug_of,
    slugify, sorted_desc, stem_ok,
};
use crate::config::AppConfig;
use crate::errors::RenderError;
use crate::text::{starts_with_seq, str_eq_str};

mod default;

verus! {

/// Declares tera's compiled template set for use in fields and signatures.
#[verifier::external_type_specification]
#[verifier::external_body]
pub struct ExTera(tera::Tera);

/// Declares tera's render context, which carries the site metadata and the
/// page content into a render call.
#[verifier::external_type_specification]
#[verifier::external_body]
pub struct ExTeraContext(tera::Context);

/// The HTML rendering of CommonMark text: a function of the text alone.
pub uninterp spec fn markdown_html_of(s: Seq<char>) -> Seq<char>;

/// Relies on pulldown_cmark's Parser and push_html: the HTML rendering of
/// the given markdown text, computed from the text alone.
#[verifier::external_body]
pub(crate) fn markdown_to_html(s: &str) -> (r: String)
    ensures
        r@ == markdown_html_of(s@),
{
    let parser = pulldown_cmark::Parser::new(s);
    let mut out = String::new();
    pulldown_cmark::html::push_html(&mut out, parser);
    out
}

/// The HTML renderings of a sequence of markdown sources, in order.
pub open spec fn htmls_of(sources: Seq<Seq<char>>) -> Seq<Seq<char>> {
    Seq::new(sources.len(), |i: int| markdown_html_of(sources[i]))
}

/// Converts each markdown source to its HTML fragment, keeping the order.
pub fn posts_html(sources: &Vec<String>) -> (r: Vec<String>)
    ensures
        seq_views(r@) == htmls_of(seq_views(sources@)),
{
    let mut out: Vec<String> = Vec::new();
    let mut i: usize = 0;
    while i < sources.len()
        invariant
            i <= sources@.len(),
            out@.len() == i,
            forall|k: int| 0 <= k < i ==> out@[k]@ == markdown_html_of(sources@[k]@),
        decreases sources@.len() - i,
    {
        let html = markdown_to_html(sources[i].as_str());
        out.push(html);
        i = i + 1;
    }
    proof {
        assert(seq_views(out@) =~= htmls_of(seq_views(sources@)));
    }
    out
}

/// The document the built-in template produces for a gallery context:
/// a function of the site metadata and the image list alone.
pub uninterp spec fn builtin_gallery_page(
    site_name: Seq<char>,
    site_author: Seq<char>,
    site_url: Seq<char>,
    topics: Seq<Seq<char>>,
    images: Seq<Seq<char>>,
) -> Seq<char>;

/// The document the built-in template produces for a single post context:
/// a function of the site metadata and the post fragment alone.
pub uninterp spec fn builtin_post_page(
    site_name: Seq<char>,
    site_author: Seq<char>,
    site_url: Seq<char>,
    topics: Seq<Seq<char>>,
    post: Seq<char>,
) -> Seq<char>;

/// The document the built-in template produces for a post-list context:
/// a function of the site metadata and the ordered fragments alone.
pub uninterp spec fn builtin_posts_page(
    site_name: Seq<char>,
    site_author: Seq<char>,
    site_url: Seq<char>,
    topics: Seq<Seq<char>>,
    posts: Seq<Seq<char>>,
) -> Seq<char>;

/// Relies on tera's Context: a fresh context holding the site's name,
/// author, url and topics as an object under `site`.
#[verifier::external_body]
fn site_context(site: &crate::config::Site) -> (c: tera::Context)
{
    let mut map = tera::Map::new();
    map.insert("name".to_string(), tera::Value::String(site.name.clone()));
    map.insert("author".to_string(), tera::Value::String(site.author.clone()));
    map.insert("url".to_string(), tera::Value::String(site.url.clone()));
    let topics: Vec<tera::Value> =
        site.topics.iter().map(|t| tera::Value::String(t.clone())).collect();
    map.insert("topics".to_string(), tera::Value::Array(topics));
    let mut ctx = tera::Context::new();
    ctx.insert("site", &tera::Value::Object(map));
    ctx
}

/// Relies on tera's render of the built-in template: the fixed template
/// parses, it names no source of time or randomness, and every value in
/// the context is a string, an array of strings, or an object of those, so
/// the render cannot fail and the result is the fixed function of the site
/// metadata and the image list that `builtin_gallery_page` names.
#[verifier::external_body]
fn render_builtin_gallery(site: &crate::config::Site, images: &Vec<String>) -> (r: Result<
    String,
    (),
>)
    ensures
        r is Ok,
        r matches Ok(page) ==> page@ == builtin_gallery_page(
            site.name@,
            site.author@,
            site.url@,
            seq_views(site.topics@),
            seq_views(images@),
        ),
{
    let mut ctx = site_context(site);
    ctx.insert("gallery", images);
    let mut tera = tera::Tera::default();
    match tera.add_raw_template("default.tmpl", default::TEMPLATE) {
        Ok(_) => tera.render("default.tmpl", &ctx).map_err(|_| ()),
        Err(_) => Err(()),
    }
}

/// Relies on tera's render of the built-in template: the fixed template
/// parses, it names no source of time or randomness, and every value in
/// the context is a string, an array of strings, or an object of those, so
/// the render cannot fail and the result is the fixed function of the site
/// metadata and the post fragment that `builtin_post_page` names.
#[verifier::external_body]
fn render_builtin_post(site: &crate::config::Site, post: &String) -> (r: Result<
    String,
    (),
>)
    ensures
        r is Ok,
        r matches Ok(page) ==> page@ == builtin_post_page(
            site.name@,
            site.author@,
            site.url@,
            seq_views(site.topics@),
            post@,
        ),
{
    let mut ctx = site_context(site);
    ctx.insert("post", post);
    let mut tera = tera::Tera::default();
    match tera.add_raw_template("default.tmpl", default::TEMPLATE) {
        Ok(_) => tera.render("default.tmpl", &ctx).map_err(|_| ()),
        Err(_) => Err(()),
    }
}

/// Relies on tera's render of the built-in template: the fixed template
/// parses, it names no source of time or randomness, and every value in
/// the context is a string, an array of strings, or an object of those, so
/// the render cannot fail and the result is the fixed function of the site
/// metadata and the fragment list that `builtin_posts_page` names.
#[verifier::external_body]
fn render_builtin_posts(site: &crate::config::Site, posts: &Vec<String>) -> (r: Result<
    String,
    (),
>)
    ensures
        r is Ok,
        r matches Ok(page) ==> page@ == builtin_posts_page(
            site.name@,
            site.author@,
            site.url@,
            seq_views(site.topics@),
            seq_views(posts@),
        ),
{
    let mut ctx = site_context(site);
    ctx.insert("posts", posts);
    let mut tera = tera::Tera::default();
    match tera.add_raw_template("default.tmpl", default::TEMPLATE) {
        Ok(_) => tera.render("default.tmpl", &ctx).map_err(|_| ()),
        Err(_) => Err(()),
    }
}

/// Relies on tera's Tera::default and add_template_file: compiles the named
/// template from the given file, reading it from disk; fails when the file
/// is missing, unreadable, or does not parse.
#[verifier::external_body]
fn compile_template_file(path: &String, name: &str) -> (r: Result<tera::Tera, ()>)
{
    let mut tera = tera::Tera::default();
    match tera.add_template_file(path.as_str(), Some(name)) {
        Ok(_) => Ok(tera),
        Err(_) => Err(()),
    }
}

/// Relies on tera's render with a gallery context. A custom template may
/// consult time or randomness, so nothing relates one result to another.
#[verifier::external_body]
fn render_custom_gallery(
    t: &tera::Tera,
    name: &str,
    site: &crate::config::Site,
    images: &Vec<String>,
) -> (r: Result<String, ()>)
{
    let mut ctx = site_context(site);
    ctx.insert("gallery", images);
    t.render(name, &ctx).map_err(|_| ())
}

/// Relies on tera's render with a single-post context. A custom template may
/// consult time or randomness, so nothing relates one result to another.
#[verifier::external_body]
fn render_custom_post(t: &tera::Tera, name: &str, site: &crate::config::Site, post: &String) -> (r:
    Result<String, ()>)
{
    let mut ctx = site_context(site);
    ctx.insert("post", post);
    t.render(name, &ctx).map_err(|_| ())
}

/// Relies on tera's render with a post-list context. A custom template may
/// consult time or randomness, so nothing relates one result to another.
#[verifier::external_body]
fn render_custom_posts(
    t: &tera::Tera,
    name: &str,
    site: &crate::config::Site,
    posts: &Vec<String>,
) -> (r: Result<String, ()>)
{
    let mut ctx = site_context(site);
    ctx.insert("posts", posts);
    t.render(name, &ctx).map_err(|_| ())
}

/// The compiled template set, built once when the engine is constructed.
/// The built-in template needs no state; a custom one is compiled from its
/// file at startup and held for the life of the process.
pub enum TemplateInstance {
    BuiltIn,
    Custom(tera::Tera),
}

/// Whether `p` is a web-relative gallery image path: `gallery/ext/<stem>.jpg`
/// with a single-component stem.
pub open spec fn gallery_rel_entry(p: Seq<char>) -> bool {
    exists|stem: Seq<char>| stem_ok(stem) && p == "gallery/ext/"@ + stem + ".jpg"@
}

/// How a web-relative gallery result `v` stands for an enumerated listing:
/// the listing is newest-first without repetition, every entry of it is a
/// `<webroot>/gallery/ext/*.jpg` match, and `v` is, entry for entry, the
/// listing with the web root prefix removed — same count, same order.
pub open spec fn gallery_listing_for(
    webroot: Seq<char>,
    listing: Seq<Seq<char>>,
    v: Seq<Seq<char>>,
) -> bool {
    &&& sorted_desc(listing)
    &&& listing.no_duplicates()
    &&& v.len() == listing.len()
    &&& forall|i: int| 0 <= i < listing.len() ==> #[trigger] listing[i] == (webroot + "/"@) + v[i]
    &&& forall|i: int|
        0 <= i < listing.len() ==> #[trigger] glob_entry(
            listing[i],
            webroot + "/gallery/ext"@,
            ".jpg"@,
        )
}

/// Rendering is deterministic under the built-in template: the document
/// `render_topic` may hand back for a non-gallery topic is a function of
/// the site configuration and the post sources alone, so two consecutive
/// renders over unchanged content are byte-identical. (A custom template
/// may consult time or randomness, so nothing of the kind is claimed for
/// it, and a gallery render re-reads the filesystem in between.)
pub proof fn lemma_render_topic_idempotent(
    e: Engine,
    topic_slug: Seq<char>,
    posts_md: Seq<Seq<char>>,
    page1: Seq<char>,
    page2: Seq<char>,
)
    requires
        e.is_builtin(),
        topic_slug != "gallery"@,
        page1 == builtin_posts_page(
            e.app.site.name@,
            e.app.site.author@,
            e.app.site.url@,
            seq_views(e.app.site.topics@),
            htmls_of(posts_md),
        ),
        page2 == builtin_posts_page(
            e.app.site.name@,
            e.app.site.author@,
            e.app.site.url@,
            seq_views(e.app.site.topics@),
            htmls_of(posts_md),
        ),
    ensures
        page1 == page2,
{
}

/// The slugs of the configured topics, in order.
pub open spec fn slugs_of(topics: Seq<Seq<char>>) -> Seq<Seq<char>> {
    Seq::new(topics.len(), |i: int| slug_of(topics[i]))
}

/// The rendering engine. Holds the configuration, the template instance
/// compiled at construction, and the set of valid topic slugs; all of it
/// immutable for the life of the process, so concurrent renders share it
/// freely.
pub struct Engine {
    pub app: AppConfig,
    pub instance: TemplateInstance,
    pub topic_slugs: Vec<String>,
}

impl Engine {
    /// Whether the engine renders with the built-in template.
    pub open spec fn is_builtin(self) -> bool {
        self.instance is BuiltIn
    }

    /// Well-formedness: the slug set is derived from the configured topics,
    /// with the reserved virtual topic `gallery` always valid, and the
    /// template instance matches the configured template name.
    pub open spec fn wf(self) -> bool {
        seq_views(self.topic_slugs@) == slugs_of(seq_views(self.app.site.topics@)).push(
            "gallery"@,
        ) && (self.is_builtin() <==> self.app.site.template@ == "default.tmpl"@)
    }

    /// Whether `s` is a valid topic slug for this engine: the slug of a
    /// configured topic, or the reserved virtual topic `gallery`.
    pub open spec fn is_valid_slug(self, s: Seq<char>) -> bool {
        s == "gallery"@ || exists|k: int|
            0 <= k < self.app.site.topics@.len() && s == slug_of(self.app.site.topics@[k]@)
    }

    /// Builds the engine: derives the topic slugs and compiles the template
    /// exactly once. With the reserved name `default.tmpl` the built-in
    /// template is used and construction cannot fail; any other name is
    /// loaded from the template directory, and a missing or malformed file
    /// is fatal: no engine is handed back, so no render can ever run.
    pub fn new(app: AppConfig) -> (r: Result<Engine, RenderError>)
        ensures
            r matches Ok(e) ==> e.wf() && e.app == app,
            r matches Ok(e) ==> (e.is_builtin() <==> app.site.template@ == "default.tmpl"@),
            r matches Err(err) ==> err == RenderError::StartupFailure,
            app.site.template@ == "default.tmpl"@ ==> r is Ok,
    {
        let mut topic_slugs: Vec<String> = Vec::new();
        let mut i: usize = 0;
        while i < app.site.topics.len()
            invariant
                i <= app.site.topics@.len(),
                topic_slugs@.len() == i,
                forall|k: int|
                    0 <= k < i ==> topic_slugs@[k]@ == slug_of(app.site.topics@[k]@),
            decreases app.site.topics@.len() - i,
        {
            let slug = slugify(app.site.topics[i].as_str());
            topic_slugs.push(slug);
            i = i + 1;
        }
        topic_slugs.push(String::from_str("gallery"));
        proof {
            assert(seq_views(topic_slugs@) =~= slugs_of(seq_views(app.site.topics@)).push(
                "gallery"@,
            ));
        }
        let instance = if str_eq_str(app.site.template.as_str(), "default.tmpl") {
            TemplateInstance::BuiltIn
        } else {
            let path = app.docpaths.templates.clone().concat("/").concat(
                app.site.template.as_str(),
            );
            match compile_template_file(&path, app.site.template.as_str()) {
                Ok(tera) => TemplateInstance::Custom(tera),
                Err(_) => {
                    return Err(RenderError::StartupFailure);
                },
            }
        };
        Ok(Engine { app, instance, topic_slugs })
    }

    /// Decides whether `slug` names a known topic or the reserved gallery.
    /// The serving boundary asks this before any render, and answers
    /// unknown slugs with its own not-found reply.
    pub fn is_topic(&self, slug: &str) -> (r: bool)
        requires
            self.wf(),
        ensures
            r == self.is_valid_slug(slug@),
    {
        let ghost views = seq_views(self.topic_slugs@);
        let ghost topics = self.app.site.topics@;
        let mut i: usize = 0;
        while i < self.topic_slugs.len()
            invariant
                self.wf(),
                views == seq_views(self.topic_slugs@),
                topics == self.app.site.topics@,
                i <= self.topic_slugs@.len(),
                forall|k: int| 0 <= k < i ==> self.topic_slugs@[k]@ != slug@,
            decreases self.topic_slugs@.len() - i,
        {
            if str_eq_str(self.topic_slugs[i].as_str(), slug) {
                proof {
                    assert(views[i as int] == slug@);
                    if i < topics.len() {
                        assert(views[i as int] == slug_of(topics[i as int]@));
                    } else {
                        let sl = slugs_of(seq_views(topics));
                        assert(sl.len() == topics.len());
                        assert(views == sl.push("gallery"@));
                        assert(sl.push("gallery"@).len() == sl.len() + 1);
                        assert(i as int == sl.len());
                        assert(sl.push("gallery"@)[sl.len() as int] == "gallery"@);
                    }
                }
                return true;
            }
            i = i + 1;
        }
        proof {
            assert(forall|k: int| 0 <= k < views.len() ==> views[k] != slug@);
            assert(views[views.len() - 1] == "gallery"@);
            assert forall|k: int| 0 <= k < topics.len() implies slug@ != slug_of(
                topics[k]@,
            ) by {
                assert(views[k] == slug_of(topics[k]@));
            }
        }
        false
    }

    /// The topic's post files, newest first: the matches of
    /// `<webroot>/<slug>/posts/*.md` in reverse lexical order, none
    /// repeated. The reserved `gallery` slug addresses image assets, not
    /// posts, so it yields an empty list — also when a topic named Gallery
    /// is configured, whose posts directory the convention never creates.
    pub fn topic_sources(&self, slug: &str) -> (r: Result<Vec<String>, RenderError>)
        ensures
            slug@ == "gallery"@ ==> (r matches Ok(v) && v@.len() == 0),
            slug@ != "gallery"@ ==> (r is Ok <==> glob_clean(
                self.app.docpaths.webroot@ + "/"@ + slug@ + "/posts"@,
                ".md"@,
            )),
            r matches Ok(v) ==> sorted_desc(seq_views(v@)),
            r matches Ok(v) ==> seq_views(v@).no_duplicates(),
            slug@ != "gallery"@ ==> (r matches Ok(v) ==> forall|i: int|
                0 <= i < v@.len() ==> glob_entry(
                    v@[i]@,
                    self.app.docpaths.webroot@ + "/"@ + slug@ + "/posts"@,
                    ".md"@,
                )),
            r matches Err(e) ==> e is ContentUnavailable,
    {
        if str_eq_str(slug, "gallery") {
            let empty: Vec<String> = Vec::new();
            return Ok(empty);
        }
        let dir = self.app.docpaths.webroot.clone().concat("/").concat(slug).concat("/posts");
        path_matches(dir.as_str(), ".md")
    }

    /// The gallery's images, web-relative and newest first: the listing of
    /// `<webroot>/gallery/ext/*.jpg` in reverse lexical order, each entry
    /// stripped of the web root prefix. The result stands entry for entry,
    /// in order and without repetition, for the listing that was read.
    pub fn gallery_sources(&self) -> (r: Result<Vec<String>, RenderError>)
        ensures
            r is Ok <==> glob_clean(self.app.docpaths.webroot@ + "/gallery/ext"@, ".jpg"@),
            r matches Ok(v) ==> sorted_desc(seq_views(v@)),
            r matches Ok(v) ==> seq_views(v@).no_duplicates(),
            r matches Ok(v) ==> forall|i: int|
                0 <= i < v@.len() ==> #[trigger] gallery_rel_entry(v@[i]@),
            r matches Ok(v) ==> (exists|listing: Seq<Seq<char>>|
                gallery_listing_for(self.app.docpaths.webroot@, listing, seq_views(v@))),
            r matches Err(e) ==> e is ContentUnavailable,
    {
        let dir = self.app.docpaths.webroot.clone().concat("/gallery/ext");
        let found = match path_matches(dir.as_str(), ".jpg") {
            Ok(v) => v,
            Err(e) => {
                return Err(e);
            },
        };
        let wrs = self.app.docpaths.webroot.clone().concat("/");
        let ghost wr = self.app.docpaths.webroot@;
        let ghost fv = seq_views(found@);
        proof {
            reveal_strlit("/gallery/ext");
            reveal_strlit("gallery/ext/");
            reveal_strlit("/");
            assert("/gallery/ext"@ + seq!['/'] =~= "/"@ + "gallery/ext/"@);
            assert(dir@ + seq!['/'] =~= wr + ("/gallery/ext"@ + seq!['/']));
            assert(wr + ("/"@ + "gallery/ext/"@) =~= wrs@ + "gallery/ext/"@);
            assert(dir@ + seq!['/'] == wrs@ + "gallery/ext/"@);
            assert forall|i: int| 0 <= i < found@.len() implies starts_with_seq(
                #[trigger] found@[i]@,
                wrs@,
            ) by {
                let stem = choose|stem: Seq<char>|
                    stem_ok(stem) && found@[i]@ == dir@ + seq!['/'] + stem + ".jpg"@;
                assert(found@[i]@ =~= wrs@ + ("gallery/ext/"@ + stem + ".jpg"@));
                assert(found@[i]@.subrange(0, wrs@.len() as int) =~= wrs@);
            }
        }
        let out = match crate::common::strip_prefix_all(wrs.as_str(), &found) {
            Ok(v) => v,
            Err(e) => {
                proof {
                    assert(false);
                }
                return Err(e);
            },
        };
        proof {
            let ov = seq_views(out@);
            assert forall|i: int| 0 <= i < out@.len() implies #[trigger] gallery_rel_entry(
                out@[i]@,
            ) by {
                assert(ov[i] == out@[i]@);
                let stem = choose|stem: Seq<char>|
                    stem_ok(stem) && found@[i]@ == dir@ + seq!['/'] + stem + ".jpg"@;
                assert(found@[i]@ =~= wrs@ + ("gallery/ext/"@ + stem + ".jpg"@));
                assert(found@[i]@ == wrs@ + ov[i]);
                assert(ov[i] =~= (wrs@ + ov[i]).skip(wrs@.len() as int));
                assert(ov[i] =~= "gallery/ext/"@ + stem + ".jpg"@);
                assert(stem_ok(stem) && ov[i] == "gallery/ext/"@ + stem + ".jpg"@);
            }
            assert forall|a: int, b: int| 0 <= a < b < ov.len() implies crate::text::lex_le(
                ov[b],
                ov[a],
            ) by {
                assert(found@[a]@ == wrs@ + ov[a]);
                assert(found@[b]@ == wrs@ + ov[b]);
                assert(crate::text::lex_le(fv[b], fv[a]));
                crate::text::lemma_lex_le_prefix(wrs@, ov[b], ov[a]);
            }
            assert(ov.no_duplicates()) by {
                assert forall|a: int, b: int|
                    0 <= a < b < ov.len() implies ov[a] != ov[b] by {
                    if ov[a] == ov[b] {
                        assert(found@[a]@ == wrs@ + ov[a]);
                        assert(found@[b]@ == wrs@ + ov[b]);
                        assert(fv[a] == fv[b]);
                        assert(fv.no_duplicates());
                    }
                }
            }
            assert(gallery_listing_for(wr, fv, ov)) by {
                assert(forall|i: int|
                    0 <= i < fv.len() ==> #[trigger] fv[i] == (wr + "/"@) + ov[i]);
                assert(forall|i: int|
                    0 <= i < fv.len() ==> #[trigger] glob_entry(
                        fv[i],
                        wr + "/gallery/ext"@,
                        ".jpg"@,
                    ));
            }
        }
        Ok(out)
    }

    /// Whether `page` is the built-in template's gallery document for an
    /// image list that stands, entry for entry, for some well-formed
    /// enumerated listing: sorted newest-first, no entry repeated, each a
    /// web-relative `gallery/ext/*.jpg` path stripped of this web root.
    pub open spec fn is_gallery_page_of(self, page: Seq<char>) -> bool {
        exists|imgs: Seq<Seq<char>>|
            {
                &&& sorted_desc(imgs)
                &&& imgs.no_duplicates()
                &&& forall|i: int| 0 <= i < imgs.len() ==> #[trigger] gallery_rel_entry(imgs[i])
                &&& exists|listing: Seq<Seq<char>>| gallery_listing_for(
                    self.app.docpaths.webroot@,
                    listing,
                    imgs,
                )
                &&& page == #[trigger] builtin_gallery_page(
                    self.app.site.name@,
                    self.app.site.author@,
                    self.app.site.url@,
                    seq_views(self.app.site.topics@),
                    imgs,
                )
            }
    }

    /// Renders the gallery document from a web-relative image list, as
    /// `gallery_sources` hands it out.
    pub fn render_gallery_from(&self, images: &Vec<String>) -> (r: Result<String, RenderError>)
        ensures
            r matches Err(e) ==> e == RenderError::TemplateFailure,
            self.is_builtin() ==> r is Ok,
            self.is_builtin() ==> (r matches Ok(page) ==> page@ == builtin_gallery_page(
                self.app.site.name@,
                self.app.site.author@,
                self.app.site.url@,
                seq_views(self.app.site.topics@),
                seq_views(images@),
            )),
    {
        let res = match &self.instance {
            TemplateInstance::BuiltIn => render_builtin_gallery(&self.app.site, images),
            TemplateInstance::Custom(t) => render_custom_gallery(
                t,
                self.app.site.template.as_str(),
                &self.app.site,
                images,
            ),
        };
        match res {
            Ok(page) => Ok(page),
            Err(_) => Err(RenderError::TemplateFailure),
        }
    }

    /// Renders the `/:topic` document. For the reserved `gallery` topic the
    /// engine enumerates the image assets itself; for any other slug the
    /// caller hands in the topic's post sources, newest first, exactly as
    /// `topic_sources` listed them, and each is converted to HTML and laid
    /// into the template in that order. With the built-in template the
    /// resulting document is a fixed function of the site and the sources.
    pub fn render_topic(&self, topic_slug: &str, posts_md: &Vec<String>) -> (r: Result<
        String,
        RenderError,
    >)
        ensures
            topic_slug@ != "gallery"@ ==> (r matches Err(e) ==> e
                == RenderError::TemplateFailure),
            topic_slug@ != "gallery"@ && self.is_builtin() ==> r is Ok,
            topic_slug@ != "gallery"@ && self.is_builtin() ==> (r matches Ok(page) ==> page@
                == builtin_posts_page(
                self.app.site.name@,
                self.app.site.author@,
                self.app.site.url@,
                seq_views(self.app.site.topics@),
                htmls_of(seq_views(posts_md@)),
            )),
            topic_slug@ == "gallery"@ ==> (r matches Err(e) ==> (e is TemplateFailure || e
                is ContentUnavailable)),
            topic_slug@ == "gallery"@ && self.is_builtin() ==> (r matches Err(e) ==> e
                is ContentUnavailable),
            topic_slug@ == "gallery"@ && self.is_builtin() ==> (r is Ok <==> glob_clean(
                self.app.docpaths.webroot@ + "/gallery/ext"@,
                ".jpg"@,
            )),
            topic_slug@ == "gallery"@ && self.is_builtin() ==> (r matches Ok(page)
                ==> self.is_gallery_page_of(page@)),
    {
        if str_eq_str(topic_slug, "gallery") {
            let images = match self.gallery_sources() {
                Ok(v) => v,
                Err(e) => {
                    return Err(e);
                },
            };
            let res = self.render_gallery_from(&images);
            proof {
                if self.is_builtin() && res is Ok {
                    let page = res->Ok_0;
                    assert(self.is_gallery_page_of(page@)) by {
                        let imgs = seq_views(images@);
                        assert(sorted_desc(imgs));
                        assert(forall|i: int|
                            0 <= i < imgs.len() ==> #[trigger] gallery_rel_entry(imgs[i]));
                        assert(page@ == builtin_gallery_page(
                            self.app.site.name@,
                            self.app.site.author@,
                            self.app.site.url@,
                            seq_views(self.app.site.topics@),
                            imgs,
                        ));
                    }
                }
            }
            res
        } else {
            let htmls = posts_html(posts_md);
            let res = match &self.instance {
                TemplateInstance::BuiltIn => render_builtin_posts(&self.app.site, &htmls),
                TemplateInstance::Custom(t) => render_custom_posts(
                    t,
                    self.app.site.template.as_str(),
                    &self.app.site,
                    &htmls,
                ),
            };
            match res {
                Ok(page) => Ok(page),
                Err(_) => Err(RenderError::TemplateFailure),
            }
        }
    }

    /// Resolves `/:topic/posts/:post` to its markdown file:
    /// `<webroot>/<slug>/posts/<post>.md`. A post identifier with a `.` or
    /// `..` path component is rejected as Forbidden before any path is
    /// formed, so no filesystem access can ever see it.
    pub fn post_path(&self, topic_slug: &str, post: &str) -> (r: Result<String, RenderError>)
        ensures
            r is Err <==> has_traversal(post@),
            r matches Err(e) ==> e == RenderError::Forbidden,
            r matches Ok(p) ==> p@ == self.app.docpaths.webroot@ + "/"@ + topic_slug@
                + "/posts/"@ + post@ + ".md"@,
    {
        if has_traversal_str(post) {
            return Err(RenderError::Forbidden);
        }
        Ok(
            self.app.docpaths.webroot.clone().concat("/").concat(topic_slug).concat(
                "/posts/",
            ).concat(post).concat(".md"),
        )
    }

    /// Renders the `/:topic/posts/:post` document from the outcome of
    /// reading the post's file: a missing or unreadable file surfaces as
    /// `ContentUnavailable` naming the path, and with the built-in template
    /// a successful render is a fixed function of the site and the text.
    pub fn render_post(&self, path: &str, content: &Option<String>) -> (r: Result<
        String,
        RenderError,
    >)
        ensures
            content is None ==> (r matches Err(e) && e matches RenderError::ContentUnavailable(p)
                && p@ == path@),
            content is Some ==> (r matches Err(e) ==> e == RenderError::TemplateFailure),
            self.is_builtin() && content is Some ==> r is Ok,
            self.is_builtin() ==> (content matches Some(md) ==> (r matches Ok(page) ==> page@
                == builtin_post_page(
                self.app.site.name@,
                self.app.site.author@,
                self.app.site.url@,
                seq_views(self.app.site.topics@),
                markdown_html_of(md@),
            ))),
    {
        let md = match content {
            Some(c) => c,
            None => {
                return Err(RenderError::ContentUnavailable(path.to_owned()));
            },
        };
        let html = markdown_to_html(md.as_str());
        let res = match &self.instance {
            TemplateInstance::BuiltIn => render_builtin_post(&self.app.site, &html),
            TemplateInstance::Custom(t) => render_custom_post(
                t,
                self.app.site.template.as_str(),
                &self.app.site,
                &html,
            ),
        };
        match res {
            Ok(page) => Ok(page),
            Err(_) => Err(RenderError::TemplateFailure),
        }
    }

    /// Resolves `/static/*fname` to `<webroot>/static/<fname>`. A file name
    /// with a `.` or `..` path component is rejected as Forbidden before any
    /// path is formed.
    pub fn static_asset_path(&self, fname: &str) -> (r: Result<String, RenderError>)
        ensures
            r is Err <==> has_traversal(fname@),
            r matches Err(e) ==> e == RenderError::Forbidden,
            r matches Ok(p) ==> p@ == self.app.docpaths.webroot@ + "/static/"@ + fname@,
    {
        if has_traversal_str(fname) {
            return Err(RenderError::Forbidden);
        }
        Ok(self.app.docpaths.webroot.clone().concat("/static/").concat(fname))
    }

    /// Resolves `/:topic/ext/*fname` to `<webroot>/<slug>/ext/<fname>`. A
    /// file name with a `.` or `..` path component is rejected as Forbidden
    /// before any path is formed.
    pub fn topic_asset_path(&self, topic_slug: &str, fname: &str) -> (r: Result<
        String,
        RenderError,
    >)
        ensures
            r is Err <==> has_traversal(fname@),
            r matches Err(e) ==> e == RenderError::Forbidden,
            r matches Ok(p) ==> p@ == self.app.docpaths.webroot@ + "/"@ + topic_slug@ + "/ext/"@
                + fname@,
    {
        if has_traversal_str(fname) {
            return Err(RenderError::Forbidden);
        }
        Ok(self.app.docpaths.webroot.clone().concat("/").concat(topic_slug).concat("/ext/").concat(fname))
    }
}


} // verus!
