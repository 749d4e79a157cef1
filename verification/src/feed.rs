//! Feed assembly: turns the posts of the main timeline and of every
//! configured topic into one RSS channel. Each post contributes a link
//! computed from its path, a publication date from its file's modification
//! time, and its rendered HTML body as the description.

use vstd::prelude::*;

use crate::common::{glob_entry, seq_views, slug_of};
use crate::errors::RenderError;
use crate::render::{markdown_html_of, markdown_to_html, Engine};
use crate::text::{
    ends_with_seq, ends_with_str, find_first_char, find_last_char, idx_of_first, idx_of_last,
    starts_with_seq, starts_with_str, substring_copy,
};

verus! {

/// What the serving boundary reads for one post before the feed is built:
/// the file's path as enumerated, its markdown text, and its modification
/// time in seconds since the Unix epoch.
#[derive(Debug, Clone)]
pub struct PostSource {
    pub path: String,
    pub content: String,
    pub mtime_secs: i64,
}

/// One assembled feed entry.
#[derive(Debug, Clone)]
pub struct FeedItem {
    pub link: String,
    pub pub_date: String,
    pub description: String,
}

/// The (link, publication date, description) triples of a list of items.
pub open spec fn item_views(items: Seq<FeedItem>) -> Seq<(Seq<char>, Seq<char>, Seq<char>)> {
    Seq::new(items.len(), |i: int| (items[i].link@, items[i].pub_date@, items[i].description@))
}

/// The XML document of an RSS channel with the given title, link,
/// description and items: a function of these values alone.
pub uninterp spec fn rss_xml_of(
    title: Seq<char>,
    link: Seq<char>,
    description: Seq<char>,
    items: Seq<(Seq<char>, Seq<char>, Seq<char>)>,
) -> Seq<char>;

/// Relies on the rss crate's Channel and Item builders and the channel's
/// deterministic XML serialisation: the document is computed from the
/// title, link, description and items alone.
#[verifier::external_body]
fn channel_xml(title: &str, link: &str, description: &str, items: &Vec<FeedItem>) -> (r: String)
    ensures
        r@ == rss_xml_of(title@, link@, description@, item_views(items@)),
{
    let rss_items: Vec<rss::Item> = items.iter().map(|fi| {
        let mut item = rss::Item::default();
        item.set_link(fi.link.clone());
        item.set_pub_date(fi.pub_date.clone());
        item.set_description(fi.description.clone());
        item
    }).collect();
    let mut channel = rss::Channel::default();
    channel.set_title(title);
    channel.set_link(link);
    channel.set_description(description);
    channel.set_items(rss_items);
    channel.to_string()
}

/// The RFC 2822 form of a UTC timestamp: a function of the timestamp alone.
pub uninterp spec fn rfc2822_of(secs: int) -> Seq<char>;

/// Whether a timestamp can be put in RFC 2822 form: it falls in years 0
/// through 9999, the only years the format's four digits carry.
pub open spec fn rfc2822_representable(secs: int) -> bool {
    -62167219200 <= secs < 253402300800
}

/// Relies on chrono's DateTime::from_timestamp and to_rfc2822: exactly the
/// timestamps of years 0 through 9999 are answered (the formatter refuses
/// any other year, so the bound is checked here first), rendered in UTC
/// with fixed English names — a function of the timestamp alone.
#[verifier::external_body]
fn rfc2822_utc(secs: i64) -> (r: Option<String>)
    ensures
        r is Some <==> rfc2822_representable(secs as int),
        r matches Some(s) ==> s@ == rfc2822_of(secs as int),
{
    if !(-62167219200..253402300800).contains(&secs) {
        return None;
    }
    match chrono::DateTime::<chrono::Utc>::from_timestamp(secs, 0) {
        Some(dt) => Some(dt.to_rfc2822()),
        None => None,
    }
}

/// The path of `path` relative to the web root.
pub open spec fn source_rel(webroot: Seq<char>, path: Seq<char>) -> Seq<char> {
    path.skip(webroot.len() + 1 as int)
}

/// Whether `path` is a well-formed post path under `webroot`: it sits under
/// the root, names a `.md` file, and has a topic component.
pub open spec fn source_ok(webroot: Seq<char>, path: Seq<char>) -> bool {
    let rel = source_rel(webroot, path);
    &&& starts_with_seq(path, webroot + "/"@)
    &&& ends_with_seq(rel, ".md"@)
    &&& idx_of_first(rel, '/') >= 0
    &&& idx_of_last(rel, '/') >= 0
}

/// The topic component of a post path: the part of the relative path before
/// the first separator.
pub open spec fn source_topic(webroot: Seq<char>, path: Seq<char>) -> Seq<char> {
    let rel = source_rel(webroot, path);
    rel.take(idx_of_first(rel, '/'))
}

/// The file stem of a post path: the part after the last separator, with
/// the `.md` suffix removed.
pub open spec fn source_stem(webroot: Seq<char>, path: Seq<char>) -> Seq<char> {
    let rel = source_rel(webroot, path);
    rel.subrange(idx_of_last(rel, '/') + 1, rel.len() - 3)
}

/// The link a post contributes to the feed:
/// `<site url>/<topic-or-main>/<file stem>`.
pub open spec fn source_link(url: Seq<char>, webroot: Seq<char>, path: Seq<char>) -> Seq<char> {
    url + "/"@ + source_topic(webroot, path) + "/"@ + source_stem(webroot, path)
}

/// The feed entries owed for a list of post sources, in order: the computed
/// link, the RFC 2822 form of the modification time, and the rendered body.
pub open spec fn expected_items(url: Seq<char>, webroot: Seq<char>, posts: Seq<PostSource>) -> Seq<
    (Seq<char>, Seq<char>, Seq<char>),
> {
    Seq::new(
        posts.len(),
        |i: int|
            (
                source_link(url, webroot, posts[i].path@),
                rfc2822_of(posts[i].mtime_secs as int),
                markdown_html_of(posts[i].content@),
            ),
    )
}

/// Whether `p` names a post file of the feed: a direct `.md` child of the
/// posts directory of the main timeline or of a configured topic.
pub open spec fn feed_source_entry(webroot: Seq<char>, topics: Seq<Seq<char>>, p: Seq<char>) -> bool {
    exists|t: Seq<char>|
        {
            &&& (t == "main"@ || exists|k: int| 0 <= k < topics.len() && t == slug_of(#[trigger] topics[k]))
            &&& #[trigger] glob_entry(p, webroot + "/"@ + t + "/posts"@, ".md"@)
        }
}

/// The posts directory the feed reads for one topic slug.
pub open spec fn topic_posts_dir(webroot: Seq<char>, slug: Seq<char>) -> Seq<char> {
    webroot + "/"@ + slug + "/posts"@
}

/// The slug whose posts fill the feed's `k`-th segment: the main timeline
/// first, then the configured topics in order.
pub open spec fn feed_topic_slug(topics: Seq<Seq<char>>, k: int) -> Seq<char> {
    if k == 0 {
        "main"@
    } else {
        slug_of(topics[k - 1])
    }
}

/// Whether every pattern the feed enumeration touches is clean: the main
/// timeline's posts directory and each configured topic's, except the
/// reserved gallery slug, whose posts are never enumerated.
pub open spec fn feed_globs_ok(webroot: Seq<char>, topics: Seq<Seq<char>>) -> bool {
    &&& crate::common::glob_clean(topic_posts_dir(webroot, "main"@), ".md"@)
    &&& forall|k: int|
        0 <= k < topics.len() ==> (slug_of(topics[k]) == "gallery"@ || crate::common::glob_clean(
            #[trigger] topic_posts_dir(webroot, slug_of(topics[k])),
            ".md"@,
        ))
}

/// How a feed source list is laid out: `bounds` cuts `v` into one segment
/// per feed topic — the main timeline first, then the configured topics in
/// order — and within its segment every entry is a post file of that
/// topic's directory, newest first.
pub open spec fn feed_bounds_ok(
    webroot: Seq<char>,
    topics: Seq<Seq<char>>,
    v: Seq<Seq<char>>,
    bounds: Seq<int>,
) -> bool {
    &&& bounds.len() == topics.len() + 2
    &&& bounds[0] == 0
    &&& bounds[bounds.len() - 1] == v.len()
    &&& forall|k: int| 0 <= k < bounds.len() - 1 ==> #[trigger] bounds[k] <= bounds[k + 1]
    &&& forall|k: int, i: int|
        #![trigger bounds[k], v[i]]
        0 <= k < bounds.len() - 1 && bounds[k] <= i < bounds[k + 1] ==> glob_entry(
            v[i],
            topic_posts_dir(webroot, feed_topic_slug(topics, k)),
            ".md"@,
        )
    &&& forall|k: int, i: int, j: int|
        #![trigger bounds[k], v[i], v[j]]
        0 <= k < bounds.len() - 1 && bounds[k] <= i < j < bounds[k + 1]
            ==> crate::text::lex_le(v[j], v[i])
}

/// Whether `v` is in feed order: some segmentation of it satisfies
/// `feed_bounds_ok`.
pub open spec fn feed_order_ok(webroot: Seq<char>, topics: Seq<Seq<char>>, v: Seq<Seq<char>>) -> bool {
    exists|bounds: Seq<int>| feed_bounds_ok(webroot, topics, v, bounds)
}

impl Engine {
    /// The post files that feed the RSS channel, in feed order: the main
    /// timeline's posts first, then each configured topic's posts in
    /// configuration order, newest first within each topic, exactly as
    /// `topic_sources` lists them. What comes back reflects whatever the
    /// filesystem held at the moment of each listing; a failing listing
    /// aborts the enumeration.
    #[verifier::rlimit(60)]
    pub fn rss_sources(&self) -> (r: Result<Vec<String>, RenderError>)
        ensures
            r matches Ok(v) ==> forall|i: int|
                0 <= i < v@.len() ==> #[trigger] feed_source_entry(
                    self.app.docpaths.webroot@,
                    seq_views(self.app.site.topics@),
                    v@[i]@,
                ),
            r matches Ok(v) ==> feed_order_ok(
                self.app.docpaths.webroot@,
                seq_views(self.app.site.topics@),
                seq_views(v@),
            ),
            r is Ok <==> feed_globs_ok(
                self.app.docpaths.webroot@,
                seq_views(self.app.site.topics@),
            ),
            r matches Err(e) ==> e is ContentUnavailable,
    {
        let ghost webroot = self.app.docpaths.webroot@;
        let ghost topics = seq_views(self.app.site.topics@);
        let mut out: Vec<String> = Vec::new();
        let mut from_main = match self.topic_sources("main") {
            Ok(v) => v,
            Err(e) => {
                proof {
                    if feed_globs_ok(webroot, topics) {
                        assert(crate::common::glob_clean(
                            topic_posts_dir(webroot, "main"@),
                            ".md"@,
                        ));
                        assert(false);
                    }
                }
                return Err(e);
            },
        };
        let ghost main_list = from_main@;
        out.append(&mut from_main);
        let ghost mut bounds: Seq<int> = seq![0, out@.len() as int];
        proof {
            assert forall|i: int| 0 <= i < out@.len() implies #[trigger] feed_source_entry(
                webroot,
                topics,
                out@[i]@,
            ) by {
                assert(out@[i] == main_list[i]);
                assert(glob_entry(main_list[i]@, webroot + "/"@ + "main"@ + "/posts"@, ".md"@));
            }
            assert(seq_views(out@) =~= seq_views(main_list));
            assert(feed_topic_slug(topics, 0) == "main"@);
        }
        proof {
            reveal_strlit("main");
            reveal_strlit("gallery");
            assert("main"@.len() == 4);
            assert("gallery"@.len() == 7);
            assert("main"@ != "gallery"@);
            assert(topic_posts_dir(webroot, "main"@) == webroot + "/"@ + "main"@ + "/posts"@);
            assert(crate::common::glob_clean(topic_posts_dir(webroot, "main"@), ".md"@));
        }
        let mut t: usize = 0;
        while t < self.app.site.topics.len()
            invariant
                webroot == self.app.docpaths.webroot@,
                topics == seq_views(self.app.site.topics@),
                t <= self.app.site.topics@.len(),
                crate::common::glob_clean(topic_posts_dir(webroot, "main"@), ".md"@),
                forall|k: int|
                    0 <= k < t ==> (slug_of(topics[k]) == "gallery"@
                        || crate::common::glob_clean(
                        #[trigger] topic_posts_dir(webroot, slug_of(topics[k])),
                        ".md"@,
                    )),
                forall|i: int|
                    0 <= i < out@.len() ==> #[trigger] feed_source_entry(
                        webroot,
                        topics,
                        out@[i]@,
                    ),
                bounds.len() == t + 2,
                bounds[0] == 0,
                bounds[bounds.len() - 1] == out@.len(),
                forall|k: int| 0 <= k < bounds.len() ==> 0 <= #[trigger] bounds[k] <= out@.len(),
                forall|k: int| 0 <= k < bounds.len() - 1 ==> #[trigger] bounds[k] <= bounds[k
                    + 1],
                forall|k: int, i: int|
                    #![trigger bounds[k], seq_views(out@)[i]]
                    0 <= k < bounds.len() - 1 && bounds[k] <= i < bounds[k + 1] ==> glob_entry(
                        seq_views(out@)[i],
                        topic_posts_dir(webroot, feed_topic_slug(topics, k)),
                        ".md"@,
                    ),
                forall|k: int, i: int, j: int|
                    #![trigger bounds[k], seq_views(out@)[i], seq_views(out@)[j]]
                    0 <= k < bounds.len() - 1 && bounds[k] <= i < j < bounds[k + 1]
                        ==> crate::text::lex_le(seq_views(out@)[j], seq_views(out@)[i]),
            decreases self.app.site.topics@.len() - t,
        {
            let slug = crate::common::slugify(self.app.site.topics[t].as_str());
            let ghost sv = slug@;
            proof {
                assert(sv == slug_of(topics[t as int]));
            }
            let mut found = match self.topic_sources(slug.as_str()) {
                Ok(v) => v,
                Err(e) => {
                    proof {
                        if feed_globs_ok(webroot, topics) {
                            assert(sv == "gallery"@ || crate::common::glob_clean(
                                topic_posts_dir(webroot, slug_of(topics[t as int])),
                                ".md"@,
                            ));
                            assert(false);
                        }
                    }
                    return Err(e);
                },
            };
            proof {
                if sv != "gallery"@ {
                    assert(crate::common::glob_clean(topic_posts_dir(webroot, sv), ".md"@));
                }
            }
            let ghost out0 = out@;
            let ghost bounds0 = bounds;
            let ghost found0 = found@;
            out.append(&mut found);
            proof {
                bounds = bounds.push(out@.len() as int);
                let ov = seq_views(out@);
                let ov0 = seq_views(out0);
                let fv = seq_views(found0);
                assert(out@ =~= out0 + found0);
                assert(forall|i: int| 0 <= i < out0.len() ==> #[trigger] ov[i] == ov0[i]);
                assert(forall|i: int|
                    out0.len() <= i < out@.len() ==> #[trigger] ov[i] == fv[i - out0.len()]);
                assert forall|i: int| 0 <= i < out@.len() implies #[trigger] feed_source_entry(
                    webroot,
                    topics,
                    out@[i]@,
                ) by {
                    if i < out0.len() {
                        assert(out@[i] == out0[i]);
                    } else {
                        assert(out@[i] == found0[i - out0.len()]);
                        if sv != "gallery"@ {
                            assert(glob_entry(
                                found0[i - out0.len()]@,
                                webroot + "/"@ + sv + "/posts"@,
                                ".md"@,
                            ));
                        }
                    }
                }
                assert(feed_topic_slug(topics, t + 1) == sv);
                assert forall|k: int, i: int|
                    #![trigger bounds[k], ov[i]]
                    0 <= k < bounds.len() - 1 && bounds[k] <= i < bounds[k + 1] implies glob_entry(
                        ov[i],
                        topic_posts_dir(webroot, feed_topic_slug(topics, k)),
                        ".md"@,
                    ) by {
                    if k < bounds0.len() - 1 {
                        assert(bounds[k] == bounds0[k] && bounds[k + 1] == bounds0[k + 1]);
                        assert(bounds0[k + 1] <= out0.len() as int);
                        assert(i < out0.len());
                        assert(ov[i] == ov0[i]);
                        assert(glob_entry(
                            ov0[i],
                            topic_posts_dir(webroot, feed_topic_slug(topics, k)),
                            ".md"@,
                        ));
                    } else {
                        assert(k == bounds0.len() - 1);
                        assert(bounds[k] == out0.len() as int);
                        assert(ov[i] == fv[i - out0.len()]);
                        assert(fv[i - out0.len()] == found0[i - out0.len()]@);
                        assert(glob_entry(
                            found0[i - out0.len()]@,
                            webroot + "/"@ + sv + "/posts"@,
                            ".md"@,
                        ));
                    }
                }
                assert forall|k: int, i: int, j: int|
                    #![trigger bounds[k], ov[i], ov[j]]
                    0 <= k < bounds.len() - 1 && bounds[k] <= i < j < bounds[k + 1]
                        implies crate::text::lex_le(ov[j], ov[i]) by {
                    if k < bounds0.len() - 1 {
                        assert(bounds[k] == bounds0[k] && bounds[k + 1] == bounds0[k + 1]);
                        assert(bounds0[k + 1] <= out0.len() as int);
                        assert(ov[i] == ov0[i] && ov[j] == ov0[j]);
                        assert(crate::text::lex_le(ov0[j], ov0[i]));
                    } else {
                        assert(k == bounds0.len() - 1);
                        assert(ov[i] == fv[i - out0.len()] && ov[j] == fv[j - out0.len()]);
                        assert(crate::text::lex_le(
                            fv[j - out0.len()],
                            fv[i - out0.len()],
                        ));
                    }
                }
            }
            t = t + 1;
        }
        proof {
            assert(feed_bounds_ok(webroot, topics, seq_views(out@), bounds));
        }
        Ok(out)
    }

    /// Builds the RSS document from the given post sources, which the
    /// serving boundary reads in the order `rss_sources` lists them: the
    /// main timeline first, then each configured topic, newest first within
    /// each. The channel carries the site's name, its base URL, and a
    /// `<name> RSS Feed` description; every source contributes exactly one
    /// item, so the feed holds one entry per post file. The build succeeds
    /// exactly when every source follows the content convention and every
    /// timestamp is representable; otherwise it aborts at the first
    /// offender, and no partial feed is handed out.
    pub fn rss(&self, posts: &Vec<PostSource>) -> (r: Result<String, RenderError>)
        ensures
            r matches Ok(xml) ==> xml@ == rss_xml_of(
                self.app.site.name@,
                self.app.site.url@,
                self.app.site.name@ + " RSS Feed"@,
                expected_items(self.app.site.url@, self.app.docpaths.webroot@, posts@),
            ),
            r is Ok <==> (forall|i: int|
                0 <= i < posts@.len() ==> #[trigger] source_ok(
                    self.app.docpaths.webroot@,
                    posts@[i].path@,
                ) && rfc2822_representable(posts@[i].mtime_secs as int)),
            r matches Err(e) ==> e is ContentUnavailable,
    {
        let ghost url = self.app.site.url@;
        let ghost webroot = self.app.docpaths.webroot@;
        let wr_slash = self.app.docpaths.webroot.clone().concat("/");
        let wn = wr_slash.as_str().unicode_len();
        let mut items: Vec<FeedItem> = Vec::new();
        let mut i: usize = 0;
        while i < posts.len()
            invariant
                i <= posts@.len(),
                items@.len() == i,
                url == self.app.site.url@,
                webroot == self.app.docpaths.webroot@,
                wr_slash@ == webroot + "/"@,
                wn == wr_slash@.len(),
                forall|k: int|
                    #![trigger posts@[k]]
                    0 <= k < i ==> source_ok(webroot, posts@[k].path@)
                        && rfc2822_representable(posts@[k].mtime_secs as int),
                forall|k: int|
                    0 <= k < i ==> #[trigger] item_views(items@)[k] == expected_items(
                        url,
                        webroot,
                        posts@,
                    )[k],
            decreases posts@.len() - i,
        {
            let ghost items0 = items@;
            let path = &posts[i].path;
            let ghost pv = path@;
            let p_len = path.as_str().unicode_len();
            if !starts_with_str(path.as_str(), wr_slash.as_str()) {
                proof {
                    assert(!(source_ok(webroot, posts@[i as int].path@)
                        && rfc2822_representable(posts@[i as int].mtime_secs as int)));
                }
                return Err(RenderError::ContentUnavailable(path.clone()));
            }
            let rel = substring_copy(path.as_str(), wn, p_len);
            proof {
                reveal_strlit("/");
                assert(wn == webroot.len() + 1);
                assert(rel@ =~= source_rel(webroot, pv));
            }
            if !ends_with_str(rel.as_str(), ".md") {
                proof {
                    assert(!(source_ok(webroot, posts@[i as int].path@)
                        && rfc2822_representable(posts@[i as int].mtime_secs as int)));
                }
                return Err(RenderError::ContentUnavailable(path.clone()));
            }
            let first = match find_first_char(rel.as_str(), '/') {
                Some(f) => f,
                None => {
                    proof {
                        assert(!(source_ok(webroot, posts@[i as int].path@)
                            && rfc2822_representable(posts@[i as int].mtime_secs as int)));
                    }
                    return Err(RenderError::ContentUnavailable(path.clone()));
                },
            };
            let last = match find_last_char(rel.as_str(), '/') {
                Some(l) => l,
                None => {
                    proof {
                        assert(!(source_ok(webroot, posts@[i as int].path@)
                            && rfc2822_representable(posts@[i as int].mtime_secs as int)));
                    }
                    return Err(RenderError::ContentUnavailable(path.clone()));
                },
            };
            let rel_len = rel.as_str().unicode_len();
            proof {
                reveal_strlit(".md");
                assert(rel@.len() >= 3);
                assert(rel@.subrange(rel@.len() - 3, rel@.len() as int) == ".md"@);
                assert(rel@[rel@.len() - 3] == '.' && rel@[rel@.len() - 2] == 'm' && rel@[
                    rel@.len() - 1
                ] == 'd') by {
                    assert(".md"@[0] == '.' && ".md"@[1] == 'm' && ".md"@[2] == 'd');
                    assert(rel@.subrange(rel@.len() - 3, rel@.len() as int)[0] == rel@[rel@.len()
                        - 3]);
                    assert(rel@.subrange(rel@.len() - 3, rel@.len() as int)[1] == rel@[rel@.len()
                        - 2]);
                    assert(rel@.subrange(rel@.len() - 3, rel@.len() as int)[2] == rel@[rel@.len()
                        - 1]);
                }
                assert(rel@[last as int] == '/');
                assert(last + 1 <= rel@.len() - 3);
            }
            let topic = substring_copy(rel.as_str(), 0, first);
            let stem = substring_copy(rel.as_str(), last + 1, rel_len - 3);
            let link = self.app.site.url.clone().concat("/").concat(topic.as_str()).concat(
                "/",
            ).concat(stem.as_str());
            proof {
                assert(topic@ =~= source_topic(webroot, pv));
                assert(stem@ =~= source_stem(webroot, pv));
                assert(link@ == source_link(url, webroot, pv));
            }
            let pub_date = match rfc2822_utc(posts[i].mtime_secs) {
                Some(d) => d,
                None => {
                    proof {
                        assert(!(source_ok(webroot, posts@[i as int].path@)
                            && rfc2822_representable(posts@[i as int].mtime_secs as int)));
                    }
                    return Err(RenderError::ContentUnavailable(path.clone()));
                },
            };
            let description = markdown_to_html(posts[i].content.as_str());
            items.push(FeedItem { link, pub_date, description });
            proof {
                assert(source_ok(webroot, posts@[i as int].path@));
                assert(rfc2822_representable(posts@[i as int].mtime_secs as int));
                assert forall|k: int| #![trigger posts@[k]] 0 <= k < i + 1 implies source_ok(
                    webroot,
                    posts@[k].path@,
                ) && rfc2822_representable(posts@[k].mtime_secs as int) by {
                    if k < i {
                        assert(posts@[k] == posts@[k]);
                    }
                }
                assert(item_views(items@)[i as int] == expected_items(url, webroot, posts@)[
                    i as int
                ]);
                assert(forall|k: int|
                    0 <= k < i ==> #[trigger] item_views(items@)[k] == item_views(items0)[k]);
            }
            i = i + 1;
        }
        let channel_description = self.app.site.name.clone().concat(" RSS Feed");
        let xml = channel_xml(
            self.app.site.name.as_str(),
            self.app.site.url.as_str(),
            channel_description.as_str(),
            &items,
        );
        proof {
            assert(item_views(items@) =~= expected_items(url, webroot, posts@));
        }
        Ok(xml)
    }
}

} // verus!
