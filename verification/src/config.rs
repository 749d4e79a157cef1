//! Site configuration: the site's name, author, base URL, rendering template
//! and topics, the server's bind address and port, and the two filesystem
//! roots that anchor all content addressing.
//!
//! Reading configuration input, parsing the on-disk TOML form and creating
//! the site's directory tree are the serving boundary's work; the types here
//! hold the values and the rules by which they are assembled.

use vstd::prelude::*;

use crate::common::{seq_views, trim_of, trim_str};
use crate::text::push_char;

verus! {

/// The fields of a comma-separated topic line, split on `,`; an empty line
/// is a single empty field.
pub open spec fn split_comma(s: Seq<char>) -> Seq<Seq<char>>
    decreases s.len(),
{
    if s.len() == 0 {
        seq![Seq::<char>::empty()]
    } else if s[s.len() - 1] == ',' {
        split_comma(s.take(s.len() - 1)).push(Seq::<char>::empty())
    } else {
        let rest = split_comma(s.take(s.len() - 1));
        rest.update(rest.len() - 1, rest.last().push(s[s.len() - 1]))
    }
}

/// Each field of `fields`, trimmed of surrounding white space.
pub open spec fn trimmed_all(fields: Seq<Seq<char>>) -> Seq<Seq<char>> {
    Seq::new(fields.len(), |i: int| trim_of(fields[i]))
}

/// The topics named by a comma-separated line: each field, trimmed.
pub open spec fn csv_fields(s: Seq<char>) -> Seq<Seq<char>> {
    trimmed_all(split_comma(s))
}

/// Splits a comma-separated line into its fields, each trimmed of
/// surrounding white space.
pub fn csv_to_vec(csv: &str) -> (r: Vec<String>)
    ensures
        seq_views(r@) == csv_fields(csv@),
        r@.len() == split_comma(csv@).len(),
{
    let n = csv.unicode_len();
    let mut out: Vec<String> = Vec::new();
    let mut buf = String::new();
    let ghost mut raws: Seq<Seq<char>> = Seq::empty();
    let mut i: usize = 0;
    proof {
        assert(split_comma(csv@.take(0)) =~= raws.push(buf@));
        assert(seq_views(out@) =~= trimmed_all(raws));
    }
    while i < n
        invariant
            n == csv@.len(),
            i <= n,
            split_comma(csv@.take(i as int)) == raws.push(buf@),
            seq_views(out@) == trimmed_all(raws),
            out@.len() == raws.len(),
        decreases n - i,
    {
        let c = csv.get_char(i);
        let ghost step = csv@.take(i + 1);
        proof {
            assert(step =~= csv@.take(i as int).push(csv@[i as int]));
            assert(step.take(step.len() - 1) =~= csv@.take(i as int));
            assert(step[step.len() - 1] == csv@[i as int]);
        }
        if c == ',' {
            let ghost buf0 = buf@;
            let ghost out0 = out@;
            let field = trim_str(buf.as_str());
            out.push(field);
            proof {
                let raws1 = raws.push(buf0);
                assert(split_comma(step) == split_comma(csv@.take(i as int)).push(
                    Seq::<char>::empty(),
                ));
                assert(split_comma(step) =~= raws1.push(Seq::<char>::empty()));
                assert(seq_views(out@) =~= trimmed_all(raws1)) by {
                    assert(seq_views(out@).len() == raws1.len());
                    assert forall|k: int| 0 <= k < raws1.len() implies seq_views(out@)[k]
                        == trimmed_all(raws1)[k] by {
                        assert(seq_views(out@)[k] == out@[k]@);
                        assert(trimmed_all(raws1)[k] == trim_of(raws1[k]));
                        if k < out0.len() {
                            assert(out@[k] == out0[k]);
                            assert(seq_views(out0)[k] == trimmed_all(raws)[k]);
                            assert(raws1[k] == raws[k]);
                        } else {
                            assert(out@[k] == field);
                            assert(raws1[k] == buf0);
                        }
                    }
                }
                raws = raws1;
            }
            buf = String::new();
            proof {
                assert(buf@ =~= Seq::<char>::empty());
                assert(split_comma(csv@.take(i + 1)) == raws.push(buf@));
            }
        } else {
            let ghost buf0 = buf@;
            push_char(&mut buf, c);
            proof {
                let rest = split_comma(csv@.take(i as int));
                assert(rest == raws.push(buf0));
                assert(rest.len() == raws.len() + 1);
                assert(rest.last() == buf0);
                assert(split_comma(step) == rest.update(rest.len() - 1, rest.last().push(
                    csv@[i as int],
                )));
                assert(buf@ == buf0.push(csv@[i as int]));
                assert(rest.update(rest.len() - 1, buf0.push(csv@[i as int])) =~= raws.push(buf@));
                assert(split_comma(csv@.take(i + 1)) == raws.push(buf@));
            }
        }
        i = i + 1;
    }
    let ghost buf0 = buf@;
    let ghost out0 = out@;
    let field = trim_str(buf.as_str());
    out.push(field);
    proof {
        assert(csv@.take(n as int) =~= csv@);
        assert(split_comma(csv@) == raws.push(buf0));
        let raws1 = raws.push(buf0);
        assert(seq_views(out@) =~= trimmed_all(raws1)) by {
            assert(seq_views(out@).len() == raws1.len());
            assert forall|k: int| 0 <= k < raws1.len() implies seq_views(out@)[k]
                == trimmed_all(raws1)[k] by {
                assert(seq_views(out@)[k] == out@[k]@);
                assert(trimmed_all(raws1)[k] == trim_of(raws1[k]));
                if k < out0.len() {
                    assert(out@[k] == out0[k]);
                    assert(seq_views(out0)[k] == trimmed_all(raws)[k]);
                    assert(raws1[k] == raws[k]);
                } else {
                    assert(out@[k] == field);
                    assert(raws1[k] == buf0);
                }
            }
        }
    }
    out
}

/// The site's name, author, base URL, rendering template, and topics,
/// as configured; immutable after load.
#[derive(Debug, Clone)]
pub struct Site {
    pub name: String,
    pub author: String,
    pub url: String,
    pub template: String,
    pub topics: Vec<String>,
}

impl Site {
    /// Builds a [`Site`] from the four configuration input lines, each as
    /// typed: the values are trimmed, the topic line is split on commas,
    /// and the template is the built-in default.
    pub fn new_from_input(name: &str, author: &str, url: &str, topics: &str) -> (s: Site)
        ensures
            s.name@ == trim_of(name@),
            s.author@ == trim_of(author@),
            s.url@ == trim_of(url@),
            s.template@ == "default.tmpl"@,
            seq_views(s.topics@) == csv_fields(trim_of(topics@)),
    {
        let topic_line = trim_str(topics);
        Site {
            name: trim_str(name),
            author: trim_str(author),
            url: trim_str(url),
            template: String::from_str("default.tmpl"),
            topics: csv_to_vec(topic_line.as_str()),
        }
    }
}

/// The server's bind address and port.
#[derive(Debug, Clone)]
pub struct Server {
    pub bind: String,
    pub port: u16,
}

impl Server {
    /// The default server configuration: `0.0.0.0:9090`.
    pub fn new() -> (s: Server)
        ensures
            s.bind@ == "0.0.0.0"@,
            s.port == 9090usize as u16,
    {
        Server { bind: String::from_str("0.0.0.0"), port: 9090 }
    }
}

/// The two configured filesystem roots: the template directory and the web
/// content root. Every content path the engine forms is anchored here.
#[derive(Debug, Clone)]
pub struct DocPaths {
    pub templates: String,
    pub webroot: String,
}

impl DocPaths {
    /// Derives the two roots under `dir`: `<dir>/site/templates` and
    /// `<dir>/site/webroot`.
    pub fn new(dir: &str) -> (d: DocPaths)
        ensures
            d.templates@ == dir@ + "/site/templates"@,
            d.webroot@ == dir@ + "/site/webroot"@,
    {
        let templates = dir.to_owned().concat("/site/templates");
        let webroot = dir.to_owned().concat("/site/webroot");
        DocPaths { templates, webroot }
    }
}

/// The overall application configuration used by the server and the
/// rendering engine; shared read-only once loaded.
#[derive(Debug, Clone)]
pub struct AppConfig {
    pub site: Site,
    pub server: Server,
    pub docpaths: DocPaths,
}

impl AppConfig {
    /// Assembles a new configuration from the base directory and the four
    /// configuration input lines, with the default server settings. Creating
    /// the directory tree and writing the TOML form to disk are the serving
    /// boundary's work.
    pub fn generate(dir: &str, name: &str, author: &str, url: &str, topics: &str) -> (c:
        AppConfig)
        ensures
            c.site.name@ == trim_of(name@),
            c.site.author@ == trim_of(author@),
            c.site.url@ == trim_of(url@),
            c.site.template@ == "default.tmpl"@,
            seq_views(c.site.topics@) == csv_fields(trim_of(topics@)),
            c.server.bind@ == "0.0.0.0"@,
            c.server.port == 9090usize as u16,
            c.docpaths.templates@ == dir@ + "/site/templates"@,
            c.docpaths.webroot@ == dir@ + "/site/webroot"@,
    {
        let docpaths = DocPaths::new(dir);
        let site = Site::new_from_input(name, author, url, topics);
        let server = Server::new();
        AppConfig { site, server, docpaths }
    }
}

} // verus!
