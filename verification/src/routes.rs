//! Route-level decisions that the serving boundary applies: the response
//! content type for raw asset bytes, chosen from the configured
//! extension-to-MIME table.

use vstd::prelude::*;

verus! {

/// The MIME type the table maps `e` to: the value of the first matching
/// entry, or `text/plain` when no entry matches.
pub open spec fn mime_lookup(e: Seq<char>, table: Seq<(Seq<char>, Seq<char>)>) -> Seq<char>
    decreases table.len(),
{
    if table.len() == 0 {
        "text/plain"@
    } else if table[0].0 == e {
        table[0].1
    } else {
        mime_lookup(e, table.skip(1))
    }
}

/// The MIME type for a file extension: `text/plain` when the file has no
/// extension, else whatever the table maps the extension to.
pub open spec fn mime_of(ext: Option<Seq<char>>, table: Seq<(Seq<char>, Seq<char>)>) -> Seq<
    char,
> {
    match ext {
        None => "text/plain"@,
        Some(e) => mime_lookup(e, table),
    }
}

/// The view of an optional extension string.
pub open spec fn opt_view(o: Option<String>) -> Option<Seq<char>> {
    match o {
        Option::None => Option::None,
        Option::Some(s) => Option::Some(s@),
    }
}

/// The views of the entries of an extension-to-MIME table.
pub open spec fn table_views(t: Seq<(String, String)>) -> Seq<(Seq<char>, Seq<char>)> {
    Seq::new(t.len(), |i: int| (t[i].0@, t[i].1@))
}

proof fn lemma_mime_lookup_skip(e: Seq<char>, table: Seq<(Seq<char>, Seq<char>)>, i: int)
    requires
        0 <= i <= table.len(),
        forall|j: int| 0 <= j < i ==> table[j].0 != e,
    ensures
        mime_lookup(e, table) == mime_lookup(e, table.skip(i)),
    decreases i,
{
    if i > 0 {
        assert(table[0].0 != e);
        lemma_mime_lookup_skip(e, table.skip(1), i - 1);
        assert(table.skip(1).skip(i - 1) =~= table.skip(i));
    } else {
        assert(table.skip(0) =~= table);
    }
}

/// Picks the response MIME type for a file extension from the configured
/// table; an absent or unmapped extension falls back to `text/plain`, so
/// any file the table does not cover is served as plain text.
pub fn mime_from_ext(ext: &Option<String>, mime_map: &Vec<(String, String)>) -> (r: String)
    ensures
        r@ == mime_of(opt_view(*ext), table_views(mime_map@)),
{
    let e = match ext {
        Some(e) => e,
        None => {
            return String::from_str("text/plain");
        },
    };
    proof {
        assert(opt_view(*ext) == Option::Some(e@));
    }
    let ghost tv = table_views(mime_map@);
    let mut i: usize = 0;
    while i < mime_map.len()
        invariant
            tv == table_views(mime_map@),
            opt_view(*ext) == Option::Some(e@),
            i <= mime_map@.len(),
            forall|j: int| 0 <= j < i ==> tv[j].0 != e@,
        decreases mime_map@.len() - i,
    {
        if crate::text::str_eq_str(mime_map[i].0.as_str(), e.as_str()) {
            proof {
                lemma_mime_lookup_skip(e@, tv, i as int);
                assert(tv.skip(i as int)[0] == tv[i as int]);
                assert(tv[i as int] == (mime_map@[i as int].0@, mime_map@[i as int].1@));
                assert(tv[i as int].0 == e@);
                assert(mime_lookup(e@, tv.skip(i as int)) == tv[i as int].1);
            }
            let found = mime_map[i].1.clone();
            proof {
                assert(found@ == mime_map@[i as int].1@);
                assert(found@ == mime_lookup(e@, tv));
                assert(mime_of(Option::Some(e@), tv) == mime_lookup(e@, tv));
            }
            return found;
        }
        i = i + 1;
    }
    proof {
        lemma_mime_lookup_skip(e@, tv, tv.len() as int);
        assert(tv.skip(tv.len() as int).len() == 0);
    }
    String::from_str("text/plain")
}

} // verus!
