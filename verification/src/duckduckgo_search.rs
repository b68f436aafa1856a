//! Assembly of search results from the DuckDuckGo HTML interface.
//!
//! The caller downloads the results page and pulls the raw anchors out of
//! its DOM (title text, `href`, snippet); everything after that -- the
//! redirect-URL decoding and the assembly and filtering of results -- is
//! verified here.

use vstd::prelude::*;

use crate::search::{decode_query, no_description, percent_decoded, SearchResult};
use crate::text::{
    find_first_char_from, find_first_sub, first_char_from, first_sub, has_prefix, str_chars,
    string_from_chars,
};

verus! {

/// Maximum number of search results to fetch.
pub const MAX_RESULTS: usize = 10;

/// The request URL for the HTML-only search interface.
pub fn duckduckgo_search_url(query: &str) -> (r: String)
    ensures
        r@ == "https://html.duckduckgo.com/html/?q="@ + crate::search::percent_encoded(query@),
{
    let mut url = String::from_str("https://html.duckduckgo.com/html/?q=");
    let q = crate::search::encode_query(query);
    url.append(q.as_str());
    url
}

/// One raw result anchor, as pulled from the results page: the anchor's
/// text, its `href`, and the snippet beside it, if any.
#[derive(Debug)]
pub struct RawAnchor {
    pub title: String,
    pub href: String,
    pub snippet: Option<String>,
}

/// The URL hidden in a redirect `href`: the `uddg` parameter's value,
/// percent-decoded. `None` when there is no `uddg=` or decoding fails.
pub open spec fn redirect_url(href: Seq<char>) -> Option<Seq<char>> {
    match first_sub(href, "uddg="@) {
        None => None,
        Some(i) => {
            let start = i + "uddg="@.len();
            let end = match first_char_from(href, '&', start) {
                Some(j) => j,
                None => href.len() as int,
            };
            percent_decoded(href.subrange(start, end))
        },
    }
}

/// The final URL an anchor's `href` leads to: redirect hrefs are decoded,
/// direct `http(s)` hrefs pass through, anything else is dropped.
pub open spec fn resolved_url(href: Seq<char>) -> Option<Seq<char>> {
    if has_prefix(href, "//duckduckgo.com/l/?"@) || has_prefix(href, "/l/?"@) {
        redirect_url(href)
    } else if has_prefix(href, "http://"@) || has_prefix(href, "https://"@) {
        Some(href)
    } else {
        None
    }
}

/// Resolve an anchor's `href` to the result URL it leads to.
pub fn resolve_result_url(href: &str) -> (r: Option<String>)
    ensures
        match r {
            Some(u) => resolved_url(href@) == Some(u@),
            None => resolved_url(href@) is None,
        },
{
    let h = str_chars(href);
    let redirect_long = str_chars("//duckduckgo.com/l/?");
    let redirect_short = str_chars("/l/?");
    if crate::text::starts_with_chars(&h, &redirect_long) || crate::text::starts_with_chars(
        &h,
        &redirect_short,
    ) {
        let uddg = str_chars("uddg=");
        proof {
            reveal_strlit("uddg=");
        }
        let hn = h.len();
        match find_first_sub(&h, &uddg) {
            None => None,
            Some(i) => {
                proof {
                    assert(uddg@.len() == 5);
                    assert(i + 5 <= hn);
                }
                let start = i + 5;
                let end = match find_first_char_from(&h, '&', start) {
                    Some(j) => j,
                    None => hn,
                };
                let mut enc: Vec<char> = Vec::new();
                let mut k: usize = start;
                while k < end
                    invariant
                        start <= k <= end <= h@.len(),
                        enc@ == h@.subrange(start as int, k as int),
                    decreases end - k,
                {
                    enc.push(h[k]);
                    k = k + 1;
                    proof {
                        assert(enc@ =~= h@.subrange(start as int, k as int));
                    }
                }
                let enc_s = string_from_chars(&enc);
                decode_query(enc_s.as_str())
            },
        }
    } else {
        let http = str_chars("http://");
        let https = str_chars("https://");
        if crate::text::starts_with_chars(&h, &http) || crate::text::starts_with_chars(
            &h,
            &https,
        ) {
            Some(String::from_str(href))
        } else {
            None
        }
    }
}

/// The row one anchor contributes: dropped when its title is empty, its
/// `href` does not resolve, or the resolved URL is empty.
pub open spec fn anchor_row(a: RawAnchor) -> Option<(Seq<char>, Seq<char>, Seq<char>)> {
    if a.title@.len() == 0 {
        None
    } else {
        match resolved_url(a.href@) {
            None => None,
            Some(u) => if u.len() == 0 {
                None
            } else {
                Some(
                    (
                        a.title@,
                        u,
                        match a.snippet {
                            Some(ref s) => s@,
                            None => no_description(),
                        },
                    ),
                )
            },
        }
    }
}

/// The `(title, url, description)` rows of a sequence of anchors.
pub open spec fn anchor_rows(anchors: Seq<RawAnchor>) -> Seq<(Seq<char>, Seq<char>, Seq<char>)>
    decreases anchors.len(),
{
    if anchors.len() == 0 {
        Seq::empty()
    } else {
        let rest = anchor_rows(anchors.drop_last());
        match anchor_row(anchors.last()) {
            Some(row) => rest.push(row),
            None => rest,
        }
    }
}

/// The error reported when no anchor yields a result.
pub open spec fn no_results_note() -> Seq<char> {
    "No results found or failed to parse DuckDuckGo HTML. The page structure may have changed."@
}

/// Assemble results from the first `MAX_RESULTS` raw anchors of a results
/// page: anchors with an empty title, an unresolvable `href`, or an empty
/// resolved URL are skipped; a missing snippet becomes the fixed text.
/// Errs exactly when nothing is left.
pub fn parse_duckduckgo_results(anchors: &Vec<RawAnchor>) -> (r: Result<Vec<SearchResult>, String>)
    ensures
        ({
            let capped = if anchors@.len() <= MAX_RESULTS {
                anchors@
            } else {
                anchors@.subrange(0, MAX_RESULTS as int)
            };
            match r {
                Ok(v) => anchor_rows(capped).len() > 0 && v@.map_values(
                    |sr: SearchResult| (sr.title@, sr.url@, sr.description@),
                ) == anchor_rows(capped),
                Err(e) => anchor_rows(capped).len() == 0 && e@ == no_results_note(),
            }
        }),
{
    let n = if anchors.len() <= MAX_RESULTS {
        anchors.len()
    } else {
        MAX_RESULTS
    };
    let ghost capped = if anchors@.len() <= MAX_RESULTS {
        anchors@
    } else {
        anchors@.subrange(0, MAX_RESULTS as int)
    };
    proof {
        assert(capped =~= anchors@.subrange(0, n as int));
    }
    let mut out: Vec<SearchResult> = Vec::new();
    let mut i: usize = 0;
    proof {
        assert(anchors@.subrange(0, 0) =~= Seq::<RawAnchor>::empty());
        assert(out@.map_values(|sr: SearchResult| (sr.title@, sr.url@, sr.description@))
            =~= anchor_rows(anchors@.subrange(0, 0)));
    }
    while i < n
        invariant
            n <= anchors@.len(),
            i <= n,
            out@.map_values(|sr: SearchResult| (sr.title@, sr.url@, sr.description@))
                == anchor_rows(anchors@.subrange(0, i as int)),
        decreases n - i,
    {
        let ghost pre = out@.map_values(
            |sr: SearchResult| (sr.title@, sr.url@, sr.description@),
        );
        if !anchors[i].title.as_str().is_empty() {
            match resolve_result_url(anchors[i].href.as_str()) {
                Some(url) => {
                    if !url.as_str().is_empty() {
                        let title = anchors[i].title.clone();
                        let description = match &anchors[i].snippet {
                            Some(s) => s.clone(),
                            None => crate::search::no_description_text(),
                        };
                        out.push(SearchResult { title, url, description });
                    }
                },
                None => {},
            }
        }
        i = i + 1;
        proof {
            let pfx = anchors@.subrange(0, i as int);
            assert(pfx.drop_last() =~= anchors@.subrange(0, i - 1));
            assert(pfx.last() == anchors@[i - 1]);
            assert(out@.map_values(|sr: SearchResult| (sr.title@, sr.url@, sr.description@))
                =~= anchor_rows(pfx));
        }
    }
    if out.len() == 0 {
        Err(
            String::from_str(
                "No results found or failed to parse DuckDuckGo HTML. The page structure may have changed.",
            ),
        )
    } else {
        Ok(out)
    }
}

} // verus!
