//! Search results and the assembly of provider responses into them.
//!
//! The network call to the search provider lives outside the library; the
//! functions here turn the provider's decoded rows into `SearchResult`s.

use vstd::prelude::*;

verus! {

/// Maximum number of search results to fetch.
pub const MAX_RESULTS: usize = 10;

/// One search result; identity is `url`.
#[derive(Debug)]
pub struct SearchResult {
    pub title: String,
    pub url: String,
    pub description: String,
}

impl Clone for SearchResult {
    /// Field-for-field copy.
    fn clone(&self) -> (r: Self)
        ensures
            r == *self,
    {
        SearchResult { title: self.title.clone(), url: self.url.clone(), description: self.description.clone() }
    }
}

/// A row as decoded from a provider response, before assembly.
#[derive(Debug)]
pub struct RawResult {
    pub title: String,
    pub url: String,
    pub description: Option<String>,
}

/// The description a result gets when the provider supplied none.
pub open spec fn no_description() -> Seq<char> {
    seq!['N', 'o', ' ', 'd', 'e', 's', 'c', 'r', 'i', 'p', 't', 'i', 'o', 'n']
}

pub fn no_description_text() -> (r: String)
    ensures
        r@ == no_description(),
{
    let mut v: Vec<char> = Vec::new();
    v.push('N');
    v.push('o');
    v.push(' ');
    v.push('d');
    v.push('e');
    v.push('s');
    v.push('c');
    v.push('r');
    v.push('i');
    v.push('p');
    v.push('t');
    v.push('i');
    v.push('o');
    v.push('n');
    proof {
        assert(v@ =~= no_description());
    }
    crate::text::string_from_chars(&v)
}

/// A character every query encoder passes through unchanged: an ASCII
/// letter or digit.
pub open spec fn ascii_alnum(c: char) -> bool {
    (48 <= c as u32 <= 57) || (65 <= c as u32 <= 90) || (97 <= c as u32 <= 122)
}

/// The percent-encoding of a text, as `urlencoding::encode` computes it.
pub uninterp spec fn percent_encoded(s: Seq<char>) -> Seq<char>;

/// Relies on `urlencoding::encode`: percent-encodes every byte except
/// ASCII alphanumerics and `-`, `.`, `_`, `~`, as a pure function of the
/// text; a text of only ASCII alphanumerics comes back unchanged.
#[verifier::external_body]
pub(crate) fn encode_query(s: &str) -> (r: String)
    ensures
        r@ == percent_encoded(s@),
        (forall|i: int| 0 <= i < s@.len() ==> ascii_alnum(#[trigger] s@[i])) ==> r@ == s@,
{
    urlencoding::encode(s).into_owned()
}

/// The percent-decoding of a text, as `urlencoding::decode` computes it;
/// `None` when the decoded bytes are not valid UTF-8.
pub uninterp spec fn percent_decoded(s: Seq<char>) -> Option<Seq<char>>;

/// Relies on `urlencoding::decode`: decodes `%XX` sequences assuming
/// UTF-8, as a pure function of the text; fails only when the decoded
/// bytes are not valid UTF-8, and a text without `%` comes back unchanged.
#[verifier::external_body]
pub(crate) fn decode_query(s: &str) -> (r: Option<String>)
    ensures
        r matches Some(d) ==> percent_decoded(s@) == Some(d@),
        r is None ==> percent_decoded(s@) is None,
        r is None ==> exists|i: int| 0 <= i < s@.len() && s@[i] == '%',
        r matches Some(d) ==> ((forall|i: int| 0 <= i < s@.len() ==> s@[i] != '%') ==> d@ == s@),
{
    match urlencoding::decode(s) {
        Ok(d) => Some(d.into_owned()),
        Err(_) => None,
    }
}

/// The `SearchResult` a raw row becomes.
pub open spec fn assembled(raw: RawResult, out: SearchResult) -> bool {
    &&& out.title@ == raw.title@
    &&& out.url@ == raw.url@
    &&& match raw.description {
        Some(d) => out.description@ == d@,
        None => out.description@ == no_description(),
    }
}

/// The request URL for the primary search API: the encoded query and the
/// result cap.
pub fn brave_search_url(query: &str) -> (r: String)
    ensures
        r@ == "https://api.search.brave.com/res/v1/web/search?q="@ + percent_encoded(query@)
            + "&count="@ + crate::text::dec_str(MAX_RESULTS as int),
{
    let mut url = String::from_str("https://api.search.brave.com/res/v1/web/search?q=");
    let q = encode_query(query);
    url.append(q.as_str());
    url.append("&count=");
    let n = crate::text::usize_to_string(MAX_RESULTS);
    url.append(n.as_str());
    url
}

/// Assemble the rows of a provider response, keeping at most
/// `MAX_RESULTS` and substituting a fixed text for a missing description.
/// `None` (no result section in the response) yields no results.
pub fn collect_brave_results(raw: Option<Vec<RawResult>>) -> (r: Vec<SearchResult>)
    ensures
        match raw {
            None => r@.len() == 0,
            Some(v) => {
                &&& r@.len() == if v@.len() <= MAX_RESULTS {
                    v@.len() as int
                } else {
                    MAX_RESULTS as int
                }
                &&& forall|i: int| 0 <= i < r@.len() ==> assembled(v@[i], #[trigger] r@[i])
            },
        },
{
    let mut out: Vec<SearchResult> = Vec::new();
    match raw {
        None => out,
        Some(v) => {
            let n = if v.len() <= MAX_RESULTS {
                v.len()
            } else {
                MAX_RESULTS
            };
            let mut i: usize = 0;
            while i < n
                invariant
                    n <= v@.len(),
                    i <= n,
                    out@.len() == i,
                    forall|k: int| 0 <= k < i ==> assembled(v@[k], #[trigger] out@[k]),
                decreases n - i,
            {
                let title = v[i].title.clone();
                let url = v[i].url.clone();
                let description = match &v[i].description {
                    Some(d) => d.clone(),
                    None => no_description_text(),
                };
                out.push(SearchResult { title, url, description });
                i = i + 1;
            }
            out
        },
    }
}

} // verus!
