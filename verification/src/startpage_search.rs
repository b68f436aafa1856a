//! Validation and assembly of results scraped from a Startpage page.
//!
//! The caller walks the page's DOM and hands over plain candidate rows
//! (title, URL, and possibly a description found nearby); everything that
//! decides -- which candidates are valid results, deduplication, the skip
//! patterns, the result cap -- is verified here.

use vstd::prelude::*;

use crate::prefetch::char_alphanumeric;
use crate::search::SearchResult;
use crate::text::{contains_sub, has_prefix, has_sub, starts_with_chars, str_chars};

verus! {

/// Maximum number of search results to fetch.
pub const MAX_RESULTS: usize = 10;

/// Minimum title length (in characters) to consider valid.
pub const MIN_TITLE_LENGTH: usize = 5;

/// Maximum title length, to avoid capturing navigation elements.
pub const MAX_TITLE_LENGTH: usize = 200;

/// The request URL for a search, in English.
pub fn startpage_search_url(query: &str) -> (r: String)
    ensures
        r@ == "https://www.startpage.com/sp/search?q="@ + crate::search::percent_encoded(query@)
            + "&language=english"@,
{
    let mut url = String::from_str("https://www.startpage.com/sp/search?q=");
    let q = crate::search::encode_query(query);
    url.append(q.as_str());
    url.append("&language=english");
    url
}

/// The lowercasing of a text, as `str::to_lowercase` computes it.
pub uninterp spec fn lower_of(s: Seq<char>) -> Seq<char>;

/// Relies on `str::to_lowercase`: the Unicode lowercase mapping of the
/// text, a function of its characters alone.
#[verifier::external_body]
fn to_lowercase(s: &str) -> (r: String)
    ensures
        r@ == lower_of(s@),
        s@.len() == 0 ==> r@.len() == 0,
{
    s.to_lowercase()
}

/// How often `c` occurs in `s`.
pub open spec fn count_char(s: Seq<char>, c: char) -> int
    decreases s.len(),
{
    if s.len() == 0 {
        0
    } else {
        count_char(s.drop_last(), c) + if s.last() == c {
            1int
        } else {
            0int
        }
    }
}

/// How many characters of `s` are alphanumeric.
pub open spec fn count_alnum(s: Seq<char>) -> int
    decreases s.len(),
{
    if s.len() == 0 {
        0
    } else {
        count_alnum(s.drop_last()) + if char_alphanumeric(s.last()) {
            1int
        } else {
            0int
        }
    }
}

fn count_char_exec(v: &Vec<char>, c: char) -> (r: usize)
    ensures
        r == count_char(v@, c),
        r <= v@.len(),
{
    let mut r: usize = 0;
    let mut i: usize = 0;
    while i < v.len()
        invariant
            i <= v@.len(),
            r <= i,
            r == count_char(v@.subrange(0, i as int), c),
        decreases v@.len() - i,
    {
        if v[i] == c {
            r = r + 1;
        }
        i = i + 1;
        proof {
            let pfx = v@.subrange(0, i as int);
            assert(pfx.drop_last() =~= v@.subrange(0, i - 1));
            assert(pfx.last() == v@[i - 1]);
        }
    }
    proof {
        assert(v@.subrange(0, v@.len() as int) =~= v@);
    }
    r
}

fn count_alnum_exec(v: &Vec<char>) -> (r: usize)
    ensures
        r == count_alnum(v@),
        r <= v@.len(),
{
    let mut r: usize = 0;
    let mut i: usize = 0;
    while i < v.len()
        invariant
            i <= v@.len(),
            r <= i,
            r == count_alnum(v@.subrange(0, i as int)),
        decreases v@.len() - i,
    {
        if v[i].is_alphanumeric() {
            r = r + 1;
        }
        i = i + 1;
        proof {
            let pfx = v@.subrange(0, i as int);
            assert(pfx.drop_last() =~= v@.subrange(0, i - 1));
            assert(pfx.last() == v@[i - 1]);
        }
    }
    proof {
        assert(v@.subrange(0, v@.len() as int) =~= v@);
    }
    r
}

/// The title looks like CSS or code.
pub open spec fn css_like(t: Seq<char>) -> bool {
    ||| has_sub(t, "{"@)
    ||| has_sub(t, "}"@)
    ||| has_sub(t, ":"@)
    ||| has_sub(t, ";"@)
    ||| has_sub(t, "px"@)
    ||| has_sub(t, "rem"@)
    ||| has_sub(t, "rgb"@)
    ||| has_sub(t, "rgba"@)
    ||| has_sub(t, "var("@)
}

/// The lowercased title is exactly a navigation keyword.
pub open spec fn nav_title(lower: Seq<char>) -> bool {
    ||| lower == "home"@
    ||| lower == "login"@
    ||| lower == "sign in"@
    ||| lower == "sign up"@
    ||| lower == "privacy"@
    ||| lower == "terms"@
    ||| lower == "cookie"@
    ||| lower == "settings"@
}

/// The URL belongs to a domain that is never a result.
pub open spec fn skip_domain(u: Seq<char>) -> bool {
    ||| has_sub(u, "startpage.com"@)
    ||| has_sub(u, "facebook.com/login"@)
    ||| has_sub(u, "twitter.com/login"@)
    ||| has_sub(u, "linkedin.com/login"@)
}

/// A title and URL that together look like a valid search result: the
/// title is neither too short nor too long, is not itself a URL, is not
/// mostly dots, does not look like CSS or code, has enough alphanumeric
/// characters, and is no bare navigation keyword; the URL is absolute
/// `http(s)` and not on a skipped domain.
pub open spec fn is_valid_spec(title: Seq<char>, url: Seq<char>) -> bool {
    &&& MIN_TITLE_LENGTH <= title.len() <= MAX_TITLE_LENGTH
    &&& !has_prefix(title, "http"@)
    &&& count_char(title, '.') <= title.len() as int / 3
    &&& !css_like(title)
    &&& count_char(title, '{') + count_char(title, '}') + count_char(title, ';') <= 2
    &&& count_alnum(title) >= MIN_TITLE_LENGTH
    &&& !nav_title(lower_of(title))
    &&& (has_prefix(url, "http://"@) || has_prefix(url, "https://"@))
    &&& !skip_domain(url)
}

/// Whether the title and URL look like a valid search result.
pub fn is_valid_result(title: &str, url: &str) -> (r: bool)
    ensures
        r == is_valid_spec(title@, url@),
{
    let t = str_chars(title);
    let u = str_chars(url);
    if t.len() < MIN_TITLE_LENGTH || t.len() > MAX_TITLE_LENGTH {
        return false;
    }
    if starts_with_chars(&t, &str_chars("http")) {
        return false;
    }
    if count_char_exec(&t, '.') > t.len() / 3 {
        return false;
    }
    if contains_sub(&t, &str_chars("{")) || contains_sub(&t, &str_chars("}")) || contains_sub(
        &t,
        &str_chars(":"),
    ) || contains_sub(&t, &str_chars(";")) || contains_sub(&t, &str_chars("px")) || contains_sub(
        &t,
        &str_chars("rem"),
    ) || contains_sub(&t, &str_chars("rgb")) || contains_sub(&t, &str_chars("rgba"))
        || contains_sub(&t, &str_chars("var(")) {
        return false;
    }
    let braces = count_char_exec(&t, '{');
    let closes = count_char_exec(&t, '}');
    let semis = count_char_exec(&t, ';');
    if braces + closes + semis > 2 {
        return false;
    }
    if count_alnum_exec(&t) < MIN_TITLE_LENGTH {
        return false;
    }
    let lower = to_lowercase(title);
    if lower == String::from_str("home") || lower == String::from_str("login") || lower
        == String::from_str("sign in") || lower == String::from_str("sign up") || lower
        == String::from_str("privacy") || lower == String::from_str("terms") || lower
        == String::from_str("cookie") || lower == String::from_str("settings") {
        return false;
    }
    if !(starts_with_chars(&u, &str_chars("http://")) || starts_with_chars(
        &u,
        &str_chars("https://"),
    )) {
        return false;
    }
    if contains_sub(&u, &str_chars("startpage.com")) || contains_sub(
        &u,
        &str_chars("facebook.com/login"),
    ) || contains_sub(&u, &str_chars("twitter.com/login")) || contains_sub(
        &u,
        &str_chars("linkedin.com/login"),
    ) {
        return false;
    }
    true
}

/// The description given to a candidate that arrived without one.
pub open spec fn no_description_available() -> Seq<char> {
    "No description available"@
}

/// The URLs seen so far, as a set of their texts.
pub open spec fn urls_set(v: Seq<String>) -> Set<Seq<char>> {
    Set::new(|x: Seq<char>| exists|i: int| 0 <= i < v.len() && v[i]@ == x)
}

proof fn lemma_urls_set_push(v: Seq<String>, s: String)
    ensures
        urls_set(v.push(s)) =~= urls_set(v).insert(s@),
{
    assert forall|x: Seq<char>| urls_set(v).insert(s@).contains(x) implies urls_set(
        v.push(s),
    ).contains(x) by {
        if x == s@ {
            assert(v.push(s)[v.len() as int]@ == x);
        } else {
            let i = choose|i: int| 0 <= i < v.len() && v[i]@ == x;
            assert(v.push(s)[i]@ == x);
        }
    }
    assert forall|x: Seq<char>| urls_set(v.push(s)).contains(x) implies urls_set(v).insert(
        s@,
    ).contains(x) by {
        let i = choose|i: int| 0 <= i < v.push(s).len() && v.push(s)[i]@ == x;
        if i < v.len() {
            assert(v[i]@ == x);
        }
    }
}

fn contains_url(seen: &Vec<String>, u: &String) -> (r: bool)
    ensures
        r == urls_set(seen@).contains(u@),
{
    let n = seen.len();
    let mut i: usize = 0;
    while i < n
        invariant
            n == seen@.len(),
            i <= n,
            forall|k: int| 0 <= k < i ==> (#[trigger] seen@[k])@ != u@,
        decreases n - i,
    {
        if seen[i] == *u {
            assert(urls_set(seen@).contains(u@));
            return true;
        }
        i = i + 1;
    }
    false
}

/// The results assembled from candidate rows, from the front: rows with
/// an already-seen URL are dropped, an invalid row marks its URL seen and
/// is dropped, a valid row is kept, and assembly stops at `MAX_RESULTS`.
pub open spec fn cand_rows(
    rows: Seq<(Seq<char>, Seq<char>, Seq<char>)>,
    seen: Set<Seq<char>>,
    count: int,
) -> Seq<(Seq<char>, Seq<char>, Seq<char>)>
    decreases rows.len(),
{
    if rows.len() == 0 || count >= MAX_RESULTS {
        Seq::empty()
    } else {
        let row = rows[0];
        if seen.contains(row.1) {
            cand_rows(rows.drop_first(), seen, count)
        } else if !is_valid_spec(row.0, row.1) {
            cand_rows(rows.drop_first(), seen.insert(row.1), count)
        } else {
            seq![row] + cand_rows(rows.drop_first(), seen.insert(row.1), count + 1)
        }
    }
}

/// Assemble candidate `(title, url, description)` rows into results:
/// deduplicated by URL, validated, and capped at `MAX_RESULTS`.
pub fn collect_candidate_results(rows: &Vec<(String, String, String)>) -> (r: Vec<SearchResult>)
    ensures
        r@.map_values(|sr: SearchResult| (sr.title@, sr.url@, sr.description@)) == cand_rows(
            rows@.map_values(|p: (String, String, String)| (p.0@, p.1@, p.2@)),
            Set::empty(),
            0,
        ),
        r@.len() <= MAX_RESULTS,
{
    let ghost all = rows@.map_values(|p: (String, String, String)| (p.0@, p.1@, p.2@));
    let n = rows.len();
    let mut out: Vec<SearchResult> = Vec::new();
    let mut seen: Vec<String> = Vec::new();
    let mut i: usize = 0;
    proof {
        assert(all.subrange(0, all.len() as int) =~= all);
        assert(urls_set(Seq::<String>::empty()) =~= Set::<Seq<char>>::empty());
        assert(Seq::<(Seq<char>, Seq<char>, Seq<char>)>::empty() + cand_rows(all, Set::empty(), 0)
            =~= cand_rows(all, Set::empty(), 0));
    }
    while i < n && out.len() < MAX_RESULTS
        invariant
            n == rows@.len(),
            all == rows@.map_values(|p: (String, String, String)| (p.0@, p.1@, p.2@)),
            i <= n,
            out@.len() <= MAX_RESULTS,
            cand_rows(all, Set::empty(), 0) == out@.map_values(
                |sr: SearchResult| (sr.title@, sr.url@, sr.description@),
            ) + cand_rows(
                all.subrange(i as int, n as int),
                urls_set(seen@),
                out@.len() as int,
            ),
        decreases n - i,
    {
        let ghost rest = all.subrange(i as int, n as int);
        proof {
            assert(rest[0] == all[i as int]);
            assert(rest.drop_first() =~= all.subrange(i + 1, n as int));
        }
        let url = &rows[i].1;
        if contains_url(&seen, url) {
            // Already seen: drop.
        } else {
            let ghost pre_seen = seen@;
            seen.push(url.clone());
            proof {
                lemma_urls_set_push(pre_seen, seen@.last());
            }
            if is_valid_result(rows[i].0.as_str(), rows[i].1.as_str()) {
                let title = rows[i].0.clone();
                let u = rows[i].1.clone();
                let description = rows[i].2.clone();
                let ghost pre_out = out@.map_values(
                    |sr: SearchResult| (sr.title@, sr.url@, sr.description@),
                );
                out.push(SearchResult { title, url: u, description });
                proof {
                    assert(out@.map_values(
                        |sr: SearchResult| (sr.title@, sr.url@, sr.description@),
                    ) =~= pre_out.push(all[i as int]));
                    assert(pre_out.push(all[i as int]) =~= pre_out + seq![all[i as int]]);
                }
            }
        }
        i = i + 1;
    }
    proof {
        if i == n {
            assert(all.subrange(n as int, n as int) =~= Seq::<(
                Seq<char>,
                Seq<char>,
                Seq<char>,
            )>::empty());
        }
        assert(out@.map_values(|sr: SearchResult| (sr.title@, sr.url@, sr.description@))
            + Seq::<(Seq<char>, Seq<char>, Seq<char>)>::empty() =~= out@.map_values(
            |sr: SearchResult| (sr.title@, sr.url@, sr.description@),
        ));
    }
    out
}

/// A URL matching a pattern that is never a search result on this page.
pub open spec fn skip_url(u: Seq<char>) -> bool {
    ||| has_sub(u, "startpage.com"@)
    ||| has_sub(u, "privacy"@)
    ||| has_sub(u, "cookie"@)
    ||| has_sub(u, "terms"@)
    ||| has_sub(u, "login"@)
    ||| has_sub(u, "signup"@)
}

/// The candidate rows of a list of page links: skipped URLs dropped, the
/// rest given the fixed description.
pub open spec fn generic_rows(links: Seq<(Seq<char>, Seq<char>)>) -> Seq<
    (Seq<char>, Seq<char>, Seq<char>),
>
    decreases links.len(),
{
    if links.len() == 0 {
        Seq::empty()
    } else {
        let rest = generic_rows(links.drop_last());
        if skip_url(links.last().1) {
            rest
        } else {
            rest.push((links.last().0, links.last().1, no_description_available()))
        }
    }
}

/// Assemble results from every external link of a page (the last-resort
/// strategy): links to skipped URL patterns are dropped, the rest are
/// deduplicated, validated and capped; the answer only counts when at
/// least three results remain.
pub fn collect_generic_links(links: &Vec<(String, String)>) -> (r: Option<Vec<SearchResult>>)
    ensures
        ({
            let assembled = cand_rows(
                generic_rows(links@.map_values(|p: (String, String)| (p.0@, p.1@))),
                Set::empty(),
                0,
            );
            match r {
                Some(v) => v@.map_values(|sr: SearchResult| (sr.title@, sr.url@, sr.description@))
                    == assembled && v@.len() >= 3,
                None => assembled.len() < 3,
            }
        }),
{
    let n = links.len();
    let mut rows: Vec<(String, String, String)> = Vec::new();
    let mut i: usize = 0;
    proof {
        assert(links@.subrange(0, 0) =~= Seq::<(String, String)>::empty());
        assert(rows@.map_values(|p: (String, String, String)| (p.0@, p.1@, p.2@))
            =~= generic_rows(links@.subrange(0, 0).map_values(
            |p: (String, String)| (p.0@, p.1@),
        )));
    }
    while i < n
        invariant
            n == links@.len(),
            i <= n,
            rows@.map_values(|p: (String, String, String)| (p.0@, p.1@, p.2@)) == generic_rows(
                links@.subrange(0, i as int).map_values(|p: (String, String)| (p.0@, p.1@)),
            ),
        decreases n - i,
    {
        let u = str_chars(links[i].1.as_str());
        if !(contains_sub(&u, &str_chars("startpage.com")) || contains_sub(
            &u,
            &str_chars("privacy"),
        ) || contains_sub(&u, &str_chars("cookie")) || contains_sub(&u, &str_chars("terms"))
            || contains_sub(&u, &str_chars("login")) || contains_sub(&u, &str_chars("signup"))) {
            let title = links[i].0.clone();
            let url = links[i].1.clone();
            let description = String::from_str("No description available");
            rows.push((title, url, description));
        }
        i = i + 1;
        proof {
            let pfx = links@.subrange(0, i as int).map_values(
                |p: (String, String)| (p.0@, p.1@),
            );
            assert(pfx.drop_last() =~= links@.subrange(0, i - 1).map_values(
                |p: (String, String)| (p.0@, p.1@),
            ));
            assert(pfx.last() == (links@[i - 1].0@, links@[i - 1].1@));
            assert(rows@.map_values(|p: (String, String, String)| (p.0@, p.1@, p.2@))
                =~= generic_rows(pfx));
        }
    }
    proof {
        assert(links@.subrange(0, n as int) =~= links@);
    }
    let results = collect_candidate_results(&rows);
    if results.len() >= 3 {
        Some(results)
    } else {
        None
    }
}

} // verus!
