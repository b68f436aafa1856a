//! Search through public SearXNG instances, with fallback.
//!
//! The caller performs the HTTP requests and decodes the JSON; the
//! instance list, the randomized attempt order, the request URLs, and the
//! assembly and filtering of the decoded rows are owned here.

use vstd::prelude::*;

use rand::seq::SliceRandom;

use crate::search::{no_description, no_description_text, percent_encoded, RawResult,
    SearchResult, encode_query};

verus! {

/// Maximum number of search results to fetch.
pub const MAX_RESULTS: usize = 10;

/// Maximum retry attempts across different instances.
pub const MAX_RETRY_ATTEMPTS: usize = 5;

/// The curated public instances tried for a search.
pub fn searxng_instances() -> (r: Vec<String>)
    ensures
        r@.len() == 5,
        r@[0]@ == "https://search.atlas.engineer"@,
        r@[1]@ == "https://searx.be"@,
        r@[2]@ == "https://searx.tiekoetter.com"@,
        r@[3]@ == "https://search.ononoki.org"@,
        r@[4]@ == "https://search.bus-hit.me"@,
{
    let mut v: Vec<String> = Vec::new();
    v.push(String::from_str("https://search.atlas.engineer"));
    v.push(String::from_str("https://searx.be"));
    v.push(String::from_str("https://searx.tiekoetter.com"));
    v.push(String::from_str("https://search.ononoki.org"));
    v.push(String::from_str("https://search.bus-hit.me"));
    v
}

/// Relies on rand's `SliceRandom::shuffle`: permutes the elements in
/// place; which permutation comes out depends on the random generator, so
/// only the multiset of elements is promised.
#[verifier::external_body]
pub(crate) fn shuffle_instances(v: Vec<String>) -> (r: Vec<String>)
    ensures
        r@.len() == v@.len(),
        r@.to_multiset() == v@.to_multiset(),
        r@.map_values(|s: String| s@).to_multiset() == v@.map_values(
            |s: String| s@,
        ).to_multiset(),
{
    let mut v = v;
    v.shuffle(&mut rand::rng());
    v
}

/// The instance texts, in curated order.
pub open spec fn instance_views() -> Seq<Seq<char>> {
    seq![
        "https://search.atlas.engineer"@,
        "https://searx.be"@,
        "https://searx.tiekoetter.com"@,
        "https://search.ononoki.org"@,
        "https://search.bus-hit.me"@,
    ]
}

/// The attempt order for one search: the curated instances in a random
/// order -- every instance exactly once -- each tried first with its
/// default engines, then with the fallback engines.
pub fn shuffled_attempt_plan() -> (r: Vec<(String, Option<String>)>)
    ensures
        r@.len() == 10,
        forall|i: int|
            0 <= i < 5 ==> ((#[trigger] r@[2 * i]).1 is None && r@[2 * i].0@ == r@[2 * i + 1].0@
                && (r@[2 * i + 1].1 matches Some(e) && e@ == fallback_engines())),
        Seq::new(5, |i: int| r@[2 * i].0@).to_multiset() == instance_views().to_multiset(),
{
    let base = searxng_instances();
    proof {
        assert(base@.map_values(|s: String| s@) =~= instance_views());
    }
    let shuffled = shuffle_instances(base);
    let plan = attempt_plan(&shuffled);
    proof {
        assert(Seq::new(5, |i: int| plan@[2 * i].0@) =~= shuffled@.map_values(|s: String| s@));
    }
    plan
}

/// The engines named on the second try against each instance.
pub open spec fn fallback_engines() -> Seq<char> {
    "duckduckgo,bing"@
}

/// The attempt order over (shuffled) instances: each of the first
/// `MAX_RETRY_ATTEMPTS` instances is tried once with the instance's
/// default engines, then once naming the fallback engines.
pub fn attempt_plan(instances: &Vec<String>) -> (r: Vec<(String, Option<String>)>)
    ensures
        ({
            let m = if instances@.len() <= MAX_RETRY_ATTEMPTS {
                instances@.len() as int
            } else {
                MAX_RETRY_ATTEMPTS as int
            };
            &&& r@.len() == 2 * m
            &&& forall|i: int|
                0 <= i < m ==> (#[trigger] r@[2 * i]).0@ == instances@[i]@ && r@[2 * i].1 is None
            &&& forall|i: int|
                0 <= i < m ==> ((#[trigger] r@[2 * i + 1]).0@ == instances@[i]@ && (r@[2 * i
                    + 1].1 matches Some(e) && e@ == fallback_engines()))
        }),
{
    let attempts = if instances.len() <= MAX_RETRY_ATTEMPTS {
        instances.len()
    } else {
        MAX_RETRY_ATTEMPTS
    };
    let mut r: Vec<(String, Option<String>)> = Vec::new();
    let mut i: usize = 0;
    while i < attempts
        invariant
            attempts <= instances@.len(),
            i <= attempts,
            r@.len() == 2 * i,
            forall|k: int|
                0 <= k < i ==> (#[trigger] r@[2 * k]).0@ == instances@[k]@ && r@[2 * k].1 is None,
            forall|k: int|
                0 <= k < i ==> ((#[trigger] r@[2 * k + 1]).0@ == instances@[k]@ && (r@[2 * k
                    + 1].1 matches Some(e) && e@ == fallback_engines())),
        decreases attempts - i,
    {
        r.push((instances[i].clone(), None));
        r.push((instances[i].clone(), Some(String::from_str("duckduckgo,bing"))));
        i = i + 1;
    }
    r
}

/// The request URL for one attempt against one instance.
pub fn searxng_search_url(instance: &str, query: &str, engines: Option<&String>) -> (r: String)
    ensures
        r@ == instance@ + "/search?q="@ + percent_encoded(query@)
            + "&format=json&categories=general"@ + (match engines {
            Some(e) => "&engines="@ + e@,
            None => Seq::<char>::empty(),
        }),
{
    let mut url = String::from_str(instance);
    url.append("/search?q=");
    let q = encode_query(query);
    url.append(q.as_str());
    url.append("&format=json&categories=general");
    match engines {
        Some(e) => {
            url.append("&engines=");
            url.append(e.as_str());
        },
        None => {},
    }
    url
}

/// A decoded row kept as a result: both its title and its URL are nonempty.
pub open spec fn searx_keep(raw: RawResult) -> bool {
    raw.title@.len() > 0 && raw.url@.len() > 0
}

/// The `(title, url, description)` rows assembled from decoded rows.
pub open spec fn searx_rows(s: Seq<RawResult>) -> Seq<(Seq<char>, Seq<char>, Seq<char>)>
    decreases s.len(),
{
    if s.len() == 0 {
        Seq::empty()
    } else {
        let rest = searx_rows(s.drop_last());
        let last = s.last();
        if searx_keep(last) {
            rest.push(
                (
                    last.title@,
                    last.url@,
                    match last.description {
                        Some(ref d) => d@,
                        None => no_description(),
                    },
                ),
            )
        } else {
            rest
        }
    }
}

/// Assemble the results of one instance's response: of the first
/// `MAX_RESULTS` decoded rows, those with a nonempty title and URL, with a
/// fixed text for a missing description. An empty answer makes the caller
/// try the next instance.
pub fn collect_searxng_results(raw: &Vec<RawResult>) -> (r: Vec<SearchResult>)
    ensures
        ({
            let capped = if raw@.len() <= MAX_RESULTS {
                raw@
            } else {
                raw@.subrange(0, MAX_RESULTS as int)
            };
            r@.map_values(|sr: SearchResult| (sr.title@, sr.url@, sr.description@)) == searx_rows(
                capped,
            )
        }),
{
    let n = if raw.len() <= MAX_RESULTS {
        raw.len()
    } else {
        MAX_RESULTS
    };
    proof {
        assert((if raw@.len() <= MAX_RESULTS {
            raw@
        } else {
            raw@.subrange(0, MAX_RESULTS as int)
        }) =~= raw@.subrange(0, n as int));
    }
    let mut out: Vec<SearchResult> = Vec::new();
    let mut i: usize = 0;
    proof {
        assert(raw@.subrange(0, 0) =~= Seq::<RawResult>::empty());
        assert(out@.map_values(|sr: SearchResult| (sr.title@, sr.url@, sr.description@))
            =~= searx_rows(raw@.subrange(0, 0)));
    }
    while i < n
        invariant
            n <= raw@.len(),
            i <= n,
            out@.map_values(|sr: SearchResult| (sr.title@, sr.url@, sr.description@))
                == searx_rows(raw@.subrange(0, i as int)),
        decreases n - i,
    {
        if !raw[i].title.as_str().is_empty() && !raw[i].url.as_str().is_empty() {
            let title = raw[i].title.clone();
            let url = raw[i].url.clone();
            let description = match &raw[i].description {
                Some(d) => d.clone(),
                None => no_description_text(),
            };
            out.push(SearchResult { title, url, description });
        }
        i = i + 1;
        proof {
            let pfx = raw@.subrange(0, i as int);
            assert(pfx.drop_last() =~= raw@.subrange(0, i - 1));
            assert(pfx.last() == raw@[i - 1]);
            assert(out@.map_values(|sr: SearchResult| (sr.title@, sr.url@, sr.description@))
                =~= searx_rows(pfx));
        }
    }
    proof {
        assert(raw@.subrange(0, n as int) =~= (if raw@.len() <= MAX_RESULTS {
            raw@
        } else {
            raw@.subrange(0, MAX_RESULTS as int)
        }));
    }
    out
}

} // verus!
