//! Background prefetch bookkeeping for search results.
//!
//! The manager tracks, per URL, the lifecycle of one prefetched page
//! (`Pending -> InProgress -> Ready | Cached | Failed | Timeout`), the
//! batch counters, cache-key derivation for artifact filenames, promotion
//! of artifacts from the staging directory to the promoted directory, and
//! the selection of expired artifacts for eviction.
//!
//! All filesystem and network work is done by the caller; this module owns
//! every decision: which URLs must be fetched, what each artifact is named,
//! which state each URL is in, which files to move or delete.

use vstd::prelude::*;

use crate::extract_clean_md::{
    extract_clean_markdown, formatted_markdown, markdown_of, readability_of, ContentView,
};
use crate::search::SearchResult;
use crate::text::{dec_str, has_prefix, str_chars, string_from_chars, usize_to_string};

verus! {

/// Maximum number of simultaneous fetches in one batch.
pub const CONCURRENT_LIMIT: usize = 12;

/// Per-page timeout in seconds (fail fast on slow sites).
pub const PAGE_TIMEOUT_SECS: u64 = 8;

/// Maximum cache age in days.
pub const CACHE_MAX_AGE_DAYS: u64 = 5;

/// Status of a prefetched page. Paths are plain strings.
#[derive(Debug, Clone, PartialEq)]
pub enum PrefetchStatus {
    /// Not yet started.
    Pending,
    /// Currently downloading/processing.
    InProgress,
    /// Successfully prefetched, file path stored.
    Ready(String),
    /// Already existed on disk (cached).
    Cached(String),
    /// Failed with error message.
    Failed(String),
    /// Timed out.
    Timeout,
}

/// Mathematical value of a `PrefetchStatus`.
pub enum StatusView {
    Pending,
    InProgress,
    Ready(Seq<char>),
    Cached(Seq<char>),
    Failed(Seq<char>),
    Timeout,
}

impl View for PrefetchStatus {
    type V = StatusView;

    open spec fn view(&self) -> StatusView {
        match self {
            PrefetchStatus::Pending => StatusView::Pending,
            PrefetchStatus::InProgress => StatusView::InProgress,
            PrefetchStatus::Ready(p) => StatusView::Ready(p@),
            PrefetchStatus::Cached(p) => StatusView::Cached(p@),
            PrefetchStatus::Failed(e) => StatusView::Failed(e@),
            PrefetchStatus::Timeout => StatusView::Timeout,
        }
    }
}

impl StatusView {
    /// A terminal state never changes again within a batch.
    pub open spec fn is_terminal(self) -> bool {
        match self {
            StatusView::Ready(_) => true,
            StatusView::Cached(_) => true,
            StatusView::Failed(_) => true,
            StatusView::Timeout => true,
            StatusView::Pending => false,
            StatusView::InProgress => false,
        }
    }
}

// ---------------------------------------------------------------------------
// Cache key derivation
// ---------------------------------------------------------------------------

/// The host part of `url` as the `url` crate parses it, or `None` where the
/// text is not an absolute URL or has no host.
pub uninterp spec fn url_host(url: Seq<char>) -> Option<Seq<char>>;

/// Relies on `url::Url::parse` and `url::Url::host_str`: the host of a
/// parsed URL, a function of the URL text alone; `None` when parsing fails
/// or the URL has no host.
#[verifier::external_body]
fn parse_url_host(url: &str) -> (r: Option<String>)
    ensures
        r is Some <==> url_host(url@) is Some,
        r matches Some(h) ==> url_host(url@) == Some(h@),
{
    match url::Url::parse(url) {
        Ok(u) => match u.host_str() {
            Some(h) => Some(h.to_string()),
            None => None,
        },
        Err(_) => None,
    }
}

/// Whether the `char` counts as alphanumeric for `char::is_alphanumeric`.
pub uninterp spec fn char_alphanumeric(c: char) -> bool;

/// Relies on `char::is_alphanumeric`: a pure character classification; of
/// the ASCII characters, exactly the letters and digits are alphanumeric.
pub assume_specification[ char::is_alphanumeric ](c: char) -> (r: bool)
    ensures
        r == char_alphanumeric(c),
        (97 <= c as u32 <= 122) || (65 <= c as u32 <= 90) || (48 <= c as u32 <= 57) ==> r,
        ((c as u32) < 128 && !((97 <= c as u32 <= 122) || (65 <= c as u32 <= 90) || (48 <= c
            as u32 <= 57))) ==> !r,
;

/// A character kept as itself by `sanitize_filename`.
pub open spec fn keep_char(c: char) -> bool {
    char_alphanumeric(c) || c == '-' || c == '_' || c == ' '
}

/// A separator that `sanitize_filename` collapses.
pub open spec fn is_sep(c: char) -> bool {
    c == ' ' || c == '_'
}

/// First pass of sanitizing: anything not kept becomes `_`.
pub open spec fn map_safe(s: Seq<char>) -> Seq<char> {
    s.map_values(|c: char| if keep_char(c) { c } else { '_' })
}

/// Second pass: runs of separators collapse to a single `_`; `prev_sep`
/// says whether the previous emitted character was a separator.
pub open spec fn collapse_from(s: Seq<char>, prev_sep: bool) -> Seq<char>
    decreases s.len(),
{
    if s.len() == 0 {
        Seq::empty()
    } else {
        let c = s[0];
        if is_sep(c) {
            if prev_sep {
                collapse_from(s.drop_first(), true)
            } else {
                seq!['_'] + collapse_from(s.drop_first(), true)
            }
        } else {
            seq![c] + collapse_from(s.drop_first(), false)
        }
    }
}

/// Third pass: trailing underscores are removed.
pub open spec fn trim_tail(s: Seq<char>) -> Seq<char>
    decreases s.len(),
{
    if s.len() > 0 && s.last() == '_' {
        trim_tail(s.drop_last())
    } else {
        s
    }
}

/// What `sanitize_filename` returns.
pub open spec fn sanitize_spec(s: Seq<char>) -> Seq<char> {
    trim_tail(collapse_from(map_safe(s), false))
}

/// Create a safe filename fragment from a title: non-filename characters
/// become `_`, separator runs collapse, trailing separators are trimmed.
pub fn sanitize_filename(title: &str) -> (r: String)
    ensures
        r@ == sanitize_spec(title@),
{
    let chars = str_chars(title);
    // First pass: map unsafe characters to '_'.
    let mut safe: Vec<char> = Vec::new();
    let mut i: usize = 0;
    while i < chars.len()
        invariant
            i <= chars@.len(),
            safe@ == map_safe(chars@.subrange(0, i as int)),
        decreases chars@.len() - i,
    {
        let c = chars[i];
        if c.is_alphanumeric() || c == '-' || c == '_' || c == ' ' {
            safe.push(c);
        } else {
            safe.push('_');
        }
        i = i + 1;
        proof {
            assert(safe@ =~= map_safe(chars@.subrange(0, i as int)));
        }
    }
    proof {
        assert(chars@.subrange(0, chars@.len() as int) =~= chars@);
    }
    // Second pass: collapse separator runs.
    let mut out: Vec<char> = Vec::new();
    let mut prev_sep = false;
    let mut j: usize = 0;
    proof {
        assert(safe@.subrange(0, safe@.len() as int) =~= safe@);
        assert(Seq::<char>::empty() + collapse_from(safe@, false) =~= collapse_from(
            safe@,
            false,
        ));
    }
    while j < safe.len()
        invariant
            j <= safe@.len(),
            collapse_from(safe@, false) == out@ + collapse_from(
                safe@.subrange(j as int, safe@.len() as int),
                prev_sep,
            ),
        decreases safe@.len() - j,
    {
        let ghost rest = safe@.subrange(j as int, safe@.len() as int);
        proof {
            assert(rest[0] == safe@[j as int]);
            assert(rest.drop_first() =~= safe@.subrange(j + 1, safe@.len() as int));
        }
        let c = safe[j];
        if c == ' ' || c == '_' {
            if !prev_sep {
                out.push('_');
                prev_sep = true;
            }
        } else {
            out.push(c);
            prev_sep = false;
        }
        j = j + 1;
    }
    proof {
        assert(safe@.subrange(safe@.len() as int, safe@.len() as int) =~= Seq::<char>::empty());
        assert(out@ + Seq::<char>::empty() =~= out@);
    }
    // Third pass: trim trailing underscores.
    while out.len() > 0 && out[out.len() - 1] == '_'
        invariant
            trim_tail(out@) == trim_tail(collapse_from(map_safe(title@), false)),
        decreases out@.len(),
    {
        proof {
            assert(out@.drop_last() =~= out@.subrange(0, out@.len() - 1));
        }
        out.pop();
    }
    proof {
        assert(trim_tail(out@) == out@);
    }
    string_from_chars(&out)
}

/// One step of the 32-bit FNV-1a-style hash over characters.
pub open spec fn fnv_step(h: u32, c: char) -> u32 {
    (((h ^ (c as u32)) as nat * 16777619nat) % 0x1_0000_0000nat) as u32
}

/// A 32-bit hash of a character sequence, used for short cache-key hashes.
/// Deterministic across runs and machines, so cache hits survive restarts.
pub open spec fn fnv1a(s: Seq<char>) -> u32
    decreases s.len(),
{
    if s.len() == 0 {
        0x811c9dc5u32
    } else {
        fnv_step(fnv1a(s.drop_last()), s.last())
    }
}

/// The lowercase hex character for a nibble.
pub open spec fn hex_char(d: u32) -> char
    recommends
        d < 16,
{
    if d == 0 {
        '0'
    } else if d == 1 {
        '1'
    } else if d == 2 {
        '2'
    } else if d == 3 {
        '3'
    } else if d == 4 {
        '4'
    } else if d == 5 {
        '5'
    } else if d == 6 {
        '6'
    } else if d == 7 {
        '7'
    } else if d == 8 {
        '8'
    } else if d == 9 {
        '9'
    } else if d == 10 {
        'a'
    } else if d == 11 {
        'b'
    } else if d == 12 {
        'c'
    } else if d == 13 {
        'd'
    } else if d == 14 {
        'e'
    } else {
        'f'
    }
}

/// Eight lowercase hex digits of a 32-bit value, most significant first.
pub open spec fn hex8(h: u32) -> Seq<char> {
    seq![
        hex_char((h >> 28u32) & 0xfu32),
        hex_char((h >> 24u32) & 0xfu32),
        hex_char((h >> 20u32) & 0xfu32),
        hex_char((h >> 16u32) & 0xfu32),
        hex_char((h >> 12u32) & 0xfu32),
        hex_char((h >> 8u32) & 0xfu32),
        hex_char((h >> 4u32) & 0xfu32),
        hex_char(h & 0xfu32),
    ]
}

fn hex_char_exec(d: u32) -> (c: char)
    requires
        d < 16,
    ensures
        c == hex_char(d),
{
    if d == 0 {
        '0'
    } else if d == 1 {
        '1'
    } else if d == 2 {
        '2'
    } else if d == 3 {
        '3'
    } else if d == 4 {
        '4'
    } else if d == 5 {
        '5'
    } else if d == 6 {
        '6'
    } else if d == 7 {
        '7'
    } else if d == 8 {
        '8'
    } else if d == 9 {
        '9'
    } else if d == 10 {
        'a'
    } else if d == 11 {
        'b'
    } else if d == 12 {
        'c'
    } else if d == 13 {
        'd'
    } else if d == 14 {
        'e'
    } else {
        'f'
    }
}

fn hash_hex(s: &Vec<char>) -> (r: Vec<char>)
    ensures
        r@ == hex8(fnv1a(s@)),
{
    let mut h: u32 = 0x811c9dc5;
    let mut i: usize = 0;
    while i < s.len()
        invariant
            i <= s@.len(),
            h == fnv1a(s@.subrange(0, i as int)),
        decreases s@.len() - i,
    {
        let x = h ^ (s[i] as u32);
        h = x.wrapping_mul(16777619);
        i = i + 1;
        proof {
            let pre = s@.subrange(0, i as int);
            assert(pre.drop_last() =~= s@.subrange(0, i - 1));
            assert(pre.last() == s@[i - 1]);
        }
    }
    proof {
        assert(s@.subrange(0, s@.len() as int) =~= s@);
    }
    proof {
        assert((h >> 28u32) & 0xfu32 < 16 && (h >> 24u32) & 0xfu32 < 16 && (h >> 20u32) & 0xfu32
            < 16 && (h >> 16u32) & 0xfu32 < 16 && (h >> 12u32) & 0xfu32 < 16 && (h >> 8u32)
            & 0xfu32 < 16 && (h >> 4u32) & 0xfu32 < 16 && h & 0xfu32 < 16) by (bit_vector);
    }
    let mut r: Vec<char> = Vec::new();
    r.push(hex_char_exec((h >> 28) & 0xf));
    r.push(hex_char_exec((h >> 24) & 0xf));
    r.push(hex_char_exec((h >> 20) & 0xf));
    r.push(hex_char_exec((h >> 16) & 0xf));
    r.push(hex_char_exec((h >> 12) & 0xf));
    r.push(hex_char_exec((h >> 8) & 0xf));
    r.push(hex_char_exec((h >> 4) & 0xf));
    r.push(hex_char_exec(h & 0xf));
    proof {
        assert(r@ =~= hex8(fnv1a(s@)));
    }
    r
}

/// The literal prefix `www.`.
pub open spec fn www_prefix() -> Seq<char> {
    seq!['w', 'w', 'w', '.']
}

/// `www.` prefixes stripped, repeatedly, from the front.
pub open spec fn strip_www(s: Seq<char>) -> Seq<char>
    decreases s.len(),
{
    if s.len() >= 4 && s.subrange(0, 4) == www_prefix() {
        strip_www(s.subrange(4, s.len() as int))
    } else {
        s
    }
}

/// Dots replaced by underscores.
pub open spec fn dots_to_underscores(s: Seq<char>) -> Seq<char> {
    s.map_values(|c: char| if c == '.' { '_' } else { c })
}

/// The cleaned domain part of a filename: the host with leading `www.`
/// stripped and dots replaced, or `unknown` when the URL has no host.
pub open spec fn domain_part(host: Option<Seq<char>>) -> Seq<char> {
    match host {
        Some(h) => dots_to_underscores(strip_www(h)),
        None => seq!['u', 'n', 'k', 'n', 'o', 'w', 'n'],
    }
}

/// The derived artifact filename: `{domain}_{hash}_{title}.md`, with the
/// title sanitized and capped at 30 characters.
pub open spec fn filename_spec(url: Seq<char>, title: Seq<char>) -> Seq<char> {
    let t = sanitize_spec(title);
    let t30 = if t.len() <= 30 {
        t
    } else {
        t.subrange(0, 30)
    };
    domain_part(url_host(url)) + seq!['_'] + hex8(fnv1a(url)) + seq!['_'] + t30 + seq![
        '.',
        'm',
        'd',
    ]
}

fn strip_www_exec(host: Vec<char>) -> (r: Vec<char>)
    ensures
        r@ == strip_www(host@),
{
    let mut v = host;
    loop
        invariant
            strip_www(v@) == strip_www(host@),
        decreases v@.len(),
    {
        if v.len() >= 4 && v[0] == 'w' && v[1] == 'w' && v[2] == 'w' && v[3] == '.' {
            proof {
                assert(v@.subrange(0, 4) =~= www_prefix());
            }
            let mut rest: Vec<char> = Vec::new();
            let mut i: usize = 4;
            while i < v.len()
                invariant
                    4 <= i <= v@.len(),
                    rest@ == v@.subrange(4, i as int),
                decreases v@.len() - i,
            {
                rest.push(v[i]);
                i = i + 1;
                proof {
                    assert(rest@ =~= v@.subrange(4, i as int));
                }
            }
            proof {
                assert(rest@ =~= v@.subrange(4, v@.len() as int));
            }
            v = rest;
        } else {
            proof {
                if v@.len() >= 4 {
                    assert(v@.subrange(0, 4) != www_prefix() ==> strip_www(v@) == v@);
                    if v@.subrange(0, 4) == www_prefix() {
                        assert(v@[0] == 'w' && v@[1] == 'w' && v@[2] == 'w' && v@[3] == '.');
                    }
                }
            }
            return v;
        }
    }
}

/// Generate the deterministic artifact filename for a URL and title.
///
/// Format: `{domain}_{hash}_{title}.md`, where the domain comes from the
/// URL's host (`unknown` if it has none), the hash is eight hex digits of
/// a 32-bit hash of the whole URL, and the title is sanitized and capped
/// at 30 characters.
pub fn url_to_filename(url: &str, title: &str) -> (r: String)
    ensures
        r@ == filename_spec(url@, title@),
{
    let host = parse_url_host(url);
    let domain: Vec<char> = match host {
        Some(h) => {
            let hc = str_chars(h.as_str());
            let stripped = strip_www_exec(hc);
            let mut d: Vec<char> = Vec::new();
            let mut i: usize = 0;
            while i < stripped.len()
                invariant
                    i <= stripped@.len(),
                    d@ == dots_to_underscores(stripped@.subrange(0, i as int)),
                decreases stripped@.len() - i,
            {
                let c = stripped[i];
                if c == '.' {
                    d.push('_');
                } else {
                    d.push(c);
                }
                i = i + 1;
                proof {
                    assert(d@ =~= dots_to_underscores(stripped@.subrange(0, i as int)));
                }
            }
            proof {
                assert(stripped@.subrange(0, stripped@.len() as int) =~= stripped@);
            }
            d
        },
        None => {
            let mut d: Vec<char> = Vec::new();
            d.push('u');
            d.push('n');
            d.push('k');
            d.push('n');
            d.push('o');
            d.push('w');
            d.push('n');
            proof {
                assert(d@ =~= seq!['u', 'n', 'k', 'n', 'o', 'w', 'n']);
            }
            d
        },
    };
    let url_chars = str_chars(url);
    let hash = hash_hex(&url_chars);
    let safe_title = sanitize_filename(title);
    let title_chars = str_chars(safe_title.as_str());
    let mut out: Vec<char> = domain;
    out.push('_');
    let mut i: usize = 0;
    while i < hash.len()
        invariant
            i <= hash@.len(),
            out@ == domain_part(url_host(url@)) + seq!['_'] + hash@.subrange(0, i as int),
            hash@ == hex8(fnv1a(url@)),
        decreases hash@.len() - i,
    {
        out.push(hash[i]);
        i = i + 1;
        proof {
            assert(out@ =~= domain_part(url_host(url@)) + seq!['_'] + hash@.subrange(
                0,
                i as int,
            ));
        }
    }
    proof {
        assert(hash@.subrange(0, hash@.len() as int) =~= hash@);
    }
    out.push('_');
    let tlen = if title_chars.len() <= 30 {
        title_chars.len()
    } else {
        30
    };
    let mut j: usize = 0;
    let ghost mid = out@;
    while j < tlen
        invariant
            j <= tlen,
            tlen <= title_chars@.len(),
            out@ == mid + title_chars@.subrange(0, j as int),
        decreases tlen - j,
    {
        out.push(title_chars[j]);
        j = j + 1;
        proof {
            assert(out@ =~= mid + title_chars@.subrange(0, j as int));
        }
    }
    out.push('.');
    out.push('m');
    out.push('d');
    proof {
        assert(out@ =~= filename_spec(url@, title@));
    }
    string_from_chars(&out)
}

// ---------------------------------------------------------------------------
// The status table and its model
// ---------------------------------------------------------------------------

/// One table row: a URL and its status.
pub type TableEntry = (Seq<char>, StatusView);

/// First-match lookup of a URL in a table.
pub open spec fn lookup(t: Seq<TableEntry>, url: Seq<char>) -> Option<StatusView>
    decreases t.len(),
{
    if t.len() == 0 {
        None
    } else if t[0].0 == url {
        Some(t[0].1)
    } else {
        lookup(t.drop_first(), url)
    }
}

/// The status a caller observes for a URL: the table row if there is one,
/// `Pending` otherwise, so the table is total over URLs.
pub open spec fn observed_status(t: Seq<TableEntry>, url: Seq<char>) -> StatusView {
    match lookup(t, url) {
        Some(s) => s,
        None => StatusView::Pending,
    }
}

/// No two rows share a URL.
pub open spec fn distinct_keys(t: Seq<TableEntry>) -> bool {
    forall|i: int, j: int| 0 <= i < j < t.len() ==> (#[trigger] t[i]).0 != (#[trigger] t[j]).0
}

/// How many rows are in a terminal state.
pub open spec fn count_terminal(t: Seq<TableEntry>) -> int
    decreases t.len(),
{
    if t.len() == 0 {
        0
    } else {
        count_terminal(t.drop_last()) + if t.last().1.is_terminal() {
            1int
        } else {
            0int
        }
    }
}

/// How many rows are `InProgress`.
pub open spec fn count_in_progress(t: Seq<TableEntry>) -> int
    decreases t.len(),
{
    if t.len() == 0 {
        0
    } else {
        count_in_progress(t.drop_last()) + if t.last().1 is InProgress {
            1int
        } else {
            0int
        }
    }
}

pub proof fn lemma_count_bounds(t: Seq<TableEntry>)
    ensures
        0 <= count_terminal(t) <= t.len(),
        0 <= count_in_progress(t) <= t.len(),
        count_terminal(t) + count_in_progress(t) <= t.len(),
    decreases t.len(),
{
    if t.len() > 0 {
        lemma_count_bounds(t.drop_last());
    }
}

/// A matching row at index `i`, with no earlier match, is what lookup finds.
pub proof fn lemma_lookup_at(t: Seq<TableEntry>, url: Seq<char>, i: int)
    requires
        0 <= i < t.len(),
        t[i].0 == url,
        forall|k: int| 0 <= k < i ==> (#[trigger] t[k]).0 != url,
    ensures
        lookup(t, url) == Some(t[i].1),
    decreases i,
{
    if i > 0 {
        lemma_lookup_at(t.drop_first(), url, i - 1);
    }
}

/// A URL in no row is not found.
pub proof fn lemma_lookup_absent(t: Seq<TableEntry>, url: Seq<char>)
    requires
        forall|k: int| 0 <= k < t.len() ==> (#[trigger] t[k]).0 != url,
    ensures
        lookup(t, url) is None,
    decreases t.len(),
{
    if t.len() > 0 {
        lemma_lookup_absent(t.drop_first(), url);
    }
}

/// Updating row `i` without changing its URL changes the lookup of that URL
/// and of no other.
pub proof fn lemma_lookup_update(t: Seq<TableEntry>, i: int, e: TableEntry, url: Seq<char>)
    requires
        0 <= i < t.len(),
        e.0 == t[i].0,
    ensures
        t[i].0 == url && (forall|k: int| 0 <= k < i ==> (#[trigger] t[k]).0 != url) ==> lookup(
            t.update(i, e),
            url,
        ) == Some(e.1),
        url != t[i].0 ==> lookup(t.update(i, e), url) == lookup(t, url),
    decreases t.len(),
{
    if t.len() > 0 {
        if i == 0 {
            assert(t.update(0, e).drop_first() =~= t.drop_first());
        } else {
            assert(t.update(i, e).drop_first() =~= t.drop_first().update(i - 1, e));
            lemma_lookup_update(t.drop_first(), i - 1, e, url);
        }
    }
}

/// Updating one row changes each count by the weight difference of that row.
pub proof fn lemma_count_update(t: Seq<TableEntry>, i: int, e: TableEntry)
    requires
        0 <= i < t.len(),
    ensures
        count_terminal(t.update(i, e)) == count_terminal(t) + (if e.1.is_terminal() {
            1int
        } else {
            0int
        }) - (if t[i].1.is_terminal() {
            1int
        } else {
            0int
        }),
        count_in_progress(t.update(i, e)) == count_in_progress(t) + (if e.1 is InProgress {
            1int
        } else {
            0int
        }) - (if t[i].1 is InProgress {
            1int
        } else {
            0int
        }),
    decreases t.len(),
{
    if i == t.len() - 1 {
        assert(t.update(i, e).drop_last() =~= t.drop_last());
        assert(t.update(i, e).last() == e);
    } else {
        assert(t.update(i, e).drop_last() =~= t.drop_last().update(i, e));
        assert(t.update(i, e).last() == t.last());
        lemma_count_update(t.drop_last(), i, e);
    }
}

/// `dir` and `name` joined with a slash.
pub open spec fn path_join(dir: Seq<char>, name: Seq<char>) -> Seq<char> {
    dir + seq!['/'] + name
}

fn path_join_exec(dir: &String, name: &str) -> (r: String)
    ensures
        r@ == path_join(dir@, name@),
{
    let mut v = str_chars(dir.as_str());
    v.push('/');
    let n = str_chars(name);
    let mut i: usize = 0;
    let ghost base = v@;
    while i < n.len()
        invariant
            i <= n@.len(),
            v@ == base + n@.subrange(0, i as int),
        decreases n@.len() - i,
    {
        v.push(n[i]);
        i = i + 1;
        proof {
            assert(v@ =~= base + n@.subrange(0, i as int));
        }
    }
    proof {
        assert(n@.subrange(0, n@.len() as int) =~= n@);
        assert(v@ =~= path_join(dir@, name@));
    }
    string_from_chars(&v)
}

/// The characters after the last slash, or the whole text if it has none.
pub open spec fn after_last_slash(s: Seq<char>) -> Seq<char>
    decreases s.len(),
{
    if s.len() == 0 {
        s
    } else if s.last() == '/' {
        Seq::empty()
    } else {
        after_last_slash(s.drop_last()).push(s.last())
    }
}

fn file_name_of(path: &String) -> (r: Vec<char>)
    ensures
        r@ == after_last_slash(path@),
{
    let chars = str_chars(path.as_str());
    let n = chars.len();
    // Find the position just after the last slash.
    let mut start: usize = n;
    while start > 0 && chars[start - 1] != '/'
        invariant
            start <= n,
            n == chars@.len(),
            forall|k: int| start <= k < n ==> chars@[k] != '/',
        decreases start,
    {
        start = start - 1;
    }
    let mut out: Vec<char> = Vec::new();
    let mut i: usize = start;
    while i < n
        invariant
            start <= i <= n,
            n == chars@.len(),
            out@ == chars@.subrange(start as int, i as int),
        decreases n - i,
    {
        out.push(chars[i]);
        i = i + 1;
        proof {
            assert(out@ =~= chars@.subrange(start as int, i as int));
        }
    }
    proof {
        lemma_after_last_slash(chars@, start as int);
    }
    out
}

proof fn lemma_after_last_slash(s: Seq<char>, start: int)
    requires
        0 <= start <= s.len(),
        start > 0 ==> s[start - 1] == '/',
        forall|k: int| start <= k < s.len() ==> s[k] != '/',
    ensures
        after_last_slash(s) == s.subrange(start, s.len() as int),
    decreases s.len(),
{
    if s.len() == 0 {
        assert(s.subrange(0, 0) =~= s);
    } else if s.last() == '/' {
        assert(start == s.len());
        assert(s.subrange(start, s.len() as int) =~= Seq::<char>::empty());
    } else {
        assert(start < s.len());
        lemma_after_last_slash(s.drop_last(), start);
        assert(s.subrange(start, s.len() as int) =~= s.subrange(start, s.len() - 1).push(
            s.last(),
        ));
        assert(s.drop_last().subrange(start, s.len() - 1) =~= s.subrange(start, s.len() - 1));
    }
}

// ---------------------------------------------------------------------------
// The prefetch manager
// ---------------------------------------------------------------------------

/// What a caller found on disk for one result's cache key before submitting.
#[derive(Debug, Clone, Copy, PartialEq, Eq, Structural)]
pub struct CacheProbe {
    /// An artifact with this key exists in the promoted directory.
    pub in_promoted: bool,
    /// An artifact with this key exists in the staging directory.
    pub in_staging: bool,
}

impl CacheProbe {
    /// The probe found an artifact somewhere.
    pub open spec fn hit(self) -> bool {
        self.in_promoted || self.in_staging
    }
}

/// How one fetch task ended.
#[derive(Debug)]
pub enum FetchOutcome {
    /// The pipeline wrote the artifact at this path.
    Fetched(String),
    /// The pipeline failed with this message.
    FetchFailed(String),
    /// The per-page deadline elapsed first.
    TimedOut,
}

/// The mathematical state of a `PrefetchManager`.
pub struct ManagerView {
    pub staging_dir: Seq<char>,
    pub promoted_dir: Seq<char>,
    pub table: Seq<TableEntry>,
    pub completed: int,
    pub total: int,
    pub in_progress: int,
    pub generation: int,
}

impl ManagerView {
    /// The internal invariant: counters agree with the table, URLs are
    /// unique, and no more than `CONCURRENT_LIMIT` fetches are in flight.
    pub open spec fn wf(self) -> bool {
        &&& distinct_keys(self.table)
        &&& self.total == self.table.len()
        &&& self.completed == count_terminal(self.table)
        &&& self.in_progress == count_in_progress(self.table)
        &&& self.in_progress <= CONCURRENT_LIMIT
        &&& 0 <= self.generation
    }
}

/// Tracks the prefetch lifecycle of one batch of search results.
///
/// The caller performs downloads, file writes, moves and deletions; every
/// decision about them is made, and every state transition recorded, here.
pub struct PrefetchManager {
    /// Directory for the current batch's staged artifacts.
    current_search_dir: String,
    /// Directory for promoted artifacts (pages the user opened).
    active_tabs_dir: String,
    /// Status of each URL in the current batch.
    status: Vec<(String, PrefetchStatus)>,
    /// How many URLs of the batch have reached a terminal state.
    completed_count: usize,
    /// Number of URLs in the batch.
    total_count: usize,
    /// How many fetches are in flight.
    in_progress_count: usize,
    /// Batch generation; bumped when a new batch starts, so that a
    /// straggling task of an old batch cannot write into the new table.
    generation: u64,
}

impl View for PrefetchManager {
    type V = ManagerView;

    closed spec fn view(&self) -> ManagerView {
        ManagerView {
            staging_dir: self.current_search_dir@,
            promoted_dir: self.active_tabs_dir@,
            table: self.status@.map_values(|p: (String, PrefetchStatus)| (p.0@, p.1@)),
            completed: self.completed_count as int,
            total: self.total_count as int,
            in_progress: self.in_progress_count as int,
            generation: self.generation as int,
        }
    }
}

/// The staging subdirectory name.
pub open spec fn staging_name() -> Seq<char> {
    seq!['c', 'u', 'r', 'r', 'e', 'n', 't', '_', 's', 'e', 'a', 'r', 'c', 'h']
}

/// The promoted subdirectory name.
pub open spec fn promoted_name() -> Seq<char> {
    seq!['a', 'c', 't', 'i', 'v', 'e', '_', 't', 'a', 'b', 's']
}

impl PrefetchManager {
    /// Create a manager rooted at `base_dir`, with an empty table.
    /// The caller creates the two directories on disk.
    pub fn new(base_dir: &str) -> (r: Self)
        ensures
            r@.wf(),
            r@.staging_dir == path_join(base_dir@, staging_name()),
            r@.promoted_dir == path_join(base_dir@, promoted_name()),
            r@.table.len() == 0,
            r@.completed == 0,
            r@.total == 0,
            r@.generation == 0,
    {
        let base = String::from_str(base_dir);
        let staging = path_join_exec(&base, "current_search");
        let promoted = path_join_exec(&base, "active_tabs");
        proof {
            reveal_strlit("current_search");
            reveal_strlit("active_tabs");
            assert("current_search"@ =~= staging_name());
            assert("active_tabs"@ =~= promoted_name());
        }
        let r = PrefetchManager {
            current_search_dir: staging,
            active_tabs_dir: promoted,
            status: Vec::new(),
            completed_count: 0,
            total_count: 0,
            in_progress_count: 0,
            generation: 0,
        };
        proof {
            assert(r@.table =~= Seq::<TableEntry>::empty());
        }
        r
    }

    /// The staging directory path.
    pub fn staging_dir(&self) -> (r: &String)
        ensures
            r@ == self@.staging_dir,
    {
        &self.current_search_dir
    }

    /// The promoted directory path.
    pub fn promoted_dir(&self) -> (r: &String)
        ensures
            r@ == self@.promoted_dir,
    {
        &self.active_tabs_dir
    }

    /// Clear the table and counters and start a new batch generation.
    /// The caller removes leftover staged artifact files; promoted
    /// artifacts are never touched by a new batch.
    pub fn clear_current_search(&mut self)
        requires
            old(self)@.generation < u64::MAX,
        ensures
            final(self)@.wf(),
            final(self)@.table.len() == 0,
            final(self)@.completed == 0,
            final(self)@.total == 0,
            final(self)@.in_progress == 0,
            final(self)@.generation == old(self)@.generation + 1,
            final(self)@.staging_dir == old(self)@.staging_dir,
            final(self)@.promoted_dir == old(self)@.promoted_dir,
    {
        self.status = Vec::new();
        self.completed_count = 0;
        self.total_count = 0;
        self.in_progress_count = 0;
        self.generation = self.generation + 1;
        proof {
            assert(self@.table =~= Seq::<TableEntry>::empty());
        }
    }

    /// Index of the row holding `url`, if any.
    fn find_index(&self, url: &str) -> (r: Option<usize>)
        ensures
            match r {
                Some(i) => {
                    &&& i < self@.table.len()
                    &&& self@.table[i as int].0 == url@
                    &&& forall|k: int|
                        0 <= k < i ==> (#[trigger] self@.table[k]).0 != url@
                },
                None => forall|k: int|
                    0 <= k < self@.table.len() ==> (#[trigger] self@.table[k]).0 != url@,
            },
    {
        let probe = String::from_str(url);
        let n = self.status.len();
        let mut i: usize = 0;
        while i < n
            invariant
                n == self@.table.len(),
                probe@ == url@,
                i <= n,
                forall|k: int| 0 <= k < i ==> (#[trigger] self@.table[k]).0 != url@,
            decreases n - i,
        {
            if self.status[i].0 == probe {
                return Some(i);
            }
            i = i + 1;
        }
        None
    }

    /// The prefetch status of a URL; `Pending` for a URL the table does
    /// not hold, so the answer is total and never an error.
    pub fn get_status(&self, url: &str) -> (r: PrefetchStatus)
        ensures
            r@ == observed_status(self@.table, url@),
    {
        match self.find_index(url) {
            Some(i) => {
                proof {
                    lemma_lookup_at(self@.table, url@, i as int);
                }
                clone_status(&self.status[i].1)
            },
            None => {
                proof {
                    lemma_lookup_absent(self@.table, url@);
                }
                PrefetchStatus::Pending
            },
        }
    }

    /// A snapshot of the whole table, for rendering.
    pub fn get_all_statuses(&self) -> (r: Vec<(String, PrefetchStatus)>)
        ensures
            r@.map_values(|p: (String, PrefetchStatus)| (p.0@, p.1@)) == self@.table,
    {
        let mut out: Vec<(String, PrefetchStatus)> = Vec::new();
        let n = self.status.len();
        let mut i: usize = 0;
        while i < n
            invariant
                n == self.status@.len(),
                i <= n,
                out@.len() == i,
                forall|k: int|
                    0 <= k < i ==> (#[trigger] out@[k]).0@ == self.status@[k].0@ && out@[k].1@
                        == self.status@[k].1@,
            decreases n - i,
        {
            let url = self.status[i].0.clone();
            let st = clone_status(&self.status[i].1);
            out.push((url, st));
            i = i + 1;
        }
        proof {
            assert(out@.map_values(|p: (String, PrefetchStatus)| (p.0@, p.1@)) =~= self@.table);
        }
        out
    }

    /// The current batch generation.
    pub fn generation(&self) -> (g: u64)
        ensures
            g == self@.generation,
    {
        self.generation
    }

    /// Progress as `(completed, total)`.
    pub fn get_progress(&self) -> (r: (usize, usize))
        ensures
            r.0 == self@.completed,
            r.1 == self@.total,
    {
        (self.completed_count, self.total_count)
    }
}

// ---------------------------------------------------------------------------
// Submitting a batch
// ---------------------------------------------------------------------------

/// No two results share a URL.
pub open spec fn distinct_urls(results: Seq<SearchResult>) -> bool {
    forall|i: int, j: int|
        0 <= i < j < results.len() ==> (#[trigger] results[i]).url@ != (
        #[trigger] results[j]).url@
}

/// The table row a submitted result gets: `Cached` with the artifact's
/// path when the probe found one (the promoted directory wins), `Pending`
/// otherwise.
pub open spec fn submit_entry(
    r: SearchResult,
    probe: CacheProbe,
    staging: Seq<char>,
    promoted: Seq<char>,
) -> TableEntry {
    let f = filename_spec(r.url@, r.title@);
    if probe.in_promoted {
        (r.url@, StatusView::Cached(path_join(promoted, f)))
    } else if probe.in_staging {
        (r.url@, StatusView::Cached(path_join(staging, f)))
    } else {
        (r.url@, StatusView::Pending)
    }
}

/// The table after a batch is submitted.
pub open spec fn submit_table(
    results: Seq<SearchResult>,
    probes: Seq<CacheProbe>,
    staging: Seq<char>,
    promoted: Seq<char>,
) -> Seq<TableEntry> {
    Seq::new(results.len(), |i: int| submit_entry(results[i], probes[i], staging, promoted))
}

/// The results whose probe missed, in submission order: the fetch queue.
pub open spec fn fetch_queue(
    results: Seq<SearchResult>,
    probes: Seq<CacheProbe>,
) -> Seq<SearchResult>
    decreases results.len(),
{
    if results.len() == 0 {
        Seq::empty()
    } else {
        let rest = fetch_queue(results.drop_last(), probes.drop_last());
        if probes.last().hit() {
            rest
        } else {
            rest.push(results.last())
        }
    }
}

/// How many probes hit.
pub open spec fn hit_count(probes: Seq<CacheProbe>) -> int
    decreases probes.len(),
{
    if probes.len() == 0 {
        0
    } else {
        hit_count(probes.drop_last()) + if probes.last().hit() {
            1int
        } else {
            0int
        }
    }
}

/// What one finished fetch records.
pub open spec fn outcome_status(o: FetchOutcome) -> StatusView {
    match o {
        FetchOutcome::Fetched(p) => StatusView::Ready(p@),
        FetchOutcome::FetchFailed(e) => StatusView::Failed(e@),
        FetchOutcome::TimedOut => StatusView::Timeout,
    }
}

/// The table with the row for `url` (if any) set to `v`; rows for other
/// URLs are untouched.
pub open spec fn table_set(t: Seq<TableEntry>, url: Seq<char>, v: StatusView) -> Seq<
    TableEntry,
> {
    Seq::new(
        t.len(),
        |i: int|
            if t[i].0 == url {
                (url, v)
            } else {
                t[i]
            },
    )
}

/// With distinct keys, `table_set` is the pointwise update of the matching row.
pub proof fn lemma_table_set_is_update(t: Seq<TableEntry>, i: int, v: StatusView)
    requires
        distinct_keys(t),
        0 <= i < t.len(),
    ensures
        table_set(t, t[i].0, v) =~= t.update(i, (t[i].0, v)),
{
}

/// A row that is `InProgress` makes the in-progress count positive.
pub proof fn lemma_in_progress_at(t: Seq<TableEntry>, i: int)
    requires
        0 <= i < t.len(),
        t[i].1 is InProgress,
    ensures
        count_in_progress(t) >= 1,
    decreases t.len(),
{
    if i == t.len() - 1 {
        lemma_count_bounds(t.drop_last());
    } else {
        lemma_in_progress_at(t.drop_last(), i);
    }
}

impl PrefetchManager {
    /// Submit a batch: record `Cached` (counted as completed) for every
    /// result whose probe found an artifact, `Pending` for the rest, set
    /// `total` to the batch size, and return the queue of results still to
    /// fetch, in order. One batch is submitted per generation, on an
    /// empty table.
    pub fn prefetch_all(
        &mut self,
        results: &Vec<SearchResult>,
        probes: &Vec<CacheProbe>,
    ) -> (to_fetch: Vec<SearchResult>)
        requires
            old(self)@.wf(),
            old(self)@.table.len() == 0,
            probes@.len() == results@.len(),
            distinct_urls(results@),
        ensures
            final(self)@.wf(),
            final(self)@.staging_dir == old(self)@.staging_dir,
            final(self)@.promoted_dir == old(self)@.promoted_dir,
            final(self)@.generation == old(self)@.generation,
            final(self)@.table == submit_table(
                results@,
                probes@,
                old(self)@.staging_dir,
                old(self)@.promoted_dir,
            ),
            final(self)@.total == results@.len(),
            final(self)@.completed == hit_count(probes@),
            final(self)@.in_progress == 0,
            to_fetch@ == fetch_queue(results@, probes@),
    {
        let ghost staging = self@.staging_dir;
        let ghost promoted = self@.promoted_dir;
        let n = results.len();
        self.total_count = n;
        let mut to_fetch: Vec<SearchResult> = Vec::new();
        let mut i: usize = 0;
        proof {
            assert(results@.subrange(0, 0) =~= Seq::<SearchResult>::empty());
            assert(probes@.subrange(0, 0) =~= Seq::<CacheProbe>::empty());
            assert(self@.table =~= submit_table(
                results@.subrange(0, 0),
                probes@.subrange(0, 0),
                staging,
                promoted,
            ));
        }
        while i < n
            invariant
                self@.staging_dir == staging,
                self@.promoted_dir == promoted,
                self@.generation == old(self)@.generation,
                n == results@.len(),
                probes@.len() == results@.len(),
                distinct_urls(results@),
                i <= n,
                self@.total == n,
                self@.table == submit_table(
                    results@.subrange(0, i as int),
                    probes@.subrange(0, i as int),
                    staging,
                    promoted,
                ),
                self@.table.len() == i,
                self@.completed == hit_count(probes@.subrange(0, i as int)),
                self@.completed <= i,
                self@.completed == count_terminal(self@.table),
                self@.in_progress == 0,
                count_in_progress(self@.table) == 0,
                to_fetch@ == fetch_queue(
                    results@.subrange(0, i as int),
                    probes@.subrange(0, i as int),
                ),
            decreases n - i,
        {
            let ghost pre_table = self@.table;
            let filename = url_to_filename(results[i].url.as_str(), results[i].title.as_str());
            let url = results[i].url.clone();
            let probe = probes[i];
            let entry: (String, PrefetchStatus) = if probe.in_promoted {
                let path = path_join_exec(&self.active_tabs_dir, filename.as_str());
                self.completed_count = self.completed_count + 1;
                (url, PrefetchStatus::Cached(path))
            } else if probe.in_staging {
                let path = path_join_exec(&self.current_search_dir, filename.as_str());
                self.completed_count = self.completed_count + 1;
                (url, PrefetchStatus::Cached(path))
            } else {
                to_fetch.push(results[i].clone());
                (url, PrefetchStatus::Pending)
            };
            let ghost ev: TableEntry = (entry.0@, entry.1@);
            proof {
                assert(ev == submit_entry(results@[i as int], probes@[i as int], staging, promoted));
            }
            self.status.push(entry);
            i = i + 1;
            proof {
                assert(self@.table =~= pre_table.push(ev));
                let rs = results@.subrange(0, i as int);
                let ps = probes@.subrange(0, i as int);
                assert(rs.drop_last() =~= results@.subrange(0, i - 1));
                assert(ps.drop_last() =~= probes@.subrange(0, i - 1));
                assert(rs.last() == results@[i - 1]);
                assert(ps.last() == probes@[i - 1]);
                assert(self@.table =~= submit_table(rs, ps, staging, promoted));
                assert(self@.table.drop_last() =~= pre_table);
            }
        }
        proof {
            assert(results@.subrange(0, n as int) =~= results@);
            assert(probes@.subrange(0, n as int) =~= probes@);
            assert forall|a: int, b: int|
                0 <= a < b < self@.table.len() implies (#[trigger] self@.table[a]).0 != (
            #[trigger] self@.table[b]).0 by {
                assert(self@.table[a].0 == results@[a].url@);
                assert(self@.table[b].0 == results@[b].url@);
            }
        }
        to_fetch
    }

    /// Try to move a `Pending` URL to `InProgress`. Succeeds, returning a
    /// token for the current generation, exactly when the URL is `Pending`
    /// and fewer than `CONCURRENT_LIMIT` fetches are in flight; otherwise
    /// nothing changes.
    pub fn begin_fetch(&mut self, url: &str) -> (token: Option<u64>)
        requires
            old(self)@.wf(),
        ensures
            final(self)@.wf(),
            final(self)@.staging_dir == old(self)@.staging_dir,
            final(self)@.promoted_dir == old(self)@.promoted_dir,
            final(self)@.generation == old(self)@.generation,
            final(self)@.total == old(self)@.total,
            final(self)@.completed == old(self)@.completed,
            token is Some <==> (lookup(old(self)@.table, url@) == Some(StatusView::Pending)
                && old(self)@.in_progress < CONCURRENT_LIMIT),
            match token {
                Some(g) => {
                    &&& g == old(self)@.generation
                    &&& final(self)@.table == table_set(
                        old(self)@.table,
                        url@,
                        StatusView::InProgress,
                    )
                    &&& final(self)@.in_progress == old(self)@.in_progress + 1
                    &&& lookup(final(self)@.table, url@) == Some(StatusView::InProgress)
                },
                None => final(self)@ == old(self)@,
            },
    {
        match self.find_index(url) {
            Some(i) => {
                let pending = match &self.status[i].1 {
                    PrefetchStatus::Pending => true,
                    _ => false,
                };
                proof {
                    lemma_lookup_at(self@.table, url@, i as int);
                }
                if pending && self.in_progress_count < CONCURRENT_LIMIT {
                    let ghost pre = self@;
                    let key = self.status[i].0.clone();
                    self.status.set(i, (key, PrefetchStatus::InProgress));
                    self.in_progress_count = self.in_progress_count + 1;
                    proof {
                        assert(self@.table =~= pre.table.update(
                            i as int,
                            (url@, StatusView::InProgress),
                        ));
                        lemma_table_set_is_update(pre.table, i as int, StatusView::InProgress);
                        lemma_count_update(
                            pre.table,
                            i as int,
                            (url@, StatusView::InProgress),
                        );
                        lemma_lookup_update(
                            pre.table,
                            i as int,
                            (url@, StatusView::InProgress),
                            url@,
                        );
                    }
                    Some(self.generation)
                } else {
                    None
                }
            },
            None => {
                proof {
                    lemma_lookup_absent(self@.table, url@);
                }
                None
            },
        }
    }

    /// Record the outcome of one fetch task. Accepted exactly when the
    /// token is of the current generation and the URL is `InProgress`:
    /// a straggler from a cleared batch is rejected and changes nothing.
    /// On acceptance the URL reaches its terminal state -- `Ready` on
    /// success, `Failed` on a pipeline error, `Timeout` when the deadline
    /// elapsed first -- and `completed` advances by one.
    pub fn finish_fetch(&mut self, url: &str, token: u64, outcome: FetchOutcome) -> (accepted:
        bool)
        requires
            old(self)@.wf(),
        ensures
            final(self)@.wf(),
            final(self)@.staging_dir == old(self)@.staging_dir,
            final(self)@.promoted_dir == old(self)@.promoted_dir,
            final(self)@.generation == old(self)@.generation,
            final(self)@.total == old(self)@.total,
            accepted <==> (token == old(self)@.generation && lookup(old(self)@.table, url@)
                == Some(StatusView::InProgress)),
            !accepted ==> final(self)@ == old(self)@,
            accepted ==> {
                &&& final(self)@.table == table_set(
                    old(self)@.table,
                    url@,
                    outcome_status(outcome),
                )
                &&& lookup(final(self)@.table, url@) == Some(outcome_status(outcome))
                &&& final(self)@.completed == old(self)@.completed + 1
                &&& final(self)@.in_progress == old(self)@.in_progress - 1
            },
    {
        if token != self.generation {
            return false;
        }
        match self.find_index(url) {
            Some(i) => {
                let in_progress = match &self.status[i].1 {
                    PrefetchStatus::InProgress => true,
                    _ => false,
                };
                proof {
                    lemma_lookup_at(self@.table, url@, i as int);
                }
                if in_progress {
                    let ghost pre = self@;
                    let new_status = match outcome {
                        FetchOutcome::Fetched(p) => PrefetchStatus::Ready(p),
                        FetchOutcome::FetchFailed(e) => PrefetchStatus::Failed(e),
                        FetchOutcome::TimedOut => PrefetchStatus::Timeout,
                    };
                    let ghost nsv = new_status@;
                    let key = self.status[i].0.clone();
                    proof {
                        lemma_in_progress_at(pre.table, i as int);
                        lemma_count_bounds(pre.table);
                    }
                    self.status.set(i, (key, new_status));
                    self.completed_count = self.completed_count + 1;
                    self.in_progress_count = self.in_progress_count - 1;
                    proof {
                        assert(self@.table =~= pre.table.update(i as int, (url@, nsv)));
                        lemma_table_set_is_update(pre.table, i as int, nsv);
                        lemma_count_update(pre.table, i as int, (url@, nsv));
                        lemma_lookup_update(pre.table, i as int, (url@, nsv), url@);
                        assert(nsv.is_terminal());
                    }
                    true
                } else {
                    false
                }
            },
            None => {
                proof {
                    lemma_lookup_absent(self@.table, url@);
                }
                false
            },
        }
    }
}

// ---------------------------------------------------------------------------
// Promotion
// ---------------------------------------------------------------------------

/// Why a page could not be promoted.
#[derive(Debug, Clone, PartialEq)]
pub enum PromoteError {
    /// The page is still `Pending` or `InProgress` (or was never submitted).
    NotReady,
    /// The prefetch ended in `Failed` or `Timeout`, with this reason.
    PrefetchFailed(String),
}

/// Mathematical value of a `PromoteError`.
pub enum PromoteErrorView {
    NotReady,
    PrefetchFailed(Seq<char>),
}

impl View for PromoteError {
    type V = PromoteErrorView;

    open spec fn view(&self) -> PromoteErrorView {
        match self {
            PromoteError::NotReady => PromoteErrorView::NotReady,
            PromoteError::PrefetchFailed(e) => PromoteErrorView::PrefetchFailed(e@),
        }
    }
}

/// A successful promotion: the artifact's final path, and the move the
/// caller must perform, `None` when the artifact is already promoted.
#[derive(Debug, PartialEq)]
pub struct PromoteOutcome {
    pub path: String,
    pub moved: Option<(String, String)>,
}

/// The reason recorded for a promotion refused after a timeout.
pub open spec fn timeout_note() -> Seq<char> {
    "Page timed out after 8 seconds"@
}

/// The path lies inside the directory.
pub open spec fn in_dir(path: Seq<char>, dir: Seq<char>) -> bool {
    has_prefix(path, dir + seq!['/'])
}

/// Where a promoted artifact at `p` ends up.
pub open spec fn promote_target(m: ManagerView, p: Seq<char>) -> Seq<char> {
    if in_dir(p, m.promoted_dir) {
        p
    } else {
        path_join(m.promoted_dir, after_last_slash(p))
    }
}

/// What promoting `url` returns: the final path for `Ready`/`Cached`,
/// `NotReady` for `Pending`/`InProgress`/unknown, and the failure reason
/// for `Failed`/`Timeout`.
pub open spec fn promote_result(m: ManagerView, url: Seq<char>) -> Result<
    Seq<char>,
    PromoteErrorView,
> {
    match lookup(m.table, url) {
        Some(StatusView::Ready(p)) => Ok(promote_target(m, p)),
        Some(StatusView::Cached(p)) => Ok(promote_target(m, p)),
        Some(StatusView::Failed(e)) => Err(PromoteErrorView::PrefetchFailed(e)),
        Some(StatusView::Timeout) => Err(PromoteErrorView::PrefetchFailed(timeout_note())),
        Some(StatusView::Pending) => Err(PromoteErrorView::NotReady),
        Some(StatusView::InProgress) => Err(PromoteErrorView::NotReady),
        None => Err(PromoteErrorView::NotReady),
    }
}

/// The file move a promotion asks of the caller, if any.
pub open spec fn promote_move(m: ManagerView, url: Seq<char>) -> Option<(Seq<char>, Seq<char>)> {
    match lookup(m.table, url) {
        Some(StatusView::Ready(p)) => if in_dir(p, m.promoted_dir) {
            None
        } else {
            Some((p, path_join(m.promoted_dir, after_last_slash(p))))
        },
        Some(StatusView::Cached(p)) => if in_dir(p, m.promoted_dir) {
            None
        } else {
            Some((p, path_join(m.promoted_dir, after_last_slash(p))))
        },
        _ => None,
    }
}

/// The manager state after promoting `url`: the row's path moves to the
/// promoted directory; everything else is unchanged.
pub open spec fn promote_update(m: ManagerView, url: Seq<char>) -> ManagerView {
    match lookup(m.table, url) {
        Some(StatusView::Ready(p)) => if in_dir(p, m.promoted_dir) {
            m
        } else {
            ManagerView {
                table: table_set(m.table, url, StatusView::Ready(promote_target(m, p))),
                ..m
            }
        },
        Some(StatusView::Cached(p)) => if in_dir(p, m.promoted_dir) {
            m
        } else {
            ManagerView {
                table: table_set(m.table, url, StatusView::Cached(promote_target(m, p))),
                ..m
            }
        },
        _ => m,
    }
}

impl PrefetchManager {
    /// Move one row's artifact path into the promoted directory.
    fn promote_artifact(&mut self, i: usize, p: String, is_ready: bool) -> (r: PromoteOutcome)
        requires
            old(self)@.wf(),
            i < old(self)@.table.len(),
            old(self)@.table[i as int].1 == if is_ready {
                StatusView::Ready(p@)
            } else {
                StatusView::Cached(p@)
            },
        ensures
            final(self)@.wf(),
            in_dir(p@, old(self)@.promoted_dir) ==> final(self)@ == old(self)@ && r.path@ == p@
                && r.moved is None,
            !in_dir(p@, old(self)@.promoted_dir) ==> {
                let dest = path_join(old(self)@.promoted_dir, after_last_slash(p@));
                &&& r.path@ == dest
                &&& r.moved matches Some((f, t)) && f@ == p@ && t@ == dest
                &&& final(self)@ == ManagerView {
                    table: table_set(
                        old(self)@.table,
                        old(self)@.table[i as int].0,
                        if is_ready {
                            StatusView::Ready(dest)
                        } else {
                            StatusView::Cached(dest)
                        },
                    ),
                    ..old(self)@
                }
            },
    {
        let ghost pre = self@;
        let pchars = str_chars(p.as_str());
        let mut dirslash = str_chars(self.active_tabs_dir.as_str());
        dirslash.push('/');
        proof {
            assert(dirslash@ =~= pre.promoted_dir + seq!['/']);
        }
        if crate::text::starts_with_chars(&pchars, &dirslash) {
            PromoteOutcome { path: p, moved: None }
        } else {
            let name = file_name_of(&p);
            let name_s = string_from_chars(&name);
            let dest = path_join_exec(&self.active_tabs_dir, name_s.as_str());
            let key = self.status[i].0.clone();
            let ghost url = pre.table[i as int].0;
            let new_status = if is_ready {
                PrefetchStatus::Ready(dest.clone())
            } else {
                PrefetchStatus::Cached(dest.clone())
            };
            let ghost nsv = new_status@;
            let from = p;
            let moved_to = dest.clone();
            self.status.set(i, (key, new_status));
            proof {
                assert(self@.table =~= pre.table.update(i as int, (url, nsv)));
                lemma_table_set_is_update(pre.table, i as int, nsv);
                lemma_count_update(pre.table, i as int, (url, nsv));
            }
            PromoteOutcome { path: dest, moved: Some((from, moved_to)) }
        }
    }

    /// Promote a page: for `Ready`/`Cached` return the artifact's path in
    /// the promoted directory, recording the new path, and tell the caller
    /// which file to move (none when it is already there, so promoting
    /// twice is a no-op that returns the same path). Fails with `NotReady`
    /// while the page is `Pending`/`InProgress` or unknown, and with the
    /// failure reason after `Failed`/`Timeout`.
    pub fn activate_page(&mut self, url: &str) -> (r: Result<PromoteOutcome, PromoteError>)
        requires
            old(self)@.wf(),
        ensures
            final(self)@.wf(),
            final(self)@ == promote_update(old(self)@, url@),
            match r {
                Ok(o) => {
                    &&& promote_result(old(self)@, url@) matches Ok(pp) && o.path@ == pp
                    &&& match o.moved {
                        None => promote_move(old(self)@, url@) is None,
                        Some((f, t)) => promote_move(old(self)@, url@) == Some((f@, t@)),
                    }
                },
                Err(e) => promote_result(old(self)@, url@) matches Err(ev) && e@ == ev,
            },
    {
        match self.find_index(url) {
            None => {
                proof {
                    lemma_lookup_absent(self@.table, url@);
                }
                Err(PromoteError::NotReady)
            },
            Some(i) => {
                proof {
                    lemma_lookup_at(self@.table, url@, i as int);
                }
                let st = clone_status(&self.status[i].1);
                match st {
                    PrefetchStatus::Pending => Err(PromoteError::NotReady),
                    PrefetchStatus::InProgress => Err(PromoteError::NotReady),
                    PrefetchStatus::Failed(e) => Err(PromoteError::PrefetchFailed(e)),
                    PrefetchStatus::Timeout => Err(
                        PromoteError::PrefetchFailed(
                            String::from_str("Page timed out after 8 seconds"),
                        ),
                    ),
                    PrefetchStatus::Ready(p) => Ok(self.promote_artifact(i, p, true)),
                    PrefetchStatus::Cached(p) => Ok(self.promote_artifact(i, p, false)),
                }
            },
        }
    }
}

// ---------------------------------------------------------------------------
// Eviction
// ---------------------------------------------------------------------------

/// One artifact file as the caller listed it: its name within the
/// directory and its age from the filesystem's modification time.
#[derive(Debug, Clone)]
pub struct FileInfo {
    pub name: String,
    pub age_secs: u64,
}

/// The artifact filename suffix.
pub open spec fn md_suffix() -> Seq<char> {
    seq!['.', 'm', 'd']
}

/// An artifact old enough to evict: an `.md` file strictly older than the
/// retention window.
pub open spec fn expired_entry(e: (Seq<char>, u64), max_age_secs: u64) -> bool {
    crate::text::has_suffix(e.0, md_suffix()) && e.1 > max_age_secs
}

/// The full paths of the expired artifacts of one directory, in order.
pub open spec fn sweep_plan(
    dir: Seq<char>,
    es: Seq<(Seq<char>, u64)>,
    max_age_secs: u64,
) -> Seq<Seq<char>>
    decreases es.len(),
{
    if es.len() == 0 {
        Seq::empty()
    } else {
        let rest = sweep_plan(dir, es.drop_last(), max_age_secs);
        if expired_entry(es.last(), max_age_secs) {
            rest.push(path_join(dir, es.last().0))
        } else {
            rest
        }
    }
}

/// The view of a listed file.
pub open spec fn file_view(f: FileInfo) -> (Seq<char>, u64) {
    (f.name@, f.age_secs)
}

fn cleanup_directory(dir: &String, entries: &Vec<FileInfo>, max_age_secs: u64) -> (r: Vec<
    String,
>)
    ensures
        r@.map_values(|s: String| s@) == sweep_plan(
            dir@,
            entries@.map_values(|f: FileInfo| file_view(f)),
            max_age_secs,
        ),
{
    let mut md: Vec<char> = Vec::new();
    md.push('.');
    md.push('m');
    md.push('d');
    proof {
        assert(md@ =~= md_suffix());
    }
    let mut out: Vec<String> = Vec::new();
    let n = entries.len();
    let mut i: usize = 0;
    proof {
        assert(entries@.subrange(0, 0) =~= Seq::<FileInfo>::empty());
        assert(out@.map_values(|s: String| s@) =~= sweep_plan(
            dir@,
            entries@.subrange(0, 0).map_values(|f: FileInfo| file_view(f)),
            max_age_secs,
        ));
    }
    while i < n
        invariant
            n == entries@.len(),
            i <= n,
            md@ == md_suffix(),
            out@.map_values(|s: String| s@) == sweep_plan(
                dir@,
                entries@.subrange(0, i as int).map_values(|f: FileInfo| file_view(f)),
                max_age_secs,
            ),
        decreases n - i,
    {
        let ghost pre = out@.map_values(|s: String| s@);
        let name_chars = str_chars(entries[i].name.as_str());
        if crate::text::ends_with_chars(&name_chars, &md) && entries[i].age_secs > max_age_secs {
            let path = path_join_exec(dir, entries[i].name.as_str());
            out.push(path);
        }
        i = i + 1;
        proof {
            let evs = entries@.subrange(0, i as int).map_values(|f: FileInfo| file_view(f));
            assert(evs.drop_last() =~= entries@.subrange(0, i - 1).map_values(|f: FileInfo| file_view(f)));
            assert(evs.last() == file_view(entries@[i - 1]));
            assert(out@.map_values(|s: String| s@) =~= sweep_plan(dir@, evs, max_age_secs));
        }
    }
    proof {
        assert(entries@.subrange(0, n as int) =~= entries@);
    }
    out
}

impl PrefetchManager {
    /// Select the artifacts to evict: every `.md` file in either directory
    /// strictly older than the retention window (`CACHE_MAX_AGE_DAYS`).
    /// Returns their full paths, promoted directory first; the caller
    /// deletes them best-effort and counts its successful deletions.
    pub fn cleanup_old_files(
        &self,
        promoted_entries: &Vec<FileInfo>,
        staging_entries: &Vec<FileInfo>,
    ) -> (r: Vec<String>)
        ensures
            r@.map_values(|s: String| s@) == sweep_plan(
                self@.promoted_dir,
                promoted_entries@.map_values(|f: FileInfo| file_view(f)),
                (CACHE_MAX_AGE_DAYS * 24 * 60 * 60) as u64,
            ) + sweep_plan(
                self@.staging_dir,
                staging_entries@.map_values(|f: FileInfo| file_view(f)),
                (CACHE_MAX_AGE_DAYS * 24 * 60 * 60) as u64,
            ),
    {
        let max_age_secs: u64 = CACHE_MAX_AGE_DAYS * 24 * 60 * 60;
        let mut out = cleanup_directory(&self.active_tabs_dir, promoted_entries, max_age_secs);
        let mut more = cleanup_directory(&self.current_search_dir, staging_entries, max_age_secs);
        let ghost a = out@.map_values(|s: String| s@);
        let ghost b = more@.map_values(|s: String| s@);
        out.append(&mut more);
        proof {
            assert(out@.map_values(|s: String| s@) =~= a + b);
        }
        out
    }
}

// ---------------------------------------------------------------------------
// The fetch-extract-persist pipeline
// ---------------------------------------------------------------------------

/// The error recorded when the extractor rejects a page.
pub open spec fn pipeline_extract_error() -> Seq<char> {
    "Failed to extract content"@
}

/// The error message for a non-success HTTP response status.
pub fn http_error_message(status: u16) -> (r: String)
    ensures
        r@ == "HTTP "@ + dec_str(status as int),
{
    let mut s = String::from_str("HTTP ");
    let n = usize_to_string(status as usize);
    s.append(n.as_str());
    s
}

/// Process one downloaded page: extract its readable content, render the
/// artifact document, and derive the artifact's path in `dir`. The caller
/// downloaded `html` from `result.url` and writes the returned document to
/// the returned path, atomically enough that no partial file is read back.
pub fn prefetch_single_page(result: &SearchResult, dir: &String, html: &str) -> (r: Result<
    (String, String),
    String,
>)
    ensures
        r matches Ok((path, doc)) ==> {
            &&& path@ == path_join(dir@, filename_spec(result.url@, result.title@))
            &&& readability_of(html@, result.url@) matches Some(a) && markdown_of(a.4) matches Some(
                md,
            ) && doc@ == formatted_markdown(
                ContentView {
                    title: a.0,
                    byline: a.1,
                    excerpt: a.2,
                    site_name: a.3,
                    markdown: md,
                    url: result.url@,
                },
            )
        },
        readability_of(html@, result.url@) is None ==> r is Err,
        r matches Err(e) ==> e@ == pipeline_extract_error(),
{
    let content = match extract_clean_markdown(html, result.url.as_str()) {
        Ok(c) => c,
        Err(_) => {
            return Err(String::from_str("Failed to extract content"));
        },
    };
    let filename = url_to_filename(result.url.as_str(), result.title.as_str());
    let filepath = path_join_exec(dir, filename.as_str());
    let doc = content.to_formatted_markdown();
    proof {
        let a = readability_of(html@, result.url@)->0;
        assert(content@ == ContentView {
            title: a.0,
            byline: a.1,
            excerpt: a.2,
            site_name: a.3,
            markdown: content@.markdown,
            url: result.url@,
        });
    }
    Ok((filepath, doc))
}

// ---------------------------------------------------------------------------
// Laws
// ---------------------------------------------------------------------------

/// A found row has an index that lookup agrees with.
pub proof fn lemma_lookup_some_index(t: Seq<TableEntry>, url: Seq<char>)
    requires
        lookup(t, url) is Some,
    ensures
        exists|i: int|
            0 <= i < t.len() && (#[trigger] t[i]).0 == url && lookup(t, url) == Some(t[i].1),
    decreases t.len(),
{
    if t.len() > 0 {
        if t[0].0 == url {
            assert(t[0].0 == url && lookup(t, url) == Some(t[0].1));
        } else {
            lemma_lookup_some_index(t.drop_first(), url);
            let j = choose|j: int|
                0 <= j < t.drop_first().len() && (#[trigger] t.drop_first()[j]).0 == url
                    && lookup(t.drop_first(), url) == Some(t.drop_first()[j].1);
            assert(t[j + 1].0 == url && lookup(t, url) == Some(t[j + 1].1));
        }
    }
}

/// Law: every URL of a submitted batch has a defined status right after
/// submission -- `Cached` exactly when its probe found an artifact,
/// `Pending` otherwise -- and a URL never submitted observes `Pending`.
pub proof fn lemma_submitted_status(
    results: Seq<SearchResult>,
    probes: Seq<CacheProbe>,
    staging: Seq<char>,
    promoted: Seq<char>,
    i: int,
)
    requires
        distinct_urls(results),
        probes.len() == results.len(),
        0 <= i < results.len(),
    ensures
        observed_status(submit_table(results, probes, staging, promoted), results[i].url@) == (
        if probes[i].hit() {
            submit_entry(results[i], probes[i], staging, promoted).1
        } else {
            StatusView::Pending
        }),
        probes[i].hit() ==> observed_status(
            submit_table(results, probes, staging, promoted),
            results[i].url@,
        ) is Cached,
{
    let t = submit_table(results, probes, staging, promoted);
    assert(forall|k: int| 0 <= k < i ==> (#[trigger] t[k]).0 != results[i].url@);
    lemma_lookup_at(t, results[i].url@, i);
}

/// Law: the status table is total -- a URL that was never submitted in the
/// current batch observes `Pending`, never an error.
pub proof fn lemma_unknown_is_pending(t: Seq<TableEntry>, url: Seq<char>)
    requires
        forall|k: int| 0 <= k < t.len() ==> (#[trigger] t[k]).0 != url,
    ensures
        observed_status(t, url) == StatusView::Pending,
{
    lemma_lookup_absent(t, url);
}

/// Law: after a new batch is started (empty table) and submitted, the
/// table holds exactly the submitted URLs -- no residue of an old batch.
pub proof fn lemma_fresh_batch_urls(
    results: Seq<SearchResult>,
    probes: Seq<CacheProbe>,
    staging: Seq<char>,
    promoted: Seq<char>,
)
    requires
        distinct_urls(results),
        probes.len() == results.len(),
    ensures
        forall|u: Seq<char>|
            #[trigger] lookup(submit_table(results, probes, staging, promoted), u) is Some <==> (
            exists|i: int| 0 <= i < results.len() && (#[trigger] results[i]).url@ == u),
{
    let t = submit_table(results, probes, staging, promoted);
    assert forall|u: Seq<char>| #[trigger]
        lookup(t, u) is Some implies exists|i: int|
        0 <= i < results.len() && (#[trigger] results[i]).url@ == u by {
        lemma_lookup_some_index(t, u);
        let i = choose|i: int|
            0 <= i < t.len() && (#[trigger] t[i]).0 == u && lookup(t, u) == Some(t[i].1);
        assert(results[i].url@ == u);
    }
    assert forall|u: Seq<char>|
        (exists|i: int| 0 <= i < results.len() && (#[trigger] results[i]).url@ == u) implies
        #[trigger] lookup(t, u) is Some by {
        let i = choose|i: int| 0 <= i < results.len() && (#[trigger] results[i]).url@ == u;
        assert(forall|k: int| 0 <= k < i ==> (#[trigger] t[k]).0 != u);
        lemma_lookup_at(t, u, i);
    }
}

/// Every member of the fetch queue is a submitted result whose probe
/// missed the cache.
pub proof fn lemma_queue_members(results: Seq<SearchResult>, probes: Seq<CacheProbe>, k: int)
    requires
        probes.len() == results.len(),
        0 <= k < fetch_queue(results, probes).len(),
    ensures
        exists|j: int|
            0 <= j < results.len() && fetch_queue(results, probes)[k] == (
            #[trigger] results[j]) && !probes[j].hit(),
    decreases results.len(),
{
    if results.len() > 0 {
        let q = fetch_queue(results, probes);
        let rest = fetch_queue(results.drop_last(), probes.drop_last());
        if probes.last().hit() {
            lemma_queue_members(results.drop_last(), probes.drop_last(), k);
            let j = choose|j: int|
                0 <= j < results.drop_last().len() && rest[k] == (
                #[trigger] results.drop_last()[j]) && !probes.drop_last()[j].hit();
            assert(q[k] == results[j] && !probes[j].hit());
        } else {
            if k < rest.len() {
                lemma_queue_members(results.drop_last(), probes.drop_last(), k);
                let j = choose|j: int|
                    0 <= j < results.drop_last().len() && rest[k] == (
                    #[trigger] results.drop_last()[j]) && !probes.drop_last()[j].hit();
                assert(q[k] == results[j] && !probes[j].hit());
            } else {
                assert(q[k] == results[results.len() - 1]);
            }
        }
    }
}

/// Law: a cache hit is never fetched -- a result whose probe found an
/// artifact does not appear in the fetch queue.
pub proof fn lemma_cache_hit_no_fetch(
    results: Seq<SearchResult>,
    probes: Seq<CacheProbe>,
    i: int,
)
    requires
        distinct_urls(results),
        probes.len() == results.len(),
        0 <= i < results.len(),
        probes[i].hit(),
    ensures
        forall|k: int|
            0 <= k < fetch_queue(results, probes).len() ==> (#[trigger] fetch_queue(
                results,
                probes,
            )[k]).url@ != results[i].url@,
{
    let q = fetch_queue(results, probes);
    assert forall|k: int| 0 <= k < q.len() implies (#[trigger] q[k]).url@ != results[i].url@ by {
        lemma_queue_members(results, probes, k);
        let j = choose|j: int|
            0 <= j < results.len() && q[k] == (#[trigger] results[j]) && !probes[j].hit();
        assert(j != i);
    }
}

/// Law: the number of simultaneously in-progress fetches never exceeds the
/// configured concurrency limit in a well-formed manager state.
pub proof fn lemma_concurrency_bound(m: ManagerView)
    requires
        m.wf(),
    ensures
        count_in_progress(m.table) <= CONCURRENT_LIMIT,
{
}

/// All rows are terminal once the completed count reaches the table size.
pub proof fn lemma_all_terminal(t: Seq<TableEntry>)
    requires
        count_terminal(t) == t.len(),
    ensures
        forall|k: int| 0 <= k < t.len() ==> (#[trigger] t[k]).1.is_terminal(),
    decreases t.len(),
{
    if t.len() > 0 {
        lemma_count_bounds(t.drop_last());
        lemma_all_terminal(t.drop_last());
        assert forall|k: int| 0 <= k < t.len() implies (#[trigger] t[k]).1.is_terminal() by {
            if k < t.len() - 1 {
                assert(t[k] == t.drop_last()[k]);
            } else {
                assert(t[k] == t.last());
            }
        }
    }
}

/// Law: `completed` reaching `total` is the batch-done signal -- every
/// submitted URL is then in a terminal state, and no transition of the
/// manager applies any more (`begin_fetch` and `finish_fetch` reject).
pub proof fn lemma_batch_done(m: ManagerView, url: Seq<char>)
    requires
        m.wf(),
        m.completed == m.total,
    ensures
        lookup(m.table, url) matches Some(s) ==> s.is_terminal(),
        lookup(m.table, url) != Some(StatusView::Pending),
        lookup(m.table, url) != Some(StatusView::InProgress),
{
    lemma_all_terminal(m.table);
    if lookup(m.table, url) is Some {
        lemma_lookup_some_index(m.table, url);
    }
}

/// Law: promotion is idempotent -- after a successful promotion, promoting
/// the same URL again returns the same path, asks for no further file
/// move (so exactly one artifact file remains for the key), and leaves
/// the state unchanged.
pub proof fn lemma_promote_idempotent(m: ManagerView, url: Seq<char>)
    requires
        m.wf(),
        promote_result(m, url) is Ok,
    ensures
        promote_update(m, url).wf(),
        promote_result(promote_update(m, url), url) == promote_result(m, url),
        promote_update(promote_update(m, url), url) == promote_update(m, url),
        promote_move(promote_update(m, url), url) is None,
{
    let m2 = promote_update(m, url);
    lemma_lookup_some_index(m.table, url);
    let i = choose|i: int|
        0 <= i < m.table.len() && (#[trigger] m.table[i]).0 == url && lookup(m.table, url)
            == Some(m.table[i].1);
    match lookup(m.table, url) {
        Some(StatusView::Ready(p)) => {
            lemma_promote_step(m, url, i, p, true);
        },
        Some(StatusView::Cached(p)) => {
            lemma_promote_step(m, url, i, p, false);
        },
        _ => {
            assert(false);
        },
    }
}

/// One promotion step from a `Ready`/`Cached` row: the updated state is
/// well-formed, its row's path lies in the promoted directory, and looking
/// it up again promotes to the same path with no further move.
proof fn lemma_promote_step(m: ManagerView, url: Seq<char>, i: int, p: Seq<char>, is_ready: bool)
    requires
        m.wf(),
        0 <= i < m.table.len(),
        m.table[i].0 == url,
        lookup(m.table, url) == Some(m.table[i].1),
        m.table[i].1 == if is_ready {
            StatusView::Ready(p)
        } else {
            StatusView::Cached(p)
        },
    ensures
        promote_update(m, url).wf(),
        promote_result(promote_update(m, url), url) == promote_result(m, url),
        promote_update(promote_update(m, url), url) == promote_update(m, url),
        promote_move(promote_update(m, url), url) is None,
{
    let m2 = promote_update(m, url);
    if in_dir(p, m.promoted_dir) {
        assert(m2 == m);
    } else {
        let dest = path_join(m.promoted_dir, after_last_slash(p));
        let nsv = if is_ready {
            StatusView::Ready(dest)
        } else {
            StatusView::Cached(dest)
        };
        lemma_table_set_is_update(m.table, i, nsv);
        assert(m2.table == m.table.update(i, (url, nsv)));
        lemma_count_update(m.table, i, (url, nsv));
        lemma_lookup_update(m.table, i, (url, nsv), url);
        assert(forall|k: int| 0 <= k < i ==> (#[trigger] m.table[k]).0 != url);
        assert(lookup(m2.table, url) == Some(nsv));
        // The new path lies inside the promoted directory.
        assert(has_prefix(dest, m.promoted_dir + seq!['/'])) by {
            assert(dest.subrange(0, (m.promoted_dir + seq!['/']).len() as int) =~= m.promoted_dir
                + seq!['/']);
        }
        assert(in_dir(dest, m2.promoted_dir));
        assert(promote_update(m2, url) == m2);
        assert(promote_result(m2, url) == Ok::<Seq<char>, PromoteErrorView>(dest));
        assert(m2.wf());
    }
}

/// A field-for-field copy of a status.
pub fn clone_status(s: &PrefetchStatus) -> (r: PrefetchStatus)
    ensures
        r@ == s@,
{
    match s {
        PrefetchStatus::Pending => PrefetchStatus::Pending,
        PrefetchStatus::InProgress => PrefetchStatus::InProgress,
        PrefetchStatus::Ready(p) => PrefetchStatus::Ready(p.clone()),
        PrefetchStatus::Cached(p) => PrefetchStatus::Cached(p.clone()),
        PrefetchStatus::Failed(e) => PrefetchStatus::Failed(e.clone()),
        PrefetchStatus::Timeout => PrefetchStatus::Timeout,
    }
}

} // verus!

