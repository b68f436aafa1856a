//! Content extraction and document formatting.
//!
//! Extraction itself (finding the main content region of a page and turning
//! its HTML into Markdown) is done by outside crates behind trusted
//! wrappers; everything around them -- error mapping and the rendering of
//! the persisted artifact -- is verified.

use vstd::prelude::*;

use crate::text::{str_chars, string_from_chars};

verus! {

/// What the readability extractor yields for a page, as plain values:
/// `(title, byline, excerpt, site_name, content_html)`. `None` when the
/// page fails its readability checks or cannot be parsed. A function of
/// the HTML and the URL alone.
pub uninterp spec fn readability_of(html: Seq<char>, url: Seq<char>) -> Option<
    (Seq<char>, Option<Seq<char>>, Option<Seq<char>>, Option<Seq<char>>, Seq<char>),
>;

/// The Markdown rendering of extracted content HTML, under this library's
/// fixed conversion options; `None` when conversion fails. A function of
/// the HTML alone.
pub uninterp spec fn markdown_of(html: Seq<char>) -> Option<Seq<char>>;

/// The fields the extractor returns for one page.
pub struct RawArticle {
    pub title: String,
    pub byline: Option<String>,
    pub excerpt: Option<String>,
    pub site_name: Option<String>,
    pub content: String,
}

impl RawArticle {
    /// The article as plain values, in extractor order.
    pub open spec fn tuple_view(&self) -> (
        Seq<char>,
        Option<Seq<char>>,
        Option<Seq<char>>,
        Option<Seq<char>>,
        Seq<char>,
    ) {
        (
            self.title@,
            match self.byline {
                Some(ref b) => Some(b@),
                None => None,
            },
            match self.excerpt {
                Some(ref e) => Some(e@),
                None => None,
            },
            match self.site_name {
                Some(ref s) => Some(s@),
                None => None,
            },
            self.content@,
        )
    }
}

/// Relies on `readability_js::Readability::new` and `parse_with_url`:
/// extraction is a pure function of the HTML and URL; `new` can fail for
/// environmental reasons (it builds a JavaScript runtime), so success is
/// not promised even where the extractor's answer exists.
#[verifier::external_body]
fn readability_extract(html: &str, url: &str) -> (r: Result<RawArticle, String>)
    ensures
        r matches Ok(a) ==> readability_of(html@, url@) == Some(a.tuple_view()),
        readability_of(html@, url@) is None ==> r is Err,
{
    let reader = readability_js::Readability::new().map_err(|e| e.to_string())?;
    let article = reader.parse_with_url(html, url).map_err(|e| e.to_string())?;
    Ok(RawArticle {
        title: article.title,
        byline: article.byline,
        excerpt: article.excerpt,
        site_name: article.site_name,
        content: article.content,
    })
}

/// Relies on `html_to_markdown_rs::convert`: Markdown conversion is a pure
/// function of the content HTML under fixed options.
#[verifier::external_body]
fn to_markdown(html: &str) -> (r: Result<String, String>)
    ensures
        r matches Ok(s) ==> markdown_of(html@) == Some(s@),
        markdown_of(html@) is None ==> r is Err,
{
    let mut options = html_to_markdown_rs::ConversionOptions {
        heading_style: html_to_markdown_rs::HeadingStyle::Atx,
        code_block_style: html_to_markdown_rs::CodeBlockStyle::Backticks,
        newline_style: html_to_markdown_rs::NewlineStyle::Backslash,
        list_indent_width: 2, bullets: "-".to_string(), strong_em_symbol: '*',
        escape_asterisks: false, escape_underscores: false, ..Default::default()
    };
    options.preprocessing = html_to_markdown_rs::PreprocessingOptions {
        enabled: true, preset: html_to_markdown_rs::PreprocessingPreset::Aggressive,
        remove_navigation: true, remove_forms: true, ..Default::default()
    };
    options.strip_tags = ["script", "style", "noscript", "iframe", "nav", "aside", "footer", "header"].iter().map(|s| s.to_string()).collect();
    html_to_markdown_rs::convert(html, Some(options)).map(|res| res.content.unwrap_or_default()).map_err(|e| e.to_string())
}

/// Extracted content of one page, ready to format.
#[derive(Debug, Clone)]
pub struct ExtractedContent {
    pub title: String,
    pub byline: Option<String>,
    pub excerpt: Option<String>,
    pub site_name: Option<String>,
    pub markdown: String,
    pub url: String,
}

/// Mathematical value of `ExtractedContent`.
pub struct ContentView {
    pub title: Seq<char>,
    pub byline: Option<Seq<char>>,
    pub excerpt: Option<Seq<char>>,
    pub site_name: Option<Seq<char>>,
    pub markdown: Seq<char>,
    pub url: Seq<char>,
}

impl View for ExtractedContent {
    type V = ContentView;

    open spec fn view(&self) -> ContentView {
        ContentView {
            title: self.title@,
            byline: match self.byline {
                Some(ref b) => Some(b@),
                None => None,
            },
            excerpt: match self.excerpt {
                Some(ref e) => Some(e@),
                None => None,
            },
            site_name: match self.site_name {
                Some(ref s) => Some(s@),
                None => None,
            },
            markdown: self.markdown@,
            url: self.url@,
        }
    }
}

/// Double quotes escaped with a backslash.
pub open spec fn escape_quotes(s: Seq<char>) -> Seq<char>
    decreases s.len(),
{
    if s.len() == 0 {
        Seq::empty()
    } else {
        escape_quotes(s.drop_last()) + if s.last() == '"' {
            seq!['\\', '"']
        } else {
            seq![s.last()]
        }
    }
}

fn escape_quotes_exec(s: &str) -> (r: String)
    ensures
        r@ == escape_quotes(s@),
{
    let chars = str_chars(s);
    let mut out: Vec<char> = Vec::new();
    let mut i: usize = 0;
    while i < chars.len()
        invariant
            i <= chars@.len(),
            out@ == escape_quotes(chars@.subrange(0, i as int)),
        decreases chars@.len() - i,
    {
        let c = chars[i];
        if c == '"' {
            out.push('\\');
            out.push('"');
        } else {
            out.push(c);
        }
        i = i + 1;
        proof {
            let pre = chars@.subrange(0, i as int);
            assert(pre.drop_last() =~= chars@.subrange(0, i - 1));
            assert(pre.last() == chars@[i - 1]);
            assert(out@ =~= escape_quotes(pre));
        }
    }
    proof {
        assert(chars@.subrange(0, chars@.len() as int) =~= chars@);
    }
    string_from_chars(&out)
}

/// The persisted artifact text: a metadata header (title, URL, optional
/// author and source), the title as a heading, a metadata block, the
/// optional excerpt as a blockquote, then the extracted body.
pub open spec fn formatted_markdown(c: ContentView) -> Seq<char> {
    "---\n"@ + "title: \""@ + escape_quotes(c.title) + "\"\n"@ + "url: "@ + c.url + "\n"@
        + (match c.byline {
        Some(b) => "author: \""@ + escape_quotes(b) + "\"\n"@,
        None => Seq::empty(),
    }) + (match c.site_name {
        Some(s) => "source: \""@ + escape_quotes(s) + "\"\n"@,
        None => Seq::empty(),
    }) + "---\n\n"@ + "# "@ + c.title + "\n\n"@ + (match c.byline {
        Some(b) => "**Author**: "@ + b + "\n"@,
        None => Seq::empty(),
    }) + (match c.site_name {
        Some(s) => "**Source**: "@ + s + "\n"@,
        None => Seq::empty(),
    }) + "**URL**: <"@ + c.url + ">\n\n"@ + (match c.excerpt {
        Some(e) => if e.len() > 0 {
            "> "@ + e + "\n\n"@
        } else {
            Seq::empty()
        },
        None => Seq::empty(),
    }) + "---\n\n"@ + c.markdown
}

impl ExtractedContent {
    /// Render the artifact document for this content.
    #[verifier::rlimit(100)]
    pub fn to_formatted_markdown(&self) -> (r: String)
        ensures
            r@ == formatted_markdown(self@),
    {
        let mut out = String::new();
        out.append("---\n");
        out.append("title: \"");
        out.append(escape_quotes_exec(self.title.as_str()).as_str());
        out.append("\"\n");
        out.append("url: ");
        out.append(self.url.as_str());
        out.append("\n");
        match &self.byline {
            Some(b) => {
                out.append("author: \"");
                out.append(escape_quotes_exec(b.as_str()).as_str());
                out.append("\"\n");
            },
            None => {},
        }
        match &self.site_name {
            Some(s) => {
                out.append("source: \"");
                out.append(escape_quotes_exec(s.as_str()).as_str());
                out.append("\"\n");
            },
            None => {},
        }
        out.append("---\n\n");
        out.append("# ");
        out.append(self.title.as_str());
        out.append("\n\n");
        match &self.byline {
            Some(b) => {
                out.append("**Author**: ");
                out.append(b.as_str());
                out.append("\n");
            },
            None => {},
        }
        match &self.site_name {
            Some(s) => {
                out.append("**Source**: ");
                out.append(s.as_str());
                out.append("\n");
            },
            None => {},
        }
        out.append("**URL**: <");
        out.append(self.url.as_str());
        out.append(">\n\n");
        match &self.excerpt {
            Some(e) => {
                if !e.as_str().is_empty() {
                    out.append("> ");
                    out.append(e.as_str());
                    out.append("\n\n");
                }
            },
            None => {},
        }
        out.append("---\n\n");
        out.append(self.markdown.as_str());
        proof {
            assert(out@ =~= formatted_markdown(self@));
        }
        out
    }
}

/// The error recorded when extraction fails.
pub open spec fn extract_error_note() -> Seq<char> {
    "Failed to parse HTML with Readability"@
}

/// The error recorded when Markdown conversion fails.
pub open spec fn convert_error_note() -> Seq<char> {
    "Failed to convert HTML to Markdown"@
}

/// Extract the readable content of a page and convert it to Markdown.
/// On success the content carries the extractor's fields, the converted
/// body, and the source URL; each failure names the step that failed.
pub fn extract_clean_markdown(html: &str, url: &str) -> (r: Result<ExtractedContent, String>)
    ensures
        r matches Ok(c) ==> {
            &&& readability_of(html@, url@) matches Some(a) && c@.title == a.0 && c@.byline == a.1
                && c@.excerpt == a.2 && c@.site_name == a.3 && markdown_of(a.4) == Some(
                c@.markdown,
            )
            &&& c@.url == url@
        },
        readability_of(html@, url@) is None ==> (r matches Err(e) && e@ == extract_error_note()),
        (readability_of(html@, url@) matches Some(a) && markdown_of(a.4) is None) ==> r is Err,
        r matches Err(e) ==> e@ == extract_error_note() || e@ == convert_error_note(),
{
    let article = match readability_extract(html, url) {
        Ok(a) => a,
        Err(_) => {
            return Err(String::from_str("Failed to parse HTML with Readability"));
        },
    };
    let markdown = match to_markdown(article.content.as_str()) {
        Ok(m) => m,
        Err(_) => {
            return Err(String::from_str("Failed to convert HTML to Markdown"));
        },
    };
    Ok(
        ExtractedContent {
            title: article.title,
            byline: article.byline,
            excerpt: article.excerpt,
            site_name: article.site_name,
            markdown,
            url: String::from_str(url),
        },
    )
}

} // verus!
