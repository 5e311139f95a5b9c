//! The Atom feed of the published articles.

use vstd::prelude::*;
use vstd::string::*;
use crate::db::models::{Article, ArticleView, lemma_prefix_full, lemma_prefix_step, opt_text, views};
use crate::text::{chars_of, push_char, text_of};

verus! {

/// What stands for `c` in XML text: the entity of `&`, `<`, `>` and `"`,
/// and the character itself for any other.
pub open spec fn escaped_char(c: char) -> Seq<char> {
    if c == '&' {
        "&amp;"@
    } else if c == '<' {
        "&lt;"@
    } else if c == '>' {
        "&gt;"@
    } else if c == '"' {
        "&quot;"@
    } else {
        seq![c]
    }
}

/// `s` with each character escaped for XML.
pub open spec fn escaped(s: Seq<char>) -> Seq<char>
    decreases s.len(),
{
    if s.len() == 0 {
        Seq::empty()
    } else {
        escaped(s.drop_last()) + escaped_char(s.last())
    }
}

/// Escapes the characters `&`, `<`, `>` and `"`, so that the text can stand
/// in the body of an XML element or in an attribute value.
pub fn escape_xml(s: &str) -> (out: String)
    ensures
        out@ == escaped(s@),
{
    let chars = chars_of(s);
    let mut out = String::new();
    let mut i: usize = 0;
    assert(chars@.subrange(0, 0) =~= Seq::<char>::empty());
    while i < chars.len()
        invariant
            i <= chars.len(),
            chars@ == s@,
            out@ == escaped(chars@.subrange(0, i as int)),
        decreases chars.len() - i,
    {
        let c = chars[i];
        proof {
            let next = chars@.subrange(0, i as int + 1);
            assert(next.drop_last() =~= chars@.subrange(0, i as int));
            assert(next.last() == c);
        }
        if c == '&' {
            out.append("&amp;");
        } else if c == '<' {
            out.append("&lt;");
        } else if c == '>' {
            out.append("&gt;");
        } else if c == '"' {
            out.append("&quot;");
        } else {
            proof {
                assert(out@.push(c) =~= out@ + seq![c]);
            }
            push_char(&mut out, c);
        }
        i += 1;
    }
    assert(chars@.subrange(0, i as int) =~= chars@);
    out
}

/// Escaped text holds none of the characters `<`, `>` and `"`.
pub proof fn lemma_escaped_is_safe(s: Seq<char>, i: int)
    requires
        0 <= i < escaped(s).len(),
    ensures
        escaped(s)[i] != '<',
        escaped(s)[i] != '>',
        escaped(s)[i] != '"',
    decreases s.len(),
{
    reveal_strlit("&amp;");
    reveal_strlit("&lt;");
    reveal_strlit("&gt;");
    reveal_strlit("&quot;");
    if s.len() > 0 {
        let before = escaped(s.drop_last());
        if i < before.len() {
            lemma_escaped_is_safe(s.drop_last(), i);
        } else {
            let tail = escaped_char(s.last());
            assert(escaped(s)[i] == tail[i - before.len()]);
        }
    }
}

// ─── The feed ────────────────────────────────────────────────────────────────

/// The RFC 3339 text of the time `secs` seconds after the Unix epoch, in
/// UTC; `None` for a time that lies outside the range of the calendar.
pub uninterp spec fn rfc3339_text(secs: i64) -> Option<Seq<char>>;

/// Renders a time as RFC 3339 text.
///
/// Trusted: calls `chrono::DateTime::from_timestamp` with the seconds and
/// no nanoseconds and, where that gives a time, `to_rfc3339` on it. Both
/// depend on the seconds alone; the contract gives the result a name.
#[verifier::external_body]
pub(crate) fn rfc3339(secs: i64) -> (text: Option<String>)
    ensures
        opt_text(text) == rfc3339_text(secs),
{
    match chrono::DateTime::from_timestamp(secs, 0) {
        Some(time) => Some(time.to_rfc3339()),
        None => None,
    }
}

/// How many articles the feed holds at most.
pub const FEED_LENGTH: u32 = 20;

/// Title of the feed of a site that has none configured.
pub open spec fn default_site_title() -> Seq<char> {
    "Pawtal"@
}

/// Where the slashes at the end of `s` begin.
pub open spec fn end_without_slashes(s: Seq<char>, to: int) -> int
    decreases to,
{
    if 0 < to <= s.len() && s[to - 1] == '/' {
        end_without_slashes(s, to - 1)
    } else {
        to
    }
}

/// `s` without the slashes at its end.
pub open spec fn without_trailing_slashes(s: Seq<char>) -> Seq<char> {
    s.subrange(0, end_without_slashes(s, s.len() as int))
}

/// The time at which an article counts as published: its publication time
/// or, without one, its creation time.
pub open spec fn published_time(article: ArticleView) -> i64 {
    match article.publish_at {
        Some(at) => at,
        None => article.created_at,
    }
}

/// The head of the feed: the declaration, the opening tag, and the title,
/// the links and the id of the site.
pub open spec fn feed_head(site_title: Seq<char>, base: Seq<char>) -> Seq<char> {
    "<?xml version=\"1.0\" encoding=\"utf-8\"?>\n"@ + "<feed xmlns=\"http://www.w3.org/2005/Atom\">\n"@
        + "  <title>"@ + escaped(site_title) + "</title>\n"@ + "  <link href=\""@ + base
        + "/feed.xml\" rel=\"self\"/>\n"@ + "  <link href=\""@ + base + "\" rel=\"alternate\"/>\n"@
        + "  <id>"@ + base + "/</id>\n"@
}

/// The line that says when the feed was last updated.
pub open spec fn feed_updated(time: Seq<char>) -> Seq<char> {
    "  <updated>"@ + time + "</updated>\n"@
}

/// The entry of one article. `published` and `updated` are the texts of
/// its times.
pub open spec fn feed_entry(
    article: ArticleView,
    base: Seq<char>,
    published: Seq<char>,
    updated: Seq<char>,
) -> Seq<char> {
    let fixed = "  <entry>\n"@ + "    <title>"@ + escaped(article.title) + "</title>\n"@
        + "    <link href=\""@ + base + "/articles/"@ + article.slug + "\"/>\n"@ + "    <id>"@ + base
        + "/articles/"@ + article.slug + "</id>\n"@ + "    <published>"@ + published
        + "</published>\n"@ + "    <updated>"@ + updated + "</updated>\n"@;
    if article.short_text.len() > 0 {
        fixed + "    <summary>"@ + escaped(article.short_text) + "</summary>\n"@ + "  </entry>\n"@
    } else {
        fixed + "  </entry>\n"@
    }
}

/// Whether the times of all articles can be written.
pub open spec fn feed_times_exist(articles: Seq<ArticleView>) -> bool {
    forall|i: int|
        0 <= i < articles.len() ==> rfc3339_text(published_time(#[trigger] articles[i])) is Some
            && rfc3339_text(articles[i].updated_at) is Some
}

/// The entries of a list of articles, in order.
pub open spec fn feed_entries(articles: Seq<ArticleView>, base: Seq<char>) -> Seq<char>
    decreases articles.len(),
{
    if articles.len() == 0 {
        Seq::empty()
    } else {
        let last = articles.last();
        feed_entries(articles.drop_last(), base) + feed_entry(
            last,
            base,
            rfc3339_text(published_time(last)).unwrap(),
            rfc3339_text(last.updated_at).unwrap(),
        )
    }
}

/// The Atom feed of a list of articles: the head, the time of the first
/// article as the time of the last update, one entry per article, and the
/// closing tag.
pub open spec fn feed_xml(site_title: Seq<char>, base_url: Seq<char>, articles: Seq<ArticleView>) -> Seq<
    char,
> {
    let base = without_trailing_slashes(base_url);
    let updated = if articles.len() > 0 {
        feed_updated(rfc3339_text(published_time(articles[0])).unwrap())
    } else {
        Seq::empty()
    };
    feed_head(site_title, base) + updated + feed_entries(articles, base) + "</feed>\n"@
}

/// `s` without the slashes at its end.
pub fn trim_trailing_slashes(s: &str) -> (r: String)
    ensures
        r@ == without_trailing_slashes(s@),
{
    let chars = chars_of(s);
    let mut to = chars.len();
    while to > 0 && chars[to - 1] == '/'
        invariant
            to <= chars.len(),
            chars@ == s@,
            end_without_slashes(s@, s@.len() as int) == end_without_slashes(s@, to as int),
        decreases to,
    {
        to -= 1;
    }
    text_of(&chars, 0, to)
}

/// The time at which an article counts as published.
pub fn article_published_time(article: &Article) -> (r: i64)
    ensures
        r == published_time(article@),
{
    match article.publish_at {
        Some(at) => at,
        None => article.created_at,
    }
}

/// The head of the feed.
fn write_head(site_title: &str, base: &str) -> (out: String)
    ensures
        out@ == feed_head(site_title@, base@),
{
    let mut out = String::from_str("<?xml version=\"1.0\" encoding=\"utf-8\"?>\n");
    out.append("<feed xmlns=\"http://www.w3.org/2005/Atom\">\n");
    out.append("  <title>");
    out.append(escape_xml(site_title).as_str());
    out.append("</title>\n");
    out.append("  <link href=\"");
    out.append(base);
    out.append("/feed.xml\" rel=\"self\"/>\n");
    out.append("  <link href=\"");
    out.append(base);
    out.append("\" rel=\"alternate\"/>\n");
    out.append("  <id>");
    out.append(base);
    out.append("/</id>\n");
    out
}

/// The entry of one article.
fn write_entry(article: &Article, base: &str, published: &str, updated: &str) -> (out: String)
    ensures
        out@ == feed_entry(article@, base@, published@, updated@),
{
    let mut out = String::from_str("  <entry>\n");
    out.append("    <title>");
    out.append(escape_xml(article.title.as_str()).as_str());
    out.append("</title>\n");
    out.append("    <link href=\"");
    out.append(base);
    out.append("/articles/");
    out.append(article.slug.as_str());
    out.append("\"/>\n");
    out.append("    <id>");
    out.append(base);
    out.append("/articles/");
    out.append(article.slug.as_str());
    out.append("</id>\n");
    out.append("    <published>");
    out.append(published);
    out.append("</published>\n");
    out.append("    <updated>");
    out.append(updated);
    out.append("</updated>\n");
    if article.short_text.as_str().unicode_len() > 0 {
        out.append("    <summary>");
        out.append(escape_xml(article.short_text.as_str()).as_str());
        out.append("</summary>\n");
    }
    out.append("  </entry>\n");
    out
}

/// The Atom feed of `articles`, which the caller gives newest first, for
/// the site called `site_title` at `base_url`. `None` exactly where the
/// time of an article lies outside the range of the calendar and so cannot
/// be written.
pub fn atom_feed(site_title: &str, base_url: &str, articles: &Vec<Article>) -> (r: Option<String>)
    ensures
        match r {
            Some(xml) => feed_times_exist(views(articles@)) && xml@ == feed_xml(
                site_title@,
                base_url@,
                views(articles@),
            ),
            None => !feed_times_exist(views(articles@)),
        },
{
    let ghost all = views(articles@);
    let base = trim_trailing_slashes(base_url);
    let mut entries = String::new();
    let mut first_time: Option<String> = None;
    let mut i: usize = 0;
    proof {
        lemma_prefix_full(all);
    }
    while i < articles.len()
        invariant
            i <= articles.len(),
            all == views(articles@),
            feed_times_exist(all.subrange(0, i as int)),
            entries@ == feed_entries(all.subrange(0, i as int), base@),
            i > 0 ==> opt_text(first_time) == rfc3339_text(published_time(all[0])),
        decreases articles.len() - i,
    {
        let published = match rfc3339(article_published_time(&articles[i])) {
            Some(text) => text,
            None => {
                assert(rfc3339_text(published_time(all[i as int])) is None);
                return None;
            },
        };
        let updated = match rfc3339(articles[i].updated_at) {
            Some(text) => text,
            None => {
                assert(rfc3339_text(all[i as int].updated_at) is None);
                return None;
            },
        };
        proof {
            lemma_prefix_step(all, i as int);
            let next = all.subrange(0, i as int + 1);
            assert forall|k: int| 0 <= k < next.len() implies rfc3339_text(
                published_time(#[trigger] next[k]),
            ) is Some && rfc3339_text(next[k].updated_at) is Some by {
                if k < i {
                    assert(all.subrange(0, i as int)[k] == next[k]);
                }
            }
        }
        let entry = write_entry(&articles[i], base.as_str(), published.as_str(), updated.as_str());
        entries.append(entry.as_str());
        if i == 0 {
            first_time = Some(published);
        }
        i += 1;
    }
    proof {
        lemma_prefix_full(all);
    }
    let mut xml = write_head(site_title, base.as_str());
    match first_time {
        Some(time) => {
            if articles.len() > 0 {
                let mut line = String::from_str("  <updated>");
                line.append(time.as_str());
                line.append("</updated>\n");
                xml.append(line.as_str());
            } else {
                assert(xml@ + Seq::<char>::empty() =~= xml@);
            }
        },
        None => {
            assert(xml@ + Seq::<char>::empty() =~= xml@);
        },
    }
    xml.append(entries.as_str());
    xml.append("</feed>\n");
    Some(xml)
}

} // verus!
