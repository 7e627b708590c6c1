//! Blog posts: a post assembled from its front matter and its Markdown body,
//! and the metadata that lists posts.
use vstd::prelude::*;

use chrono::Datelike;

verus! {

/// A post as it is shown.
#[derive(Debug, Clone)]
pub struct Post {
    pub title: String,
    pub author: String,
    pub created_at: String,
    pub created_at_pretty: String,
    pub content: String,
    pub html: String,
    pub toc: Option<String>,
}

/// The title and path of a post, as the post index lists them.
#[derive(Debug, Clone, PartialEq, Eq)]
pub struct PostMetadata {
    pub title: String,
    pub path: String,
}

/// The front matter of a post file.
#[derive(Debug, Default)]
pub struct PostMatter {
    pub title: String,
    pub author: String,
    pub date: String,
}

#[verifier::external_type_specification]
#[verifier::external_body]
pub struct ExPod(gray_matter::Pod);

/// What gray_matter makes of a post file with YAML front matter: the body
/// after the front matter and whether front matter data was found (a
/// non-empty block that parses to a value), or `None` when it cannot parse
/// the file.
pub uninterp spec fn front_matter_split(md: Seq<char>) -> Option<(Seq<char>, bool)>;

/// `gray_matter::Matter::<YAML>::new().parse::<Pod>(md)`: the body and the
/// front matter data, or `None` on error. Claimed: the body, and whether
/// there is data, are those named by [`front_matter_split`]. The data is
/// carried through unread; its contents are not claimed.
#[verifier::external_body]
fn parse_front_matter(md: &str) -> (r: Option<(String, Option<gray_matter::Pod>)>)
    ensures
        match r {
            Some((b, d)) => front_matter_split(md@) == Some((b@, d is Some)),
            None => front_matter_split(md@) is None,
        },
{
    match gray_matter::Matter::<gray_matter::engine::YAML>::new().parse::<gray_matter::Pod>(md) {
        Ok(parsed) => Some((parsed.content, parsed.data)),
        Err(_) => None,
    }
}

/// The body of a post file as [`split_post`] gives it: what follows the
/// front matter, or the whole text when the file does not parse.
pub open spec fn post_body(md: Seq<char>) -> Seq<char> {
    match front_matter_split(md) {
        Some((b, _)) => b,
        None => md,
    }
}

/// Whether [`split_post`] finds front matter data in a post file: the file
/// parses and has data.
pub open spec fn post_has_data(md: Seq<char>) -> bool {
    match front_matter_split(md) {
        Some((_, has_data)) => has_data,
        None => false,
    }
}

/// Splits a post file into its body and its front matter data: a file that
/// does not parse keeps its whole text as the body and has no data.
pub fn split_post(md: &str) -> (r: (String, Option<gray_matter::Pod>))
    ensures
        r.0@ == post_body(md@),
        r.1 is Some <==> post_has_data(md@),
{
    match parse_front_matter(md) {
        Some(parts) => parts,
        None => (String::from_str(md), None),
    }
}

/// What femark renders a Markdown text to: the HTML and the table of
/// contents, or `None` when rendering fails.
pub uninterp spec fn femark_output(markdown: Seq<char>) -> Option<(Seq<char>, Option<Seq<char>>)>;

/// The date chrono parses `text` to with the format `fmt`, as year, month and
/// day, or `None` when it does not parse.
pub uninterp spec fn chrono_parse_ymd(text: Seq<char>, fmt: Seq<char>) -> Option<(i32, u32, u32)>;

/// Whether a year of the proleptic Gregorian calendar is a leap year.
pub open spec fn is_leap_year(year: int) -> bool {
    (year % 4 == 0 && year % 100 != 0) || year % 400 == 0
}

/// The number of days of a month (1 to 12) of a year.
pub open spec fn days_in_month(year: int, month: int) -> int {
    if month == 2 {
        if is_leap_year(year) {
            29
        } else {
            28
        }
    } else if month == 4 || month == 6 || month == 9 || month == 11 {
        30
    } else {
        31
    }
}

/// Whether year, month and day form a date chrono's `NaiveDate` represents:
/// a year from -262143 to 262142, a month from 1 to 12 and a day of that
/// month.
pub open spec fn valid_ymd(year: i32, month: u32, day: u32) -> bool {
    &&& -262143 <= year <= 262142
    &&& 1 <= month <= 12
    &&& 1 <= day <= days_in_month(year as int, month as int)
}

/// The text chrono formats a date to with the format `fmt`.
pub uninterp spec fn chrono_format_ymd(year: i32, month: u32, day: u32, fmt: Seq<char>) -> Seq<
    char,
>;

/// `femark::process_markdown_to_html(markdown)`: its HTML and table of
/// contents, or `None` on error. Claimed: the result named by
/// [`femark_output`].
#[verifier::external_body]
fn render_markdown(markdown: &str) -> (r: Option<(String, Option<String>)>)
    ensures
        match r {
            Some((html, toc)) => femark_output(markdown@) == Some(
                (
                    html@,
                    match toc {
                        Some(t) => Some(t@),
                        None => None,
                    },
                ),
            ),
            None => femark_output(markdown@) is None,
        },
{
    match femark::process_markdown_to_html(markdown) {
        Ok(out) => Some((out.content, out.toc)),
        Err(_) => None,
    }
}

/// `chrono::NaiveDate::parse_from_str(text, fmt)`, as year, month and day.
/// Claimed: the result named by [`chrono_parse_ymd`], and a parsed date is
/// a valid one.
#[verifier::external_body]
fn parse_ymd(text: &str, fmt: &str) -> (r: Option<(i32, u32, u32)>)
    ensures
        r == chrono_parse_ymd(text@, fmt@),
        r matches Some((y, m, d)) ==> valid_ymd(y, m, d),
{
    match chrono::NaiveDate::parse_from_str(text, fmt) {
        Ok(date) => Some((date.year(), date.month(), date.day())),
        Err(_) => None,
    }
}

/// `chrono::NaiveDate::default()` as year, month and day. Claimed, as the
/// chrono source defines it: 1 January 1970.
#[verifier::external_body]
fn default_ymd() -> (r: (i32, u32, u32))
    ensures
        r == (1970i32, 1u32, 1u32),
{
    let date = chrono::NaiveDate::default();
    (date.year(), date.month(), date.day())
}

/// The date of year, month and day (`NaiveDate::from_ymd_opt`) formatted
/// with `fmt` (`format(fmt).to_string()`), or `None` when they form no
/// date. Only the format the posts use is admitted, as formatting panics on
/// a malformed format. Claimed: `Some` exactly for a valid date, with the
/// text named by [`chrono_format_ymd`].
#[verifier::external_body]
fn format_ymd(year: i32, month: u32, day: u32, fmt: &str) -> (r: Option<String>)
    requires
        fmt@ == "%a %b %d %Y"@,
    ensures
        r is Some <==> valid_ymd(year, month, day),
        r matches Some(t) ==> t@ == chrono_format_ymd(year, month, day, fmt@),
{
    match chrono::NaiveDate::from_ymd_opt(year, month, day) {
        Some(date) => Some(date.format(fmt).to_string()),
        None => None,
    }
}

/// The date a post's `date` field parses to as `YYYY-MM-DD`, or 1 January
/// 1970 when it does not parse.
pub open spec fn post_ymd(date: Seq<char>) -> (i32, u32, u32) {
    match chrono_parse_ymd(date, "%Y-%m-%d"@) {
        Some(ymd) => ymd,
        None => (1970i32, 1u32, 1u32),
    }
}

/// A post date written out as weekday, month, day and year (such as
/// `"Tue Mar 14 2023"`).
pub open spec fn pretty_date_text(date: Seq<char>) -> Seq<char> {
    let (y, m, d) = post_ymd(date);
    chrono_format_ymd(y, m, d, "%a %b %d %Y"@)
}

/// Writes a `YYYY-MM-DD` date out as weekday, month, day and year; a date
/// that does not parse counts as 1 January 1970.
pub fn pretty_date(date: &str) -> (r: String)
    ensures
        r@ == pretty_date_text(date@),
        chrono_parse_ymd(date@, "%Y-%m-%d"@) matches Some((y, m, d)) ==> r@ == chrono_format_ymd(
            y,
            m,
            d,
            "%a %b %d %Y"@,
        ),
        chrono_parse_ymd(date@, "%Y-%m-%d"@) is None ==> r@ == chrono_format_ymd(
            1970i32,
            1u32,
            1u32,
            "%a %b %d %Y"@,
        ),
{
    let (y, m, d) = match parse_ymd(date, "%Y-%m-%d") {
        Some(ymd) => ymd,
        None => default_ymd(),
    };
    match format_ymd(y, m, d, "%a %b %d %Y") {
        Some(t) => t,
        None => String::new(),
    }
}

/// The HTML femark renders a body to, empty when rendering fails.
pub open spec fn post_html(content: Seq<char>) -> Seq<char> {
    match femark_output(content) {
        Some((html, _)) => html,
        None => Seq::empty(),
    }
}

/// The table of contents femark renders a body to, none when rendering
/// fails.
pub open spec fn post_toc(content: Seq<char>) -> Option<Seq<char>> {
    match femark_output(content) {
        Some((_, toc)) => toc,
        None => None,
    }
}

impl Post {
    /// The post of a file whose front matter is `matter` and whose body is
    /// `content`: the body is rendered to HTML with a table of contents, and
    /// the date is written out for display.
    pub fn from_parts(matter: PostMatter, content: String) -> (r: Post)
        ensures
            femark_output(content@) matches Some((h, _)) ==> r.html@ == h,
            femark_output(content@) matches Some((_, t)) ==> match r.toc {
                Some(x) => t == Some(x@),
                None => t is None,
            },
            femark_output(content@) is None ==> r.html@.len() == 0 && r.toc is None,
            r.title@ == matter.title@,
            r.author@ == matter.author@,
            r.created_at@ == matter.date@,
            r.created_at_pretty@ == pretty_date_text(matter.date@),
            r.content@ == content@,
            r.html@ == post_html(content@),
            match r.toc {
                Some(t) => post_toc(content@) == Some(t@),
                None => post_toc(content@) is None,
            },
    {
        let (html, toc) = match render_markdown(content.as_str()) {
            Some(out) => out,
            None => (String::new(), None),
        };
        let created_at_pretty = pretty_date(matter.date.as_str());
        Post {
            title: matter.title,
            author: matter.author,
            created_at: matter.date,
            created_at_pretty,
            content,
            html,
            toc,
        }
    }
}

/// The link to a post: `"/posts/"` followed by its path.
pub open spec fn post_href(path: Seq<char>) -> Seq<char> {
    "/posts/"@ + path
}

impl PostMetadata {
    /// The link the post index points to for this post.
    pub fn href(&self) -> (r: String)
        ensures
            r@ == post_href(self.path@),
    {
        let mut r = String::from_str("/posts/");
        r.append(self.path.as_str());
        r
    }
}


/// The date shown for a post is the one chrono reads from its `date` field
/// with `"%Y-%m-%d"` and no other reading: written out with
/// `"%a %b %d %Y"`, or 1 January 1970 written out so when that reading fails.
pub proof fn lemma_pretty_date_reads_ymd(date: Seq<char>)
    ensures
        chrono_parse_ymd(date, "%Y-%m-%d"@) matches Some((y, m, d)) ==> pretty_date_text(date)
            == chrono_format_ymd(y, m, d, "%a %b %d %Y"@),
        chrono_parse_ymd(date, "%Y-%m-%d"@) is None ==> pretty_date_text(date)
            == chrono_format_ymd(1970i32, 1u32, 1u32, "%a %b %d %Y"@),
{
}

/// A post's HTML is exactly what femark renders its body to, whatever the
/// table of contents is, and its table of contents is femark's; both are
/// empty when femark fails.
pub proof fn lemma_post_rendering(content: Seq<char>)
    ensures
        femark_output(content) matches Some((h, t)) ==> post_html(content) == h && post_toc(
            content,
        ) == t,
        femark_output(content) is None ==> post_html(content).len() == 0 && post_toc(
            content,
        ) is None,
{
}

} // verus!
