//! Rendering one post: its header lines, reading time, body and cover image,
//! as an HTML fragment.
use vstd::prelude::*;
use crate::images::{cover_html, get_cover_image_html};
use crate::text::{
    chars_of, concat, concat_strs, lemma_concat_push, lemma_concat_split, count_words, decimal, first_non_blank, join_from, join_lines, lines,
    push_decimal, skip_blank, split_lines, starts_with, starts_with_at, str_views, string_of_range,
    strip_once, strip_once_str, strip_prefixes, strip_prefixes_range, strip_suffixes, strip_suffixes_range, trim, trim_range,
    views, word_count,
};

verus! {

/// The heading marker stripped from a post's title line.
pub const HEADING_MARKER: &'static str = "## ";

/// The start of an optional third header line naming a cross-posted copy.
pub const CROSSPOST_MARKER: &'static str = "[substack post]";

pub const CROSSPOST_LINK_OPEN: &'static str = " / <a href=\"";

pub const CROSSPOST_LINK_CLOSE: &'static str = "\" target=\"_blank\">Substack</a>";

pub const WORDS_PER_MINUTE: usize = 200;

pub const POST_OPEN: &'static str = "\n        <div class=\"post-container\">\n            <h2>";

pub const POST_AFTER_TITLE: &'static str = "</h2>\n            <div class=\"post-title-separator\"></div>\n            <span class=\"post-date\">";

pub const POST_DATE_SEPARATOR: &'static str = " / ";

pub const POST_MINUTES_SUFFIX: &'static str = " min read ";

pub const POST_AFTER_LINK: &'static str = "</span>\n            ";

pub const POST_AFTER_COVER: &'static str = "\n            <div class=\"post-content\">\n                ";

pub const POST_CLOSE: &'static str = "\n            </div>\n        </div>\n        ";
/// The `k`-th line of `md`, or an empty line where it has fewer.
pub open spec fn nth_line(md: Seq<char>, k: int) -> Seq<char> {
    if 0 <= k < lines(md).len() {
        lines(md)[k]
    } else {
        seq![]
    }
}

/// A post's title: its first line, one leading heading marker stripped.
pub open spec fn title_of(md: Seq<char>) -> Seq<char> {
    strip_once(nth_line(md, 0), HEADING_MARKER@)
}

/// A post's date: its second line, verbatim.
pub open spec fn date_of(md: Seq<char>) -> Seq<char> {
    nth_line(md, 1)
}

/// Whether the third line of `md` names a cross-posted copy.
pub open spec fn has_crosspost_line(md: Seq<char>) -> bool {
    lines(md).len() > 2 && starts_with(lines(md)[2], CROSSPOST_MARKER@)
}

/// The address on the cross-post line: after the marker, trimmed, without
/// the parentheses around it.
pub open spec fn crosspost_target(md: Seq<char>) -> Seq<char> {
    strip_suffixes(
        strip_prefixes(trim(strip_prefixes(nth_line(md, 2), CROSSPOST_MARKER@)), "("@),
        ")"@,
    )
}

/// The cross-posted copy's address, where the post names one.
pub open spec fn crosspost_of(md: Seq<char>) -> Option<Seq<char>> {
    if has_crosspost_line(md) && crosspost_target(md).len() > 0 {
        Some(crosspost_target(md))
    } else {
        None
    }
}

/// The number of header lines: title, date, and the cross-post line if any.
pub open spec fn header_len(md: Seq<char>) -> int {
    if has_crosspost_line(md) {
        3
    } else if lines(md).len() < 2 {
        lines(md).len() as int
    } else {
        2
    }
}

/// A post's markdown body: the lines after the header, leading blank lines
/// skipped, joined with `'\n'`.
pub open spec fn body_of(md: Seq<char>) -> Seq<char> {
    join_lines(skip_blank(lines(md).skip(header_len(md))))
}

/// A post's source file: its path and its markdown text.
#[derive(Debug)]
pub struct Source {
    pub path: String,
    pub markdown: String,
}

/// The parts of a post's markdown source.
#[derive(Debug)]
pub struct Post {
    pub title: String,
    pub date: String,
    pub crosspost: Option<String>,
    pub body: String,
}

/// The view of an optional string.
pub open spec fn opt_view(o: Option<String>) -> Option<Seq<char>> {
    match o {
        Some(s) => Some(s@),
        None => None,
    }
}

/// The title in the lines `ls` of a post.
pub fn title_line(ls: &Vec<String>) -> (r: String)
    ensures
        r@ == strip_once(if ls@.len() > 0 {
            ls@[0]@
        } else {
            seq![]
        }, HEADING_MARKER@),
{
    if ls.len() > 0 {
        strip_once_str(ls[0].as_str(), HEADING_MARKER)
    } else {
        let r = String::new();
        proof {
            reveal_strlit("## ");
        }
        r
    }
}

/// Splits a post's markdown source into its parts.
pub fn parse_post(markdown: &str) -> (p: Post)
    ensures
        p.title@ == title_of(markdown@),
        p.date@ == date_of(markdown@),
        opt_view(p.crosspost) == crosspost_of(markdown@),
        p.body@ == body_of(markdown@),
{
    let v = chars_of(markdown);
    let ls = split_lines(&v);
    let title = title_line(&ls);
    let date = if ls.len() > 1 {
        ls[1].clone()
    } else {
        String::new()
    };
    let mut has_crosspost = false;
    let mut crosspost: Option<String> = None;
    if ls.len() > 2 {
        let l = chars_of(ls[2].as_str());
        let marker = chars_of(CROSSPOST_MARKER);
        assert(l@.subrange(0, l@.len() as int) =~= l@);
        if starts_with_at(&l, 0, l.len(), &marker) {
            has_crosspost = true;
            let a = strip_prefixes_range(&l, 0, l.len(), &marker);
            let (b, e) = trim_range(&l, a, l.len());
            let open = chars_of("(");
            let close = chars_of(")");
            let b2 = strip_prefixes_range(&l, b, e, &open);
            let e2 = strip_suffixes_range(&l, b2, e, &close);
            if e2 > b2 {
                crosspost = Some(string_of_range(&l, b2, e2));
            }
        }
    }
    let header: usize = if has_crosspost {
        3
    } else if ls.len() < 2 {
        ls.len()
    } else {
        2
    };
    let k = first_non_blank(&ls, header);
    let body = join_from(&ls, k);
    Post { title, date, crosspost, body }
}

/// Minutes to read `words` words at 200 a minute, rounded up, and at least one.
pub open spec fn reading_minutes(words: nat) -> nat {
    let m = words / 200 + if words % 200 == 0 {
        0nat
    } else {
        1nat
    };
    if m < 1 {
        1
    } else {
        m
    }
}

/// `n`, or the largest `u32` where `n` is larger.
pub open spec fn saturate_u32(n: nat) -> u32 {
    if n > u32::MAX {
        u32::MAX
    } else {
        n as u32
    }
}

/// The estimated reading time of `text`, in minutes.
pub fn estimate_reading_time(text: &str) -> (r: u32)
    ensures
        r == saturate_u32(reading_minutes(word_count(text@))),
{
    let v = chars_of(text);
    let words = count_words(&v);
    let mut minutes = words / WORDS_PER_MINUTE;
    if words % WORDS_PER_MINUTE != 0 {
        minutes = minutes + 1;
    }
    if minutes < 1 {
        1
    } else if minutes > u32::MAX as usize {
        u32::MAX
    } else {
        minutes as u32
    }
}

/// The name of the HTML that commonmark rendering with strikethrough gives for
/// `md`.
pub uninterp spec fn commonmark_html(md: Seq<char>) -> Seq<char>;

/// Relies on pulldown-cmark's `Parser::new_ext` with `ENABLE_STRIKETHROUGH` and
/// `html::push_html`: the HTML of a markdown text, which depends on the text alone.
#[verifier::external_body]
fn render_markdown(md: &str) -> (r: String)
    ensures
        r@ == commonmark_html(md@),
{
    let mut options = pulldown_cmark::Options::empty();
    options.insert(pulldown_cmark::Options::ENABLE_STRIKETHROUGH);
    let parser = pulldown_cmark::Parser::new_ext(md, options);
    let mut html = String::new();
    pulldown_cmark::html::push_html(&mut html, parser);
    html
}

/// The inline link to a cross-posted copy; empty where there is none.
pub open spec fn crosspost_html(url: Option<Seq<char>>) -> Seq<char> {
    match url {
        Some(u) => CROSSPOST_LINK_OPEN@ + u + CROSSPOST_LINK_CLOSE@,
        None => seq![],
    }
}

pub fn crosspost_link_html(url: &Option<String>) -> (r: String)
    ensures
        r@ == crosspost_html(opt_view(*url)),
{
    match url {
        Some(u) => String::from_str(CROSSPOST_LINK_OPEN).concat(u.as_str()).concat(
            CROSSPOST_LINK_CLOSE,
        ),
        None => String::new(),
    }
}

/// A post's HTML fragment from its parts.
pub open spec fn post_fragment_spec(
    title: Seq<char>,
    date: Seq<char>,
    minutes: nat,
    link: Seq<char>,
    cover: Seq<char>,
    content: Seq<char>,
) -> Seq<char> {
    concat(
        seq![
            POST_OPEN@,
            title,
            POST_AFTER_TITLE@,
            date,
            POST_DATE_SEPARATOR@,
            decimal(minutes),
            POST_MINUTES_SUFFIX@,
            link,
            POST_AFTER_LINK@,
            cover,
            POST_AFTER_COVER@,
            content,
            POST_CLOSE@,
        ],
    )
}

/// A post's HTML fragment: title, date, reading time, cross-post link, cover
/// image and the rendered body `content`.
pub fn post_fragment(
    title: &String,
    date: &String,
    minutes: u32,
    link: &String,
    cover: &String,
    content: &String,
) -> (r: String)
    ensures
        r@ == post_fragment_spec(title@, date@, minutes as nat, link@, cover@, content@),
{
    let mut m = String::new();
    push_decimal(&mut m, minutes as u64);
    let parts: Vec<&str> = vec![
        POST_OPEN,
        title.as_str(),
        POST_AFTER_TITLE,
        date.as_str(),
        POST_DATE_SEPARATOR,
        m.as_str(),
        POST_MINUTES_SUFFIX,
        link.as_str(),
        POST_AFTER_LINK,
        cover.as_str(),
        POST_AFTER_COVER,
        content.as_str(),
        POST_CLOSE,
    ];
    let r = concat_strs(&parts);
    assert(str_views(parts@) =~= seq![
        POST_OPEN@,
        title@,
        POST_AFTER_TITLE@,
        date@,
        POST_DATE_SEPARATOR@,
        decimal(minutes as nat),
        POST_MINUTES_SUFFIX@,
        link@,
        POST_AFTER_LINK@,
        cover@,
        POST_AFTER_COVER@,
        content@,
        POST_CLOSE@,
    ]);
    r
}

/// The HTML fragment of the post at `md_file` with markdown source `md`.
pub open spec fn post_html(md: Seq<char>, md_file: Seq<char>, images: Seq<Seq<char>>) -> Seq<char> {
    post_fragment_spec(
        title_of(md),
        date_of(md),
        saturate_u32(reading_minutes(word_count(body_of(md)))) as nat,
        crosspost_html(crosspost_of(md)),
        cover_html(md_file, images),
        commonmark_html(body_of(md)),
    )
}

/// The rendered post shows the title, line one without its heading marker,
/// and then the date, line two verbatim.
pub proof fn lemma_title_and_date_shown(md: Seq<char>, md_file: Seq<char>, images: Seq<Seq<char>>)
    ensures
        ({
            let html = post_html(md, md_file, images);
            let t = POST_OPEN@.len() as int;
            let d = t + title_of(md).len() + POST_AFTER_TITLE@.len();
            &&& title_of(md) == strip_once(nth_line(md, 0), HEADING_MARKER@)
            &&& date_of(md) == nth_line(md, 1)
            &&& html.subrange(t, t + title_of(md).len()) == title_of(md)
            &&& html.subrange(d, d + date_of(md).len()) == date_of(md)
        }),
{
    let parts = seq![
        POST_OPEN@,
        title_of(md),
        POST_AFTER_TITLE@,
        date_of(md),
        POST_DATE_SEPARATOR@,
        decimal(saturate_u32(reading_minutes(word_count(body_of(md)))) as nat),
        POST_MINUTES_SUFFIX@,
        crosspost_html(crosspost_of(md)),
        POST_AFTER_LINK@,
        cover_html(md_file, images),
        POST_AFTER_COVER@,
        commonmark_html(body_of(md)),
        POST_CLOSE@,
    ];
    lemma_concat_split(parts, 4);
    let h1 = seq![POST_OPEN@];
    let h2 = h1.push(title_of(md));
    let h3 = h2.push(POST_AFTER_TITLE@);
    let h4 = h3.push(date_of(md));
    assert(parts.take(4) =~= h4);
    assert(h1.drop_last() =~= Seq::<Seq<char>>::empty());
    assert(h2.drop_last() =~= h1);
    assert(h3.drop_last() =~= h2);
    assert(h4.drop_last() =~= h3);
    assert(concat(Seq::<Seq<char>>::empty()) == Seq::<char>::empty());
    assert(concat(h1) =~= POST_OPEN@);
    assert(concat(h2) == concat(h1) + title_of(md));
    assert(concat(h3) == concat(h2) + POST_AFTER_TITLE@);
    assert(concat(h4) == concat(h3) + date_of(md));
}

/// The rendered post shows the cover-image tag after the date line, which
/// `POST_AFTER_LINK` closes, and before the content, which `POST_AFTER_COVER`
/// opens.
pub proof fn lemma_cover_shown(md: Seq<char>, md_file: Seq<char>, images: Seq<Seq<char>>)
    ensures
        exists|before: Seq<char>, after: Seq<char>|
            post_html(md, md_file, images) == before + POST_AFTER_LINK@ + cover_html(md_file, images)
                + POST_AFTER_COVER@ + after,
{
    let pieces = seq![
        POST_OPEN@,
        title_of(md),
        POST_AFTER_TITLE@,
        date_of(md),
        POST_DATE_SEPARATOR@,
        decimal(saturate_u32(reading_minutes(word_count(body_of(md)))) as nat),
        POST_MINUTES_SUFFIX@,
        crosspost_html(crosspost_of(md)),
        POST_AFTER_LINK@,
        cover_html(md_file, images),
        POST_AFTER_COVER@,
        commonmark_html(body_of(md)),
        POST_CLOSE@,
    ];
    lemma_concat_split(pieces, 8);
    let tail = pieces.skip(8);
    let t0 = Seq::<Seq<char>>::empty();
    let t1 = t0.push(POST_AFTER_LINK@);
    let t2 = t1.push(cover_html(md_file, images));
    let t3 = t2.push(POST_AFTER_COVER@);
    let t4 = t3.push(commonmark_html(body_of(md)));
    let t5 = t4.push(POST_CLOSE@);
    assert(tail =~= t5);
    lemma_concat_push(t0, POST_AFTER_LINK@);
    lemma_concat_push(t1, cover_html(md_file, images));
    lemma_concat_push(t2, POST_AFTER_COVER@);
    lemma_concat_push(t3, commonmark_html(body_of(md)));
    lemma_concat_push(t4, POST_CLOSE@);
    let before = concat(pieces.take(8));
    let after = commonmark_html(body_of(md)) + POST_CLOSE@;
    assert(post_html(md, md_file, images) =~= before + POST_AFTER_LINK@ + cover_html(md_file, images)
        + POST_AFTER_COVER@ + after);
}

/// Renders the post at `md_file`, whose markdown source is `markdown`, where
/// `images` lists the file names in the images directory.
pub fn markdown_to_html(markdown: &str, md_file: &str, images: &Vec<String>) -> (r: String)
    ensures
        r@ == post_html(markdown@, md_file@, views(images@)),
{
    let post = parse_post(markdown);
    let minutes = estimate_reading_time(post.body.as_str());
    let content = render_markdown(post.body.as_str());
    let link = crosspost_link_html(&post.crosspost);
    let cover = get_cover_image_html(md_file, images);
    post_fragment(&post.title, &post.date, minutes, &link, &cover, &content)
}

} // verus!
