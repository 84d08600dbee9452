//! The index page: every published post, newest first.
use vstd::prelude::*;
use crate::config::Config;
use crate::paths::{page_name, page_name_of};
use crate::post::{date_of, title_line, title_of, Source};
use crate::template::{
    create_html_template, data_path, data_path_of, lemma_page_holds_content, page_html,
    ABOUT_PAGE, CURRENT_DIR_PREFIX, NEWSLETTER_PAGE,
};
use crate::text::{
    chars_of, concat, concat_strs, lemma_concat_push, lines, split_lines, starts_with, str_views, strip_once,
    strip_once_str, views,
};

verus! {

pub const NOT_FOUND_PAGE: &'static str = "404.md";

pub const EXAMPLE_PAGE: &'static str = "example.md";

pub const INDEX_FILE: &'static str = "/index.html";

pub const ENTRY_OPEN: &'static str = "<div class='post'>\n                <span class=\"index-date\">";

pub const ENTRY_AFTER_DATE: &'static str = "</span>\n                <span class=\"index-post-title\"><a href=\"";

pub const ENTRY_AFTER_URL: &'static str = "\">";

pub const ENTRY_CLOSE: &'static str = "</a></span>\n            </div>";

/// Whether a post is listed on the index page.
#[derive(Clone, Copy, Debug, PartialEq, Eq)]
pub enum Visibility {
    Published,
    Unpublished,
}

/// The about, newsletter and not-found pages are never listed; the example
/// page is not listed in production.
pub open spec fn visibility(c: Config, md_file: Seq<char>) -> Visibility {
    let p = strip_once(md_file, CURRENT_DIR_PREFIX@);
    if p == data_path(c, ABOUT_PAGE@) || p == data_path(c, NEWSLETTER_PAGE@) || p == data_path(
        c,
        NOT_FOUND_PAGE@,
    ) {
        Visibility::Unpublished
    } else if c.is_prod && p == data_path(c, EXAMPLE_PAGE@) {
        Visibility::Unpublished
    } else {
        Visibility::Published
    }
}

pub fn post_visibility(config: &Config, md_file: &str) -> (v: Visibility)
    ensures
        v == visibility(*config, md_file@),
{
    let p = strip_once_str(md_file, CURRENT_DIR_PREFIX);
    let about = data_path_of(config, ABOUT_PAGE);
    let newsletter = data_path_of(config, NEWSLETTER_PAGE);
    let not_found = data_path_of(config, NOT_FOUND_PAGE);
    let example = data_path_of(config, EXAMPLE_PAGE);
    if p == about || p == newsletter || p == not_found {
        Visibility::Unpublished
    } else if config.is_prod && p == example {
        Visibility::Unpublished
    } else {
        Visibility::Published
    }
}

/// The address of the page of the post at `md_file`: rooted at `/` in
/// production, else below the base URL.
pub open spec fn article_url(c: Config, md_file: Seq<char>) -> Seq<char> {
    if c.is_prod {
        "/"@ + page_name(md_file)
    } else {
        c.base_url@ + "/"@ + page_name(md_file)
    }
}

pub fn article_url_of(config: &Config, md_file: &str) -> (r: String)
    ensures
        r@ == article_url(*config, md_file@),
{
    let name = page_name_of(md_file);
    if config.is_prod {
        String::from_str("/").concat(name.as_str())
    } else {
        config.base_url.clone().concat("/").concat(name.as_str())
    }
}

/// The name of the calendar date, as (year, month, day), that `s` spells in
/// the form month-day-year, if it spells one.
pub uninterp spec fn mdy_date(s: Seq<char>) -> Option<(i32, u32, u32)>;

/// Relies on chrono's `NaiveDate::parse_from_str` with the format `%m-%d-%Y`:
/// the date that `s` spells, which depends on `s` alone.
#[verifier::external_body]
fn parse_mdy(s: &str) -> (r: Option<(i32, u32, u32)>)
    ensures
        r == mdy_date(s@),
{
    match chrono::NaiveDate::parse_from_str(s, "%m-%d-%Y") {
        Ok(d) => Some(
            (chrono::Datelike::year(&d), chrono::Datelike::month(&d), chrono::Datelike::day(&d)),
        ),
        Err(_) => None,
    }
}

/// The sort key of the date line `date`: the date it spells, or `None`,
/// which sorts below every date, where it spells none.
pub fn date_key(date: &str) -> (r: Option<(i32, u32, u32)>)
    ensures
        r == mdy_date(date@),
{
    parse_mdy(date)
}

/// Whether key `a` sorts strictly older than key `b`: dates compare by year,
/// month and day, and a date that did not parse is older than every date.
pub open spec fn older(a: Option<(i32, u32, u32)>, b: Option<(i32, u32, u32)>) -> bool {
    match (a, b) {
        (None, Some(_)) => true,
        (Some(x), Some(y)) => x.0 < y.0 || (x.0 == y.0 && (x.1 < y.1 || (x.1 == y.1 && x.2 < y.2))),
        _ => false,
    }
}

pub fn is_older(a: Option<(i32, u32, u32)>, b: Option<(i32, u32, u32)>) -> (r: bool)
    ensures
        r == older(a, b),
{
    match (a, b) {
        (None, Some(_)) => true,
        (Some(x), Some(y)) => x.0 < y.0 || (x.0 == y.0 && (x.1 < y.1 || (x.1 == y.1 && x.2 < y.2))),
        _ => false,
    }
}

/// One line of the index: address, title, date and the date's sort key.
#[derive(Debug)]
pub struct IndexEntry {
    pub url: String,
    pub title: String,
    pub date: String,
    pub key: Option<(i32, u32, u32)>,
}

/// What an index entry holds, as values.
pub struct EntryView {
    pub url: Seq<char>,
    pub title: Seq<char>,
    pub date: Seq<char>,
    pub key: Option<(i32, u32, u32)>,
}

impl View for IndexEntry {
    type V = EntryView;

    open spec fn view(&self) -> EntryView {
        EntryView { url: self.url@, title: self.title@, date: self.date@, key: self.key }
    }
}

pub open spec fn entry_views(s: Seq<IndexEntry>) -> Seq<EntryView> {
    s.map_values(|e: IndexEntry| e@)
}

/// The index entry of the post at `md_file` with markdown source `md`.
pub open spec fn entry_of(c: Config, md_file: Seq<char>, md: Seq<char>) -> EntryView {
    EntryView {
        url: article_url(c, md_file),
        title: title_of(md),
        date: date_of(md),
        key: mdy_date(date_of(md)),
    }
}

pub fn index_entry(config: &Config, md_file: &str, markdown: &str) -> (e: IndexEntry)
    ensures
        e@ == entry_of(*config, md_file@, markdown@),
{
    let url = article_url_of(config, md_file);
    let ls = split_lines(&chars_of(markdown));
    assert(views(ls@) == lines(markdown@));
    let title = title_line(&ls);
    let date = if ls.len() > 1 {
        ls[1].clone()
    } else {
        String::new()
    };
    let key = date_key(date.as_str());
    IndexEntry { url, title, date, key }
}

/// The entries of the published posts among `sources`, in their order.
pub open spec fn index_entries(c: Config, sources: Seq<Source>) -> Seq<EntryView>
    decreases sources.len(),
{
    if sources.len() == 0 {
        seq![]
    } else {
        let rest = index_entries(c, sources.drop_last());
        let s = sources.last();
        if visibility(c, s.path@) == Visibility::Published {
            rest.push(entry_of(c, s.path@, s.markdown@))
        } else {
            rest
        }
    }
}

pub fn collect_entries(config: &Config, sources: &Vec<Source>) -> (r: Vec<IndexEntry>)
    ensures
        entry_views(r@) == index_entries(*config, sources@),
{
    let mut r: Vec<IndexEntry> = Vec::new();
    let mut i: usize = 0;
    while i < sources.len()
        invariant
            i <= sources@.len(),
            entry_views(r@) == index_entries(*config, sources@.take(i as int)),
        decreases sources@.len() - i,
    {
        assert(sources@.take(i + 1).drop_last() =~= sources@.take(i as int));
        let s = &sources[i];
        match post_visibility(config, s.path.as_str()) {
            Visibility::Published => {
                let e = index_entry(config, s.path.as_str(), s.markdown.as_str());
                r.push(e);
                assert(entry_views(r@) =~= index_entries(*config, sources@.take(i + 1)));
            },
            Visibility::Unpublished => {},
        }
        i = i + 1;
    }
    assert(sources@.take(i as int) =~= sources@);
    r
}

/// The special pages' paths differ from one another: their names differ in
/// length, and whether `"./"` is stripped does not depend on the name.
proof fn lemma_special_paths_differ(c: Config)
    ensures
        data_path(c, EXAMPLE_PAGE@) != data_path(c, ABOUT_PAGE@),
        data_path(c, EXAMPLE_PAGE@) != data_path(c, NEWSLETTER_PAGE@),
        data_path(c, EXAMPLE_PAGE@) != data_path(c, NOT_FOUND_PAGE@),
{
    reveal_strlit("example.md");
    reveal_strlit("about.md");
    reveal_strlit("newsletter.md");
    reveal_strlit("404.md");
    reveal_strlit("./");
    let d = c.data_dir@;
    let names = seq![EXAMPLE_PAGE@, ABOUT_PAGE@, NEWSLETTER_PAGE@, NOT_FOUND_PAGE@];
    assert forall|k: int| 0 <= k < 4 implies starts_with(d + #[trigger] names[k], CURRENT_DIR_PREFIX@)
        == starts_with(d + EXAMPLE_PAGE@, CURRENT_DIR_PREFIX@) by {
        let a = d + names[k];
        let b = d + EXAMPLE_PAGE@;
        if d.len() >= 2 {
            assert(a.take(2) =~= d.take(2));
            assert(b.take(2) =~= d.take(2));
        } else if d.len() == 1 {
            assert(a[1] != '/');
            assert(b[1] != '/');
            assert(a.take(2)[1] != CURRENT_DIR_PREFIX@[1]);
            assert(b.take(2)[1] != CURRENT_DIR_PREFIX@[1]);
        } else {
            assert(a[0] != '.');
            assert(b[0] != '.');
            assert(a.take(2)[0] != CURRENT_DIR_PREFIX@[0]);
            assert(b.take(2)[0] != CURRENT_DIR_PREFIX@[0]);
        }
    }
    assert(names[1] == ABOUT_PAGE@);
    assert(names[2] == NEWSLETTER_PAGE@);
    assert(names[3] == NOT_FOUND_PAGE@);
    assert(data_path(c, EXAMPLE_PAGE@).len() != data_path(c, ABOUT_PAGE@).len());
    assert(data_path(c, EXAMPLE_PAGE@).len() != data_path(c, NEWSLETTER_PAGE@).len());
    assert(data_path(c, EXAMPLE_PAGE@).len() != data_path(c, NOT_FOUND_PAGE@).len());
}

/// Wherever the example page stands among the sources, it is left out of
/// the index in production and listed outside it.
pub proof fn lemma_example_page_in_index(c: Config, sources: Seq<Source>, i: int)
    requires
        0 <= i < sources.len(),
        strip_once(sources[i].path@, CURRENT_DIR_PREFIX@) == data_path(c, EXAMPLE_PAGE@),
    ensures
        c.is_prod ==> index_entries(c, sources) == index_entries(c, sources.remove(i)),
        !c.is_prod ==> index_entries(c, sources).contains(
            entry_of(c, sources[i].path@, sources[i].markdown@),
        ),
    decreases sources.len(),
{
    lemma_special_paths_differ(c);
    let rest = sources.drop_last();
    let e = entry_of(c, sources[i].path@, sources[i].markdown@);
    if i == sources.len() - 1 {
        assert(sources.remove(i) =~= rest);
        if !c.is_prod {
            assert(index_entries(c, sources).last() == e);
        }
    } else {
        lemma_example_page_in_index(c, rest, i);
        assert(rest[i] == sources[i]);
        assert(sources.remove(i).drop_last() =~= rest.remove(i));
        assert(sources.remove(i).last() == sources.last());
        if !c.is_prod {
            let before = index_entries(c, rest);
            let j = choose|j: int| 0 <= j < before.len() && before[j] == e;
            assert(index_entries(c, sources)[j] == e);
        }
    }
}

/// Outside production, two posts whose pages have different names have
/// different addresses.
proof fn lemma_urls_differ(c: Config, p: Seq<char>, q: Seq<char>)
    requires
        !c.is_prod,
        page_name(p) != page_name(q),
    ensures
        article_url(c, p) != article_url(c, q),
{
    reveal_strlit("/");
    let n = c.base_url@.len() + 1int;
    assert(article_url(c, p).skip(n) =~= page_name(p));
    assert(article_url(c, q).skip(n) =~= page_name(q));
}

/// No index entry has the address of the post at `p` when no source's page
/// has the name of its page.
proof fn lemma_entry_absent(c: Config, sources: Seq<Source>, p: Seq<char>, e: EntryView)
    requires
        !c.is_prod,
        e.url == article_url(c, p),
        forall|j: int| 0 <= j < sources.len() ==> page_name(#[trigger] sources[j].path@) != page_name(p),
    ensures
        index_entries(c, sources).to_multiset().count(e) == 0,
    decreases sources.len(),
{
    broadcast use vstd::seq_lib::to_multiset_build, vstd::multiset::group_multiset_axioms;

    if sources.len() > 0 {
        let rest = sources.drop_last();
        assert forall|j: int| 0 <= j < rest.len() implies page_name(#[trigger] rest[j].path@) != page_name(p) by {
            assert(rest[j] == sources[j]);
        }
        lemma_entry_absent(c, rest, p, e);
        assert(page_name(sources[sources.len() - 1].path@) != page_name(p));
        lemma_urls_differ(c, sources.last().path@, p);
    } else {
        broadcast use vstd::seq_lib::to_multiset_contains;

        assert(!index_entries(c, sources).contains(e));
    }
}

/// Outside production the example page is listed exactly once, when no other
/// post's page has the same name.
pub proof fn lemma_example_page_listed_once(c: Config, sources: Seq<Source>, i: int)
    requires
        !c.is_prod,
        0 <= i < sources.len(),
        strip_once(sources[i].path@, CURRENT_DIR_PREFIX@) == data_path(c, EXAMPLE_PAGE@),
        forall|j: int|
            0 <= j < sources.len() && j != i ==> page_name(#[trigger] sources[j].path@) != page_name(
                sources[i].path@,
            ),
    ensures
        index_entries(c, sources).to_multiset().count(
            entry_of(c, sources[i].path@, sources[i].markdown@),
        ) == 1,
    decreases sources.len(),
{
    broadcast use vstd::seq_lib::to_multiset_build, vstd::multiset::group_multiset_axioms;

    lemma_special_paths_differ(c);
    let rest = sources.drop_last();
    let p = sources[i].path@;
    let e = entry_of(c, p, sources[i].markdown@);
    if i == sources.len() - 1 {
        assert forall|j: int| 0 <= j < rest.len() implies page_name(#[trigger] rest[j].path@) != page_name(p) by {
            assert(rest[j] == sources[j]);
        }
        lemma_entry_absent(c, rest, p, e);
    } else {
        assert(rest[i] == sources[i]);
        assert forall|j: int| 0 <= j < rest.len() && j != i implies page_name(#[trigger] rest[j].path@)
            != page_name(rest[i].path@) by {
            assert(rest[j] == sources[j]);
        }
        lemma_example_page_listed_once(c, rest, i);
        assert(page_name(sources[sources.len() - 1].path@) != page_name(p));
        lemma_urls_differ(c, sources.last().path@, p);
    }
}

/// Where `e` goes in `s`: before the first entry strictly older than it.
pub open spec fn insert_pos(s: Seq<EntryView>, e: EntryView) -> int
    decreases s.len(),
{
    if s.len() == 0 || older(s[0].key, e.key) {
        0
    } else {
        1 + insert_pos(s.drop_first(), e)
    }
}

/// `s` sorted newest first; entries with equal dates keep their order.
pub open spec fn sort_desc(s: Seq<EntryView>) -> Seq<EntryView>
    decreases s.len(),
{
    if s.len() == 0 {
        s
    } else {
        let sorted = sort_desc(s.drop_last());
        sorted.insert(insert_pos(sorted, s.last()), s.last())
    }
}

proof fn lemma_insert_pos_bounds(s: Seq<EntryView>, e: EntryView)
    ensures
        0 <= insert_pos(s, e) <= s.len(),
        forall|k: int| 0 <= k < insert_pos(s, e) ==> !older(#[trigger] s[k].key, e.key),
        insert_pos(s, e) < s.len() ==> older(s[insert_pos(s, e)].key, e.key),
    decreases s.len(),
{
    if s.len() > 0 && !older(s[0].key, e.key) {
        lemma_insert_pos_bounds(s.drop_first(), e);
        assert forall|k: int| 0 <= k < insert_pos(s, e) implies !older(#[trigger] s[k].key, e.key) by {
            if k > 0 {
                assert(s[k] == s.drop_first()[k - 1]);
            }
        }
    }
}

/// The entries `entries`, newest first; entries with equal dates keep their order.
pub fn sort_entries(entries: Vec<IndexEntry>) -> (r: Vec<IndexEntry>)
    ensures
        entry_views(r@) == sort_desc(entry_views(entries@)),
{
    let ghost orig = entry_views(entries@);
    let mut rest = entries;
    let mut out: Vec<IndexEntry> = Vec::new();
    assert(orig.take(0) =~= seq![]);
    while rest.len() > 0
        invariant
            rest@.len() <= orig.len(),
            entry_views(rest@) == orig.skip(orig.len() - rest@.len()),
            entry_views(out@) == sort_desc(orig.take(orig.len() - rest@.len())),
        decreases rest@.len(),
    {
        let ghost n = orig.len() - rest@.len();
        let ghost before = rest@;
        let e = rest.remove(0);
        assert(entry_views(before)[0] == e@);
        assert(orig.skip(n)[0] == orig[n]);
        assert(entry_views(rest@) =~= orig.skip(n + 1)) by {
            assert(entry_views(rest@) =~= entry_views(before).drop_first());
            assert(orig.skip(n).drop_first() =~= orig.skip(n + 1));
        }
        assert(orig.take(n + 1).drop_last() =~= orig.take(n));
        let ghost sorted = entry_views(out@);
        proof {
            lemma_insert_pos_bounds(sorted, e@);
        }
        let mut pos: usize = 0;
        while pos < out.len() && !is_older(out[pos].key, e.key)
            invariant
                pos <= out@.len(),
                sorted == entry_views(out@),
                0 <= insert_pos(sorted, e@) <= sorted.len(),
                pos <= insert_pos(sorted, e@),
                forall|k: int| 0 <= k < insert_pos(sorted, e@) ==> !older(#[trigger] sorted[k].key, e@.key),
                insert_pos(sorted, e@) < sorted.len() ==> older(sorted[insert_pos(sorted, e@)].key, e@.key),
            decreases out@.len() - pos,
        {
            pos = pos + 1;
        }
        proof {
            if pos < insert_pos(sorted, e@) {
                assert(sorted[pos as int].key == out@[pos as int].key);
                assert(!older(sorted[pos as int].key, e@.key));
            }
            if pos < out@.len() {
                assert(sorted[pos as int].key == out@[pos as int].key);
            }
        }
        assert(pos == insert_pos(sorted, e@));
        out.insert(pos, e);
        assert(entry_views(out@) =~= sorted.insert(pos as int, e@));
    }
    assert(orig.take(orig.len() as int) =~= orig);
    out
}

/// Whether `s` runs from newest to oldest.
pub open spec fn sorted_desc(s: Seq<EntryView>) -> bool {
    forall|i: int, j: int| 0 <= i < j < s.len() ==> !older(#[trigger] s[i].key, #[trigger] s[j].key)
}

proof fn lemma_insert_sorted(s: Seq<EntryView>, e: EntryView)
    requires
        sorted_desc(s),
    ensures
        sorted_desc(s.insert(insert_pos(s, e), e)),
{
    lemma_insert_pos_bounds(s, e);
    let p = insert_pos(s, e);
    let t = s.insert(p, e);
    assert forall|i: int, j: int| 0 <= i < j < t.len() implies !older(
        #[trigger] t[i].key,
        #[trigger] t[j].key,
    ) by {
        if j < p {
            assert(t[i] == s[i] && t[j] == s[j]);
        } else if j == p {
            assert(t[i] == s[i]);
        } else if i < p {
            assert(t[i] == s[i] && t[j] == s[j - 1]);
        } else if i == p {
            assert(t[j] == s[j - 1]);
            assert(!older(s[p].key, s[j - 1].key));
        } else {
            assert(t[i] == s[i - 1] && t[j] == s[j - 1]);
        }
    }
}

/// The index lists every entry exactly as often as it was given, newest first.
pub proof fn lemma_sort_desc(s: Seq<EntryView>)
    ensures
        sorted_desc(sort_desc(s)),
        sort_desc(s).to_multiset() == s.to_multiset(),
    decreases s.len(),
{
    broadcast use vstd::seq_lib::to_multiset_insert, vstd::seq_lib::to_multiset_build;

    if s.len() > 0 {
        let sorted = sort_desc(s.drop_last());
        lemma_sort_desc(s.drop_last());
        lemma_insert_pos_bounds(sorted, s.last());
        lemma_insert_sorted(sorted, s.last());
        assert(s.drop_last().push(s.last()) =~= s);
    }
}

/// An entry whose date did not parse is listed after every entry whose date
/// did.
pub proof fn lemma_unparsed_date_sorts_last(s: Seq<EntryView>, i: int, j: int)
    requires
        0 <= i < sort_desc(s).len(),
        0 <= j < sort_desc(s).len(),
        sort_desc(s)[i].key is None,
        sort_desc(s)[j].key is Some,
    ensures
        j < i,
{
    lemma_sort_desc(s);
    if i < j {
        assert(!older(sort_desc(s)[i].key, sort_desc(s)[j].key));
    }
}

/// The index block of one entry.
pub open spec fn entry_html(e: EntryView) -> Seq<char> {
    concat(seq![ENTRY_OPEN@, e.date, ENTRY_AFTER_DATE@, e.url, ENTRY_AFTER_URL@, e.title, ENTRY_CLOSE@])
}

/// The index blocks of `s`, in order.
pub open spec fn listing_html(s: Seq<EntryView>) -> Seq<char>
    decreases s.len(),
{
    if s.len() == 0 {
        seq![]
    } else {
        listing_html(s.drop_last()) + entry_html(s.last())
    }
}

/// Each entry's block shows its date, line two of the post verbatim, in the
/// date span, then the link to its page with its title.
pub proof fn lemma_entry_shows_date(e: EntryView)
    ensures
        entry_html(e) == ENTRY_OPEN@ + e.date + ENTRY_AFTER_DATE@ + e.url + ENTRY_AFTER_URL@ + e.title
            + ENTRY_CLOSE@,
{
    let p0 = Seq::<Seq<char>>::empty();
    let p1 = p0.push(ENTRY_OPEN@);
    let p2 = p1.push(e.date);
    let p3 = p2.push(ENTRY_AFTER_DATE@);
    let p4 = p3.push(e.url);
    let p5 = p4.push(ENTRY_AFTER_URL@);
    let p6 = p5.push(e.title);
    let p7 = p6.push(ENTRY_CLOSE@);
    assert(p7 =~= seq![ENTRY_OPEN@, e.date, ENTRY_AFTER_DATE@, e.url, ENTRY_AFTER_URL@, e.title, ENTRY_CLOSE@]);
    lemma_concat_push(p0, ENTRY_OPEN@);
    lemma_concat_push(p1, e.date);
    lemma_concat_push(p2, ENTRY_AFTER_DATE@);
    lemma_concat_push(p3, e.url);
    lemma_concat_push(p4, ENTRY_AFTER_URL@);
    lemma_concat_push(p5, e.title);
    lemma_concat_push(p6, ENTRY_CLOSE@);
    assert(Seq::<char>::empty() + ENTRY_OPEN@ =~= ENTRY_OPEN@);
}

/// The listing holds the block of every entry.
pub proof fn lemma_listing_holds_entry(s: Seq<EntryView>, k: int)
    requires
        0 <= k < s.len(),
    ensures
        exists|before: Seq<char>, after: Seq<char>| listing_html(s) == before + entry_html(s[k]) + after,
    decreases s.len(),
{
    if k == s.len() - 1 {
        assert(listing_html(s) == listing_html(s.drop_last()) + entry_html(s[k]) + Seq::<char>::empty());
    } else {
        lemma_listing_holds_entry(s.drop_last(), k);
        let (before, after) = choose|before: Seq<char>, after: Seq<char>|
            listing_html(s.drop_last()) == before + entry_html(s.drop_last()[k]) + after;
        assert(listing_html(s) =~= before + entry_html(s[k]) + (after + entry_html(s.last())));
    }
}

/// The entry of every published post is among the index entries.
proof fn lemma_published_entry_listed(c: Config, sources: Seq<Source>, i: int)
    requires
        0 <= i < sources.len(),
        visibility(c, sources[i].path@) == Visibility::Published,
    ensures
        index_entries(c, sources).contains(entry_of(c, sources[i].path@, sources[i].markdown@)),
    decreases sources.len(),
{
    let e = entry_of(c, sources[i].path@, sources[i].markdown@);
    if i == sources.len() - 1 {
        assert(index_entries(c, sources).last() == e);
    } else {
        let rest = sources.drop_last();
        assert(rest[i] == sources[i]);
        lemma_published_entry_listed(c, rest, i);
        let before = index_entries(c, rest);
        let j = choose|j: int| 0 <= j < before.len() && before[j] == e;
        assert(index_entries(c, sources)[j] == e);
    }
}

/// The index page shows every published post's entry: its date, line two
/// verbatim, then a link to its page whose text is its title, line one
/// without its heading marker.
pub proof fn lemma_index_page_lists_post(c: Config, sources: Seq<Source>, i: int)
    requires
        0 <= i < sources.len(),
        visibility(c, sources[i].path@) == Visibility::Published,
    ensures
        exists|before: Seq<char>, after: Seq<char>|
            index_page(c, sources) == before + ENTRY_OPEN@ + date_of(sources[i].markdown@)
                + ENTRY_AFTER_DATE@ + article_url(c, sources[i].path@) + ENTRY_AFTER_URL@ + title_of(
                sources[i].markdown@,
            ) + ENTRY_CLOSE@ + after,
{
    broadcast use vstd::seq_lib::to_multiset_contains;

    let e = entry_of(c, sources[i].path@, sources[i].markdown@);
    let entries = index_entries(c, sources);
    let sorted = sort_desc(entries);
    lemma_published_entry_listed(c, sources, i);
    lemma_sort_desc(entries);
    assert(entries.to_multiset().count(e) > 0);
    assert(sorted.to_multiset().count(e) > 0);
    assert(sorted.contains(e));
    let k = choose|k: int| 0 <= k < sorted.len() && sorted[k] == e;
    lemma_listing_holds_entry(sorted, k);
    let (b1, a1) = choose|b: Seq<char>, a: Seq<char>| listing_html(sorted) == b + entry_html(sorted[k]) + a;
    lemma_page_holds_content(c, listing_html(sorted), true, ""@, seq![], ""@);
    let (b2, a2) = choose|b: Seq<char>, a: Seq<char>|
        page_html(c, listing_html(sorted), true, ""@, seq![], ""@) == b + listing_html(sorted) + a;
    lemma_entry_shows_date(e);
    let block = ENTRY_OPEN@ + e.date + ENTRY_AFTER_DATE@ + e.url + ENTRY_AFTER_URL@ + e.title + ENTRY_CLOSE@;
    assert(index_page(c, sources) =~= (b2 + b1) + block + (a1 + a2));
    assert((b2 + b1) + block =~= (b2 + b1) + ENTRY_OPEN@ + e.date + ENTRY_AFTER_DATE@ + e.url
        + ENTRY_AFTER_URL@ + e.title + ENTRY_CLOSE@);
}

pub fn listing(entries: &Vec<IndexEntry>) -> (r: String)
    ensures
        r@ == listing_html(entry_views(entries@)),
{
    let mut r = String::new();
    let mut i: usize = 0;
    while i < entries.len()
        invariant
            i <= entries@.len(),
            r@ == listing_html(entry_views(entries@.take(i as int))),
        decreases entries@.len() - i,
    {
        assert(entry_views(entries@.take(i + 1)).drop_last() =~= entry_views(entries@.take(i as int)));
        let e = &entries[i];
        let parts: Vec<&str> = vec![
            ENTRY_OPEN,
            e.date.as_str(),
            ENTRY_AFTER_DATE,
            e.url.as_str(),
            ENTRY_AFTER_URL,
            e.title.as_str(),
            ENTRY_CLOSE,
        ];
        let block = concat_strs(&parts);
        assert(str_views(parts@) =~= seq![ENTRY_OPEN@, e.date@, ENTRY_AFTER_DATE@, e.url@, ENTRY_AFTER_URL@, e.title@, ENTRY_CLOSE@]);
        r.append(block.as_str());
        i = i + 1;
    }
    assert(entries@.take(i as int) =~= entries@);
    r
}

/// The index page for the posts `sources`.
pub open spec fn index_page(c: Config, sources: Seq<Source>) -> Seq<char> {
    page_html(c, listing_html(sort_desc(index_entries(c, sources))), true, ""@, seq![], ""@)
}

/// The index page: a block for each published post, newest first.
pub fn create_index_page(config: &Config, sources: &Vec<Source>) -> (r: String)
    ensures
        r@ == index_page(*config, sources@),
{
    let entries = sort_entries(collect_entries(config, sources));
    let content = listing(&entries);
    let no_images: Vec<String> = Vec::new();
    assert(views(no_images@) =~= seq![]);
    create_html_template(config, content.as_str(), true, "", &no_images, "")
}

/// Where the index page is written.
pub open spec fn index_path(c: Config) -> Seq<char> {
    c.webpage_dir@ + INDEX_FILE@
}

pub fn index_path_of(config: &Config) -> (r: String)
    ensures
        r@ == index_path(*config),
{
    config.webpage_dir.clone().concat(INDEX_FILE)
}

} // verus!
