//! One rebuild of the whole site, as a plan of file operations: the HTML
//! files to clear, the pages to write, and the cover images to copy.
use vstd::prelude::*;
use crate::config::Config;
use crate::images::{cover_image_name, cover_image_of, contains_name, IMAGES_SUBDIR};
use crate::index::{create_index_page, index_page, index_path, index_path_of};
use crate::paths::{page_name, page_name_of, HTML_EXT};
use crate::post::{markdown_to_html, post_html, Source};
use crate::template::{create_html_template, page_html};
use crate::text::{
    chars_of, decimal, push_decimal, string_of_range, strip_suffixes, strip_suffixes_range, views,
};

verus! {

/// The glob pattern, below a directory, of the markdown sources.
pub const MARKDOWN_GLOB: &'static str = "/*.md";

/// The glob pattern, below a directory, of the generated HTML files.
pub const HTML_GLOB: &'static str = "/*.html";

/// A file to write: where, and what.
#[derive(Debug)]
pub struct OutputFile {
    pub path: String,
    pub contents: String,
}

/// An image to copy into the webpage's images directory.
#[derive(Debug)]
pub struct ImageCopy {
    pub source: String,
    pub dest_dir: String,
    pub file_name: String,
}

/// What one rebuild does, in order: remove every file matching
/// `clear_pattern`, write `pages`, then make `image_copies`.
#[derive(Debug)]
pub struct SitePlan {
    pub clear_pattern: String,
    pub pages: Vec<OutputFile>,
    pub image_copies: Vec<ImageCopy>,
}

/// The pattern that lists the markdown sources in `folder`.
pub fn markdown_pattern(folder: &str) -> (r: String)
    ensures
        r@ == folder@ + MARKDOWN_GLOB@,
{
    String::from_str(folder).concat(MARKDOWN_GLOB)
}

/// The pattern that lists the generated HTML files in `webpage_dir`.
pub fn html_pattern(webpage_dir: &str) -> (r: String)
    ensures
        r@ == webpage_dir@ + HTML_GLOB@,
{
    String::from_str(webpage_dir).concat(HTML_GLOB)
}

/// Where the page of the post at `md_file` is written.
pub open spec fn page_path(c: Config, md_file: Seq<char>) -> Seq<char> {
    c.webpage_dir@ + page_name(md_file)
}

pub fn page_path_of(config: &Config, md_file: &str) -> (r: String)
    ensures
        r@ == page_path(*config, md_file@),
{
    let name = page_name_of(md_file);
    config.webpage_dir.clone().concat(name.as_str())
}

/// The whole page of the post `s`.
pub open spec fn post_page(c: Config, s: Source, images: Seq<Seq<char>>, year: Seq<char>) -> Seq<
    char,
> {
    page_html(c, post_html(s.markdown@, s.path@, images), false, s.path@, images, year)
}

/// Whether `pages` holds, in order, the page of each post of `sources`.
pub open spec fn post_pages_match(
    pages: Seq<OutputFile>,
    c: Config,
    sources: Seq<Source>,
    images: Seq<Seq<char>>,
    year: Seq<char>,
) -> bool {
    &&& pages.len() == sources.len()
    &&& forall|i: int|
        0 <= i < pages.len() ==> (#[trigger] pages[i]).path@ == page_path(c, sources[i].path@)
            && pages[i].contents@ == post_page(c, sources[i], images, year)
}

/// The page of each post of `sources`, where `images` lists the file names
/// in the images directory and `year` is the copyright year.
pub fn create_blog_posts(config: &Config, sources: &Vec<Source>, images: &Vec<String>, year: &str) -> (r: Vec<OutputFile>)
    ensures
        post_pages_match(r@, *config, sources@, views(images@), year@),
{
    let mut r: Vec<OutputFile> = Vec::new();
    let mut i: usize = 0;
    while i < sources.len()
        invariant
            i <= sources@.len(),
            post_pages_match(r@, *config, sources@.take(i as int), views(images@), year@),
        decreases sources@.len() - i,
    {
        let s = &sources[i];
        let fragment = markdown_to_html(s.markdown.as_str(), s.path.as_str(), images);
        let contents = create_html_template(config, fragment.as_str(), false, s.path.as_str(), images, year);
        let path = page_path_of(config, s.path.as_str());
        r.push(OutputFile { path, contents });
        i = i + 1;
        assert(post_pages_match(r@, *config, sources@.take(i as int), views(images@), year@)) by {
            assert forall|k: int| 0 <= k < r@.len() implies (#[trigger] r@[k]).path@ == page_path(
                *config,
                sources@.take(i as int)[k].path@,
            ) && r@[k].contents@ == post_page(*config, sources@.take(i as int)[k], views(images@), year@) by {
                if k < i - 1 {
                    assert(sources@.take(i - 1)[k] == sources@.take(i as int)[k]);
                }
            }
        }
    }
    assert(sources@.take(i as int) =~= sources@);
    r
}

/// The directory `dir` joined with the relative name `name`.
pub open spec fn join_path(dir: Seq<char>, name: Seq<char>) -> Seq<char> {
    if dir.len() == 0 {
        name
    } else {
        dir + "/"@ + name
    }
}

fn join_path_of(dir: &String, name: &str) -> (r: String)
    ensures
        r@ == join_path(dir@, name@),
{
    if dir.as_str().is_empty() {
        String::from_str(name)
    } else {
        dir.clone().concat("/").concat(name)
    }
}

/// `dir` without its trailing separators.
fn trim_separators(dir: &String) -> (r: String)
    ensures
        r@ == strip_suffixes(dir@, "/"@),
{
    let v = chars_of(dir.as_str());
    let slash = chars_of("/");
    assert(v@.subrange(0, v@.len() as int) =~= v@);
    let end = strip_suffixes_range(&v, 0, v.len(), &slash);
    string_of_range(&v, 0, end)
}

/// Where the cover image `name` is found.
pub open spec fn image_source(c: Config, name: Seq<char>) -> Seq<char> {
    join_path(strip_suffixes(c.images_dir@, "/"@), name)
}

/// The webpage's images directory, which the copies go to.
pub open spec fn image_dest_dir(c: Config) -> Seq<char> {
    join_path(strip_suffixes(c.webpage_dir@, "/"@), IMAGES_SUBDIR@)
}

/// The webpage's images directory of `config`.
pub fn image_dest_dir_of(config: &Config) -> (r: String)
    ensures
        r@ == image_dest_dir(*config),
{
    join_path_of(&trim_separators(&config.webpage_dir), IMAGES_SUBDIR)
}

/// The cover images of `sources` that are not yet among `published`, the file
/// names in the webpage's images directory: each once, in the order of the
/// posts that use them.
pub open spec fn new_images(sources: Seq<Source>, images: Seq<Seq<char>>, published: Seq<Seq<char>>) -> Seq<
    Seq<char>,
>
    decreases sources.len(),
{
    if sources.len() == 0 {
        seq![]
    } else {
        let before = new_images(sources.drop_last(), images, published);
        match cover_image_of(sources.last().path@, images) {
            Some(n) => if published.contains(n) || before.contains(n) {
                before
            } else {
                before.push(n)
            },
            None => before,
        }
    }
}

/// The names of the images that `copies` copies.
pub open spec fn copy_names(copies: Seq<ImageCopy>) -> Seq<Seq<char>> {
    copies.map_values(|k: ImageCopy| k.file_name@)
}

/// Whether `copies` copies the images `new_images(..)`, each from the images
/// directory into the webpage's images directory.
pub open spec fn image_copies_match(
    copies: Seq<ImageCopy>,
    c: Config,
    sources: Seq<Source>,
    images: Seq<Seq<char>>,
    published: Seq<Seq<char>>,
) -> bool {
    &&& copy_names(copies) == new_images(sources, images, published)
    &&& forall|i: int|
        0 <= i < copies.len() ==> (#[trigger] copies[i]).source@ == image_source(
            c,
            copies[i].file_name@,
        ) && copies[i].dest_dir@ == image_dest_dir(c)
}

/// The copies that bring the cover images of `sources` into the webpage's
/// images directory, leaving out those already there (`published`); an image
/// already published is never copied over.
pub fn image_copies(config: &Config, sources: &Vec<Source>, images: &Vec<String>, published: &Vec<String>) -> (r: Vec<ImageCopy>)
    ensures
        image_copies_match(r@, *config, sources@, views(images@), views(published@)),
{
    let source_dir = trim_separators(&config.images_dir);
    let dest_dir = image_dest_dir_of(config);
    let mut names: Vec<String> = Vec::new();
    let mut r: Vec<ImageCopy> = Vec::new();
    let mut i: usize = 0;
    assert(copy_names(r@) =~= seq![]);
    assert(views(names@) =~= seq![]);
    while i < sources.len()
        invariant
            i <= sources@.len(),
            source_dir@ == strip_suffixes(config.images_dir@, "/"@),
            dest_dir@ == image_dest_dir(*config),
            views(names@) == copy_names(r@),
            image_copies_match(r@, *config, sources@.take(i as int), views(images@), views(published@)),
        decreases sources@.len() - i,
    {
        assert(sources@.take(i + 1).drop_last() =~= sources@.take(i as int));
        match cover_image_name(sources[i].path.as_str(), images) {
            Some(name) => {
                if !contains_name(published, &name) && !contains_name(&names, &name) {
                    let source = join_path_of(&source_dir, name.as_str());
                    let copy = ImageCopy { source, dest_dir: dest_dir.clone(), file_name: name.clone() };
                    let ghost old_r = r@;
                    let ghost old_names = names@;
                    r.push(copy);
                    names.push(name);
                    assert(copy_names(r@) =~= copy_names(old_r).push(name@));
                    assert(views(names@) =~= views(old_names).push(name@));
                    assert forall|k: int| 0 <= k < r@.len() implies (#[trigger] r@[k]).source@ == image_source(
                        *config,
                        r@[k].file_name@,
                    ) && r@[k].dest_dir@ == image_dest_dir(*config) by {
                        if k < old_r.len() {
                            assert(r@[k] == old_r[k]);
                        }
                    }
                }
            },
            None => {},
        }
        i = i + 1;
    }
    assert(sources@.take(i as int) =~= sources@);
    r
}

/// Whether `plan` is the rebuild plan for `sources` with copyright year `year`.
pub open spec fn plan_matches(
    plan: SitePlan,
    c: Config,
    sources: Seq<Source>,
    images: Seq<Seq<char>>,
    published: Seq<Seq<char>>,
    year: Seq<char>,
) -> bool {
    let n = sources.len() as int;
    &&& plan.clear_pattern@ == c.webpage_dir@ + HTML_GLOB@
    &&& plan.pages@.len() == n + 1
    &&& post_pages_match(plan.pages@.take(n), c, sources, images, year)
    &&& plan.pages@[n].path@ == index_path(c)
    &&& plan.pages@[n].contents@ == index_page(c, sources)
    &&& image_copies_match(plan.image_copies@, c, sources, images, published)
}

/// The rebuild plan for `sources`, where `images` lists the file names in the
/// images directory, `published` those in the webpage's images directory,
/// and `year` is the copyright year.
pub fn build_site(
    config: &Config,
    sources: &Vec<Source>,
    images: &Vec<String>,
    published: &Vec<String>,
    year: &str,
) -> (plan: SitePlan)
    ensures
        plan_matches(plan, *config, sources@, views(images@), views(published@), year@),
{
    let clear_pattern = html_pattern(config.webpage_dir.as_str());
    let mut pages = create_blog_posts(config, sources, images, year);
    let ghost posts = pages@;
    let index = OutputFile { path: index_path_of(config), contents: create_index_page(config, sources) };
    pages.push(index);
    assert(pages@.take(sources@.len() as int) =~= posts);
    let image_copies = image_copies(config, sources, images, published);
    SitePlan { clear_pattern, pages, image_copies }
}

/// Rebuilding from unchanged sources writes byte-identical pages: what a plan
/// writes does not depend on which images an earlier rebuild published.
pub proof fn lemma_rebuild_pages_identical(
    first: SitePlan,
    second: SitePlan,
    c: Config,
    sources: Seq<Source>,
    images: Seq<Seq<char>>,
    published_before: Seq<Seq<char>>,
    published_after: Seq<Seq<char>>,
    year: Seq<char>,
)
    requires
        plan_matches(first, c, sources, images, published_before, year),
        plan_matches(second, c, sources, images, published_after, year),
    ensures
        first.pages@.len() == second.pages@.len(),
        forall|i: int|
            0 <= i < first.pages@.len() ==> (#[trigger] first.pages@[i]).path@ == second.pages@[i].path@
                && first.pages@[i].contents@ == second.pages@[i].contents@,
{
    let n = sources.len() as int;
    assert forall|i: int| 0 <= i < first.pages@.len() implies (#[trigger] first.pages@[i]).path@
        == second.pages@[i].path@ && first.pages@[i].contents@ == second.pages@[i].contents@ by {
        if i < n {
            assert(first.pages@.take(n)[i] == first.pages@[i]);
            assert(second.pages@.take(n)[i] == second.pages@[i]);
        }
    }
}

proof fn lemma_new_images_fresh(sources: Seq<Source>, images: Seq<Seq<char>>, published: Seq<Seq<char>>)
    ensures
        new_images(sources, images, published).no_duplicates(),
        forall|n: Seq<char>| #[trigger] new_images(sources, images, published).contains(n) ==> !published.contains(n),
        forall|k: int|
            0 <= k < sources.len() && (#[trigger] cover_image_of(sources[k].path@, images)) is Some
                ==> published.contains(cover_image_of(sources[k].path@, images)->0)
                || new_images(sources, images, published).contains(cover_image_of(sources[k].path@, images)->0),
    decreases sources.len(),
{
    if sources.len() > 0 {
        let rest = sources.drop_last();
        lemma_new_images_fresh(rest, images, published);
        let before = new_images(rest, images, published);
        let now = new_images(sources, images, published);
        assert forall|n: Seq<char>| before.contains(n) implies now.contains(n) by {
            let i = choose|i: int| 0 <= i < before.len() && before[i] == n;
            assert(now[i] == n);
        }
        assert forall|n: Seq<char>| now.contains(n) implies !published.contains(n) by {
            let i = choose|i: int| 0 <= i < now.len() && now[i] == n;
            if i < before.len() {
                assert(before[i] == n);
                assert(before.contains(n));
            }
        }
        assert forall|k: int|
            0 <= k < sources.len() && (#[trigger] cover_image_of(sources[k].path@, images)) is Some
                implies published.contains(cover_image_of(sources[k].path@, images)->0)
                || now.contains(cover_image_of(sources[k].path@, images)->0) by {
            if k < sources.len() - 1 {
                assert(rest[k] == sources[k]);
                assert(cover_image_of(rest[k].path@, images) is Some);
            } else {
                let n = cover_image_of(sources.last().path@, images)->0;
                if !published.contains(n) && !before.contains(n) {
                    assert(now.last() == n);
                }
            }
        }
    }
}

proof fn lemma_new_images_none(sources: Seq<Source>, images: Seq<Seq<char>>, published: Seq<Seq<char>>)
    requires
        forall|k: int|
            0 <= k < sources.len() && (#[trigger] cover_image_of(sources[k].path@, images)) is Some
                ==> published.contains(cover_image_of(sources[k].path@, images)->0),
    ensures
        new_images(sources, images, published) == Seq::<Seq<char>>::empty(),
    decreases sources.len(),
{
    if sources.len() > 0 {
        let rest = sources.drop_last();
        assert forall|k: int|
            0 <= k < rest.len() && (#[trigger] cover_image_of(rest[k].path@, images)) is Some
                implies published.contains(cover_image_of(rest[k].path@, images)->0) by {
            assert(rest[k] == sources[k]);
        }
        lemma_new_images_none(rest, images, published);
        let k = sources.len() - 1;
        assert(sources[k] == sources.last());
    }
}

/// The images directory after copying the new images of `sources` into
/// `published` holds no duplicate and every post's cover image.
proof fn lemma_published_after_copies(sources: Seq<Source>, images: Seq<Seq<char>>, published: Seq<Seq<char>>)
    requires
        published.no_duplicates(),
    ensures
        (published + new_images(sources, images, published)).no_duplicates(),
        forall|m: int|
            0 <= m < sources.len() && (#[trigger] cover_image_of(sources[m].path@, images)) is Some
                ==> (published + new_images(sources, images, published)).contains(
                cover_image_of(sources[m].path@, images)->0,
            ),
{
    let fresh = new_images(sources, images, published);
    let once = published + fresh;
    lemma_new_images_fresh(sources, images, published);
    assert forall|i: int, j: int| 0 <= i < j < once.len() implies once[i] != once[j] by {
        if j >= published.len() && i < published.len() {
            assert(fresh.contains(once[j]));
            assert(published.contains(once[i]));
        } else if i >= published.len() {
            assert(once[i] == fresh[i - published.len()]);
            assert(once[j] == fresh[j - published.len()]);
        }
    }
    assert forall|m: int|
        0 <= m < sources.len() && (#[trigger] cover_image_of(sources[m].path@, images)) is Some
            implies once.contains(cover_image_of(sources[m].path@, images)->0) by {
        let n = cover_image_of(sources[m].path@, images)->0;
        if published.contains(n) {
            let i = choose|i: int| 0 <= i < published.len() && published[i] == n;
            assert(once[i] == n);
        } else {
            assert(fresh.contains(n));
            let i = choose|i: int| 0 <= i < fresh.len() && fresh[i] == n;
            assert(once[published.len() + i] == n);
        }
    }
}

/// After a rebuild, each post's cover image is in the webpage's images
/// directory exactly once, and the next rebuild copies nothing: the image
/// stays there exactly once however often the site is rebuilt.
pub proof fn lemma_cover_image_copied_once(
    first: SitePlan,
    second: SitePlan,
    c: Config,
    sources: Seq<Source>,
    images: Seq<Seq<char>>,
    published: Seq<Seq<char>>,
    first_year: Seq<char>,
    second_year: Seq<char>,
    k: int,
)
    requires
        published.no_duplicates(),
        plan_matches(first, c, sources, images, published, first_year),
        plan_matches(second, c, sources, images, published + copy_names(first.image_copies@), second_year),
        0 <= k < sources.len(),
        cover_image_of(sources[k].path@, images) is Some,
    ensures
        (published + copy_names(first.image_copies@)).no_duplicates(),
        (published + copy_names(first.image_copies@)).to_multiset().count(
            cover_image_of(sources[k].path@, images)->0,
        ) == 1,
        second.image_copies@.len() == 0,
{
    broadcast use vstd::seq_lib::to_multiset_contains;

    let after = published + copy_names(first.image_copies@);
    lemma_published_after_copies(sources, images, published);
    lemma_new_images_none(sources, images, after);
    after.lemma_multiset_has_no_duplicates();
    assert(copy_names(second.image_copies@).len() == second.image_copies@.len());
}

/// Whether `name` ends with `suffix`.
pub open spec fn ends_with(name: Seq<char>, suffix: Seq<char>) -> bool {
    suffix.len() <= name.len() && name.skip(name.len() - suffix.len()) == suffix
}

/// A rebuild after a post was deleted leaves no page of it behind: the plan
/// first clears the webpage directory's HTML files, the deleted post's page
/// among them, and writes no page at its path, unless a remaining post has
/// the same page name or the index is written there.
pub proof fn lemma_deleted_post_page_removed(
    plan: SitePlan,
    c: Config,
    sources: Seq<Source>,
    images: Seq<Seq<char>>,
    published: Seq<Seq<char>>,
    year: Seq<char>,
    deleted: Seq<char>,
)
    requires
        plan_matches(plan, c, sources, images, published, year),
        forall|i: int| 0 <= i < sources.len() ==> page_name(#[trigger] sources[i].path@) != page_name(deleted),
        page_path(c, deleted) != index_path(c),
    ensures
        plan.clear_pattern@ == c.webpage_dir@ + HTML_GLOB@,
        ends_with(page_path(c, deleted), HTML_EXT@),
        forall|k: int| 0 <= k < plan.pages@.len() ==> (#[trigger] plan.pages@[k]).path@ != page_path(c, deleted),
{
    let d = c.webpage_dir@;
    let n = sources.len() as int;
    let p = page_path(c, deleted);
    assert(p.skip(p.len() - HTML_EXT@.len()) =~= HTML_EXT@);
    assert forall|k: int| 0 <= k < plan.pages@.len() implies (#[trigger] plan.pages@[k]).path@ != p by {
        if k < n {
            assert(plan.pages@.take(n)[k] == plan.pages@[k]);
            let q = page_path(c, sources[k].path@);
            if q == p {
                assert(q.skip(d.len() as int) =~= page_name(sources[k].path@));
                assert(p.skip(d.len() as int) =~= page_name(deleted));
            }
        }
    }
}

/// Relies on std's `SystemTime::now` and `SystemTime::duration_since` with
/// `UNIX_EPOCH`: whole seconds since the Unix epoch, or `None` where the clock
/// reads earlier. It depends on the clock, so nothing is stated of it.
#[verifier::external_body]
fn unix_seconds() -> (r: Option<u64>) {
    match std::time::SystemTime::now().duration_since(std::time::UNIX_EPOCH) {
        Ok(d) => Some(d.as_secs()),
        Err(_) => None,
    }
}

/// The name of the UTC calendar year of the instant `secs` seconds after the
/// Unix epoch, where chrono can represent that instant.
pub uninterp spec fn utc_year_at(secs: i64) -> Option<i32>;

/// Relies on chrono's `DateTime::from_timestamp` and `Datelike::year`: the
/// UTC year of an instant, which depends on `secs` alone.
#[verifier::external_body]
fn utc_year(secs: i64) -> (r: Option<i32>)
    ensures
        r == utc_year_at(secs),
{
    match chrono::DateTime::from_timestamp(secs, 0) {
        Some(t) => Some(chrono::Datelike::year(&t)),
        None => None,
    }
}

/// `n` in decimal, zero-padded to four digits.
pub open spec fn padded4(n: nat) -> Seq<char> {
    (if n < 10 {
        "000"@
    } else if n < 100 {
        "00"@
    } else if n < 1000 {
        "0"@
    } else {
        seq![]
    }) + decimal(n)
}

/// The year `y` as chrono's `%Y` writes it: four digits, zero-padded, with a
/// sign before years outside 0 to 9999.
pub open spec fn year_text(y: int) -> Seq<char> {
    if 0 <= y <= 9999 {
        padded4(y as nat)
    } else if y > 9999 {
        "+"@ + decimal(y as nat)
    } else {
        "-"@ + padded4((-y) as nat)
    }
}

fn push_padded4(out: &mut String, n: u64)
    ensures
        final(out)@ == old(out)@ + padded4(n as nat),
{
    let ghost start = out@;
    if n < 10 {
        out.append("000");
    } else if n < 100 {
        out.append("00");
    } else if n < 1000 {
        out.append("0");
    }
    push_decimal(out, n);
    assert(final(out)@ =~= start + padded4(n as nat));
}

/// The footer's year: `year` as `%Y` writes it, or nothing where the year is
/// unknown.
pub open spec fn footer_year(year: Option<i32>) -> Seq<char> {
    match year {
        Some(y) => year_text(y as int),
        None => seq![],
    }
}

pub fn footer_year_text(year: Option<i32>) -> (r: String)
    ensures
        r@ == footer_year(year),
{
    let mut r = String::new();
    match year {
        Some(y) => {
            if y > 9999 {
                r.append("+");
                push_decimal(&mut r, y as u64);
            } else if y >= 0 {
                push_padded4(&mut r, y as u64);
            } else {
                r.append("-");
                push_padded4(&mut r, (-(y as i64)) as u64);
            }
            assert(r@ =~= year_text(y as int));
        },
        None => {},
    }
    r
}

/// The rebuild plan for `sources`, stamped with the UTC year of the clock's
/// current reading, or with no year where the clock gives none; see
/// `build_site`.
pub fn create_files(config: &Config, sources: &Vec<Source>, images: &Vec<String>, published: &Vec<String>) -> (plan: SitePlan)
    ensures
        exists|year: Option<i32>|
            #![trigger footer_year(year)]
            (year is None || exists|secs: i64| year == utc_year_at(secs)) && plan_matches(
                plan,
                *config,
                sources@,
                views(images@),
                views(published@),
                footer_year(year),
            ),
{
    let year = match unix_seconds() {
        Some(secs) => if secs <= i64::MAX as u64 {
            utc_year(secs as i64)
        } else {
            None
        },
        None => None,
    };
    let text = footer_year_text(year);
    build_site(config, sources, images, published, text.as_str())
}

} // verus!
