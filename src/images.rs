//! Cover images: found by the post's file stem in the images directory, shown
//! at the head of the post and offered as its social-preview thumbnail.
use vstd::prelude::*;
use crate::config::Config;
use crate::paths::{file_stem, file_stem_of};
use crate::text::{chars_of, str_views, string_of_range, strip_suffixes, strip_suffixes_range, views};

verus! {

/// The subdirectory of the webpage directory that holds the copied images.
pub const IMAGES_SUBDIR: &'static str = "images";

pub const COVER_OPEN: &'static str = "<img class=\"cover-image\" src=\"images/";

pub const COVER_CLOSE: &'static str = "\" alt=\"Cover Image\">";

pub const THUMBNAIL_OPEN: &'static str = "<meta property=\"og:image\" content=\"";

pub const THUMBNAIL_PATH: &'static str = "/images/";

pub const THUMBNAIL_CLOSE: &'static str = "\"/>";

/// The extensions tried for a cover image, in order.
pub open spec fn image_extensions() -> Seq<Seq<char>> {
    seq!["jpg"@, "jpeg"@, "png"@, "gif"@]
}

/// The file name `stem.ext`.
pub open spec fn with_extension(stem: Seq<char>, ext: Seq<char>) -> Seq<char> {
    stem + "."@ + ext
}

/// The first `stem.ext`, for `ext` in `exts` in order, that is among `names`.
pub open spec fn first_present(stem: Seq<char>, exts: Seq<Seq<char>>, names: Seq<Seq<char>>) -> Option<
    Seq<char>,
>
    decreases exts.len(),
{
    if exts.len() == 0 {
        None
    } else if names.contains(with_extension(stem, exts[0])) {
        Some(with_extension(stem, exts[0]))
    } else {
        first_present(stem, exts.drop_first(), names)
    }
}

/// The file name of the cover image of the post at `md_file`, where `images`
/// lists the file names in the images directory.
pub open spec fn cover_image_of(md_file: Seq<char>, images: Seq<Seq<char>>) -> Option<Seq<char>> {
    let stem = file_stem(md_file);
    if stem.len() == 0 {
        None
    } else {
        first_present(stem, image_extensions(), images)
    }
}

/// The cover-image tag of a post; empty where it has none.
pub open spec fn cover_html(md_file: Seq<char>, images: Seq<Seq<char>>) -> Seq<char> {
    match cover_image_of(md_file, images) {
        Some(name) => COVER_OPEN@ + name + COVER_CLOSE@,
        None => seq![],
    }
}

/// The Open Graph thumbnail tag of a post; empty where it has no cover image.
pub open spec fn thumbnail_html(base_url: Seq<char>, md_file: Seq<char>, images: Seq<Seq<char>>) -> Seq<
    char,
> {
    match cover_image_of(md_file, images) {
        Some(name) => THUMBNAIL_OPEN@ + strip_suffixes(base_url, "/"@) + THUMBNAIL_PATH@ + name
            + THUMBNAIL_CLOSE@,
        None => seq![],
    }
}

/// Whether `name` is among `names`.
pub fn contains_name(names: &Vec<String>, name: &String) -> (r: bool)
    ensures
        r == views(names@).contains(name@),
{
    let mut i: usize = 0;
    while i < names.len()
        invariant
            i <= names@.len(),
            forall|j: int| 0 <= j < i ==> names@[j]@ != name@,
        decreases names@.len() - i,
    {
        if names[i] == *name {
            assert(views(names@)[i as int] == name@);
            return true;
        }
        i = i + 1;
    }
    assert(forall|j: int| 0 <= j < views(names@).len() ==> views(names@)[j] != name@);
    false
}

/// The cover image's file name for a post with stem `stem`.
pub fn find_cover_image(stem: &String, images: &Vec<String>) -> (r: Option<String>)
    ensures
        r matches Some(n) ==> first_present(stem@, image_extensions(), views(images@)) == Some(n@),
        r is None ==> first_present(stem@, image_extensions(), views(images@)) is None,
{
    let exts: Vec<&str> = vec!["jpg", "jpeg", "png", "gif"];
    assert(str_views(exts@) =~= image_extensions());
    assert(str_views(exts@).skip(0) =~= str_views(exts@));
    let mut k: usize = 0;
    while k < exts.len()
        invariant
            k <= exts@.len(),
            str_views(exts@) == image_extensions(),
            first_present(stem@, image_extensions(), views(images@)) == first_present(
                stem@,
                str_views(exts@).skip(k as int),
                views(images@),
            ),
        decreases exts@.len() - k,
    {
        let name = stem.clone().concat(".").concat(exts[k]);
        if contains_name(images, &name) {
            return Some(name);
        }
        assert(str_views(exts@).skip(k as int).drop_first() =~= str_views(exts@).skip(k + 1));
        k = k + 1;
    }
    None
}

/// The file name of the cover image of the post at `md_file`.
pub fn cover_image_name(md_file: &str, images: &Vec<String>) -> (r: Option<String>)
    ensures
        r matches Some(n) ==> cover_image_of(md_file@, views(images@)) == Some(n@),
        r is None ==> cover_image_of(md_file@, views(images@)) is None,
{
    let stem = file_stem_of(md_file);
    if stem.as_str().is_empty() {
        None
    } else {
        find_cover_image(&stem, images)
    }
}

/// The cover-image tag of the post at `md_file`, whose source is the copy in
/// the webpage's images subdirectory.
pub fn get_cover_image_html(md_file: &str, images: &Vec<String>) -> (r: String)
    ensures
        r@ == cover_html(md_file@, views(images@)),
{
    match cover_image_name(md_file, images) {
        Some(name) => String::from_str(COVER_OPEN).concat(name.as_str()).concat(COVER_CLOSE),
        None => String::new(),
    }
}

/// The thumbnail tag of the post at `md_file`, addressed below the site's base URL.
pub fn get_thumbnail_meta_tag(md_file: &str, config: &Config, images: &Vec<String>) -> (r: String)
    ensures
        r@ == thumbnail_html(config.base_url@, md_file@, views(images@)),
{
    match cover_image_name(md_file, images) {
        Some(name) => {
            let base = chars_of(config.base_url.as_str());
            let slash = chars_of("/");
            let end = strip_suffixes_range(&base, 0, base.len(), &slash);
            assert(base@.subrange(0, base@.len() as int) =~= base@);
            let trimmed = string_of_range(&base, 0, end);
            String::from_str(THUMBNAIL_OPEN).concat(trimmed.as_str()).concat(THUMBNAIL_PATH).concat(
                name.as_str(),
            ).concat(THUMBNAIL_CLOSE)
        },
        None => String::new(),
    }
}

} // verus!
