//! The page template that every generated page shares.
use vstd::prelude::*;
use crate::config::{Config, MAIN_CSS_SUFFIX, PROD_MOBILE_CSS, DEV_MOBILE_CSS};
use crate::images::{get_thumbnail_meta_tag, thumbnail_html};
use crate::text::{concat, concat_strs, lemma_concat_holds, str_views, strip_once, strip_once_str, views};

verus! {

/// The name shown in the navigation bar and the footer.
pub const SITE_OWNER: &'static str = "Robert Miller";

pub const ABOUT_PAGE: &'static str = "about.md";

pub const NEWSLETTER_PAGE: &'static str = "newsletter.md";

pub const ABOUT_URL_SUFFIX: &'static str = "/about.html";

pub const NEWSLETTER_URL_SUFFIX: &'static str = "/newsletter.html";

pub const ABOUT_CLASS: &'static str = "class = about";

pub const NEWSLETTER_CLASS: &'static str = "class = newsletter";

pub const INDEX_BODY_CLASS: &'static str = "class = no-progress-bar";

pub const INDEX_CONTAINER: &'static str = "index-container";

pub const POST_CONTAINER: &'static str = "container";

/// The relative-path prefix that is ignored when paths are compared.
pub const CURRENT_DIR_PREFIX: &'static str = "./";

pub const PAGE_HEAD: &'static str = "<!DOCTYPE html>\n        <html lang=\"en\">\n        <head>\n            <meta charset=\"utf-8\">\n            <meta name=\"viewport\" content=\"width=device-width, initial-scale=1.0\">\n            <link rel=\"preconnect\" href=\"https://fonts.googleapis.com\">\n            <link rel=\"preconnect\" href=\"https://fonts.gstatic.com\" crossorigin>\n            <link href=\"https://fonts.googleapis.com/css2?family=IBM+Plex+Sans:wght@300;500;700&display=swap\" rel=\"stylesheet\">\n            <title>";

pub const PAGE_AFTER_TITLE: &'static str = "</title>\n            <link rel=\"stylesheet\" type=\"text/css\" href=\"";

pub const PAGE_AFTER_CSS: &'static str = "\">\n            <link rel=\"stylesheet\" type=\"text/css\" href=\"";

pub const PAGE_AFTER_MOBILE_CSS: &'static str = "\">\n            ";

pub const PAGE_AFTER_THUMBNAIL: &'static str = "\n        </head>\n        <body ";

pub const PAGE_AFTER_BODY_CLASS: &'static str = ">\n            <header>\n                <nav>\n                    <div class=\"nav-bar\">\n                        <div class=\"nav-item\"> <h3><a href=\"";

pub const PAGE_AFTER_HOME: &'static str = "\" >Robert Miller</a></h3></div>\n                        <div class=\"nav-item\"> <a href=\"";

pub const PAGE_AFTER_NEWSLETTER_URL: &'static str = "\" ";

pub const PAGE_AFTER_NEWSLETTER: &'static str = ">Newsletter</a></div>\n                        <div class=\"nav-item\"> <a href=\"";

pub const PAGE_AFTER_ABOUT_URL: &'static str = "\" ";

pub const PAGE_AFTER_ABOUT: &'static str = ">About</a></div>\n                    </div>\n                </nav>\n            </header>\n            <div class=\"";

pub const PAGE_AFTER_CONTAINER: &'static str = "\">\n                ";

pub const PAGE_AFTER_CONTENT: &'static str = "\n            </div>\n            ";

pub const PAGE_CLOSE: &'static str = "\n        </body>\n        </html>";

pub const FOOTER_OPEN: &'static str = "<footer>\n                <div class=\"footer-content\">\n                    <div class=\"footer-line\"></div>\n                    <p class=\"footer-text\">&copy; ";

pub const FOOTER_SEPARATOR: &'static str = " ";

pub const FOOTER_CLOSE: &'static str = "</p>\n                </div>\n            </footer>";

/// The path of the special page `name` in the data directory, as compared
/// with a post's path.
pub open spec fn data_path(c: Config, name: Seq<char>) -> Seq<char> {
    strip_once(c.data_dir@ + name, CURRENT_DIR_PREFIX@)
}

/// `data_path(c, name)` as a string.
pub fn data_path_of(c: &Config, name: &str) -> (r: String)
    ensures
        r@ == data_path(*c, name@),
{
    let full = c.data_dir.clone().concat(name);
    strip_once_str(full.as_str(), CURRENT_DIR_PREFIX)
}

/// The navigation class that marks the page at `md_file` as `page`.
pub open spec fn nav_class(c: Config, md_file: Seq<char>, page: Seq<char>, class: Seq<char>) -> Seq<
    char,
> {
    if md_file == data_path(c, page) {
        class
    } else {
        seq![]
    }
}

/// The footer of a post page, with the copyright year `year`.
pub open spec fn footer_html(year: Seq<char>) -> Seq<char> {
    FOOTER_OPEN@ + year + FOOTER_SEPARATOR@ + SITE_OWNER@ + FOOTER_CLOSE@
}

/// A whole page around `content`: the index page where `index` holds, else the
/// page of the post at `md_file`.
pub open spec fn page_html(
    c: Config,
    content: Seq<char>,
    index: bool,
    md_file: Seq<char>,
    images: Seq<Seq<char>>,
    year: Seq<char>,
) -> Seq<char> {
    concat(
        seq![
            PAGE_HEAD@,
            c.title@,
            PAGE_AFTER_TITLE@,
            c.base_url@ + MAIN_CSS_SUFFIX@,
            PAGE_AFTER_CSS@,
            if c.is_prod {
                PROD_MOBILE_CSS@
            } else {
                DEV_MOBILE_CSS@
            },
            PAGE_AFTER_MOBILE_CSS@,
            if index {
                seq![]
            } else {
                thumbnail_html(c.base_url@, md_file, images)
            },
            PAGE_AFTER_THUMBNAIL@,
            if index {
                INDEX_BODY_CLASS@
            } else {
                seq![]
            },
            PAGE_AFTER_BODY_CLASS@,
            c.base_url@,
            PAGE_AFTER_HOME@,
            c.base_url@ + NEWSLETTER_URL_SUFFIX@,
            PAGE_AFTER_NEWSLETTER_URL@,
            nav_class(c, md_file, NEWSLETTER_PAGE@, NEWSLETTER_CLASS@),
            PAGE_AFTER_NEWSLETTER@,
            c.base_url@ + ABOUT_URL_SUFFIX@,
            PAGE_AFTER_ABOUT_URL@,
            nav_class(c, md_file, ABOUT_PAGE@, ABOUT_CLASS@),
            PAGE_AFTER_ABOUT@,
            if index {
                INDEX_CONTAINER@
            } else {
                POST_CONTAINER@
            },
            PAGE_AFTER_CONTAINER@,
            content,
            PAGE_AFTER_CONTENT@,
            if index {
                seq![]
            } else {
                footer_html(year)
            },
            PAGE_CLOSE@,
        ],
    )
}

/// Every page holds its content.
pub proof fn lemma_page_holds_content(
    c: Config,
    content: Seq<char>,
    index: bool,
    md_file: Seq<char>,
    images: Seq<Seq<char>>,
    year: Seq<char>,
)
    ensures
        exists|before: Seq<char>, after: Seq<char>|
            page_html(c, content, index, md_file, images, year) == before + content + after,
{
    let parts = seq![
            PAGE_HEAD@,
            c.title@,
            PAGE_AFTER_TITLE@,
            c.base_url@ + MAIN_CSS_SUFFIX@,
            PAGE_AFTER_CSS@,
            if c.is_prod {
                PROD_MOBILE_CSS@
            } else {
                DEV_MOBILE_CSS@
            },
            PAGE_AFTER_MOBILE_CSS@,
            if index {
                seq![]
            } else {
                thumbnail_html(c.base_url@, md_file, images)
            },
            PAGE_AFTER_THUMBNAIL@,
            if index {
                INDEX_BODY_CLASS@
            } else {
                seq![]
            },
            PAGE_AFTER_BODY_CLASS@,
            c.base_url@,
            PAGE_AFTER_HOME@,
            c.base_url@ + NEWSLETTER_URL_SUFFIX@,
            PAGE_AFTER_NEWSLETTER_URL@,
            nav_class(c, md_file, NEWSLETTER_PAGE@, NEWSLETTER_CLASS@),
            PAGE_AFTER_NEWSLETTER@,
            c.base_url@ + ABOUT_URL_SUFFIX@,
            PAGE_AFTER_ABOUT_URL@,
            nav_class(c, md_file, ABOUT_PAGE@, ABOUT_CLASS@),
            PAGE_AFTER_ABOUT@,
            if index {
                INDEX_CONTAINER@
            } else {
                POST_CONTAINER@
            },
            PAGE_AFTER_CONTAINER@,
            content,
            PAGE_AFTER_CONTENT@,
            if index {
                seq![]
            } else {
                footer_html(year)
            },
            PAGE_CLOSE@,
        ];
    lemma_concat_holds(parts, 23);
}

/// `class` where `md_file` is the special page `page`, else nothing.
fn nav_class_of(c: &Config, md_file: &str, page: &str, class: &str) -> (r: String)
    ensures
        r@ == nav_class(*c, md_file@, page@, class@),
{
    let path = data_path_of(c, page);
    let file = String::from_str(md_file);
    if file == path {
        String::from_str(class)
    } else {
        String::new()
    }
}

/// Wraps `content` in the site's page template: the index page where `index`
/// holds, else the page of the post at `md_file`, with `images` the file names
/// in the images directory and `year` the copyright year of its footer.
pub fn create_html_template(
    config: &Config,
    content: &str,
    index: bool,
    md_file: &str,
    images: &Vec<String>,
    year: &str,
) -> (r: String)
    ensures
        r@ == page_html(*config, content@, index, md_file@, views(images@), year@),
{
    let container = if index {
        INDEX_CONTAINER
    } else {
        POST_CONTAINER
    };
    let thumbnail = if index {
        String::new()
    } else {
        get_thumbnail_meta_tag(md_file, config, images)
    };
    let about_class = nav_class_of(config, md_file, ABOUT_PAGE, ABOUT_CLASS);
    let newsletter_class = nav_class_of(config, md_file, NEWSLETTER_PAGE, NEWSLETTER_CLASS);
    let body_class = if index {
        INDEX_BODY_CLASS
    } else {
        ""
    };
    let footer = if index {
        String::new()
    } else {
        String::from_str(FOOTER_OPEN).concat(year).concat(FOOTER_SEPARATOR).concat(SITE_OWNER).concat(
            FOOTER_CLOSE,
        )
    };
    let css = config.css_path();
    let mobile_css = config.mobile_css_path();
    let newsletter_url = config.base_url.clone().concat(NEWSLETTER_URL_SUFFIX);
    let about_url = config.base_url.clone().concat(ABOUT_URL_SUFFIX);
    let parts: Vec<&str> = vec![
        PAGE_HEAD,
        config.title.as_str(),
        PAGE_AFTER_TITLE,
        css.as_str(),
        PAGE_AFTER_CSS,
        mobile_css,
        PAGE_AFTER_MOBILE_CSS,
        thumbnail.as_str(),
        PAGE_AFTER_THUMBNAIL,
        body_class,
        PAGE_AFTER_BODY_CLASS,
        config.base_url.as_str(),
        PAGE_AFTER_HOME,
        newsletter_url.as_str(),
        PAGE_AFTER_NEWSLETTER_URL,
        newsletter_class.as_str(),
        PAGE_AFTER_NEWSLETTER,
        about_url.as_str(),
        PAGE_AFTER_ABOUT_URL,
        about_class.as_str(),
        PAGE_AFTER_ABOUT,
        container,
        PAGE_AFTER_CONTAINER,
        content,
        PAGE_AFTER_CONTENT,
        footer.as_str(),
        PAGE_CLOSE,
    ];
    let r = concat_strs(&parts);
    proof {
        if !index {
            assert(body_class@ == Seq::<char>::empty()) by {
                reveal_strlit("");
            }
        }
    }
    assert(str_views(parts@) =~= seq![
        PAGE_HEAD@,
        config.title@,
        PAGE_AFTER_TITLE@,
        config.base_url@ + MAIN_CSS_SUFFIX@,
        PAGE_AFTER_CSS@,
        if config.is_prod {
            PROD_MOBILE_CSS@
        } else {
            DEV_MOBILE_CSS@
        },
        PAGE_AFTER_MOBILE_CSS@,
        if index {
            seq![]
        } else {
            thumbnail_html(config.base_url@, md_file@, views(images@))
        },
        PAGE_AFTER_THUMBNAIL@,
        if index {
            INDEX_BODY_CLASS@
        } else {
            seq![]
        },
        PAGE_AFTER_BODY_CLASS@,
        config.base_url@,
        PAGE_AFTER_HOME@,
        config.base_url@ + NEWSLETTER_URL_SUFFIX@,
        PAGE_AFTER_NEWSLETTER_URL@,
        nav_class(*config, md_file@, NEWSLETTER_PAGE@, NEWSLETTER_CLASS@),
        PAGE_AFTER_NEWSLETTER@,
        config.base_url@ + ABOUT_URL_SUFFIX@,
        PAGE_AFTER_ABOUT_URL@,
        nav_class(*config, md_file@, ABOUT_PAGE@, ABOUT_CLASS@),
        PAGE_AFTER_ABOUT@,
        if index {
            INDEX_CONTAINER@
        } else {
            POST_CONTAINER@
        },
        PAGE_AFTER_CONTAINER@,
        content@,
        PAGE_AFTER_CONTENT@,
        if index {
            seq![]
        } else {
            footer_html(year@)
        },
        PAGE_CLOSE@,
    ]);
    r
}

} // verus!
