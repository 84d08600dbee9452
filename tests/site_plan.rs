use sitegen::config::{Config, EnvVars};
use sitegen::post::Source;
use sitegen::site::{build_site, create_files, footer_year_text, html_pattern, image_copies, markdown_pattern, page_path_of};
use sitegen::template::create_html_template;

fn config(prod: bool) -> Config {
    let env = EnvVars { title: None, base_url: None, data_dir: None, webpage_dir: None, images_dir: None };
    let mut args = vec!["site".to_string()];
    if prod {
        args.push("--prod".to_string());
    }
    Config::new(&args, "/srv", &env)
}

fn source(path: &str, markdown: &str) -> Source {
    Source { path: path.to_string(), markdown: markdown.to_string() }
}

#[test]
fn patterns_name_sources_and_pages() {
    assert_eq!(markdown_pattern("./data/"), "./data//*.md");
    assert_eq!(html_pattern("./webpage/"), "./webpage//*.html");
}

#[test]
fn page_paths_follow_the_post_names() {
    let c = config(false);
    assert_eq!(page_path_of(&c, "./data/hello.md"), "./webpage/hello.html");
    assert_eq!(page_path_of(&c, "./data/a.md.md"), "./webpage/a.md.html");
}

#[test]
fn rendering_twice_gives_identical_html() {
    let c = config(false);
    let sources = vec![source("./data/hello.md", "## Hello\n01-02-2024\nBody")];
    let images = vec!["hello.png".to_string()];
    let first = build_site(&c, &sources, &images, &vec![], "2024");
    let second = build_site(&c, &sources, &images, &vec!["hello.png".to_string()], "2024");
    assert_eq!(first.pages.len(), 2);
    for (a, b) in first.pages.iter().zip(second.pages.iter()) {
        assert_eq!(a.path, b.path);
        assert_eq!(a.contents, b.contents);
    }
}

#[test]
fn sibling_image_is_copied_once() {
    let c = config(false);
    let sources = vec![source("./data/hello.md", "## Hello\n01-02-2024\nBody")];
    let images = vec!["hello.png".to_string(), "hello.gif".to_string()];
    let plan = build_site(&c, &sources, &images, &vec![], "2024");
    assert!(plan.pages[0].contents.contains("<img class=\"cover-image\" src=\"images/hello.png\" alt=\"Cover Image\">"));
    assert!(plan.pages[0].contents.contains("<meta property=\"og:image\" content=\"/srv/webpage/images/hello.png\"/>"));
    assert_eq!(plan.image_copies.len(), 1);
    assert_eq!(plan.image_copies[0].file_name, "hello.png");
    assert_eq!(plan.image_copies[0].source, "./webpage/images/hello.png");
    assert_eq!(plan.image_copies[0].dest_dir, "./webpage/images");
    let again = image_copies(&c, &sources, &images, &vec!["hello.png".to_string()]);
    assert!(again.is_empty());
}

#[test]
fn a_shared_image_is_copied_once_per_rebuild() {
    let c = config(false);
    let sources = vec![source("./data/a.md", "A\nD\nx"), source("./other/a.md", "A\nD\nx")];
    let copies = image_copies(&c, &sources, &vec!["a.jpg".to_string()], &vec![]);
    assert_eq!(copies.len(), 1);
}

#[test]
fn deleted_post_gets_no_page() {
    let c = config(false);
    let before = build_site(&c, &vec![source("./data/a.md", "A\nD\nx"), source("./data/b.md", "B\nD\nx")], &vec![], &vec![], "2024");
    let after = build_site(&c, &vec![source("./data/a.md", "A\nD\nx")], &vec![], &vec![], "2024");
    assert!(before.pages.iter().any(|p| p.path == "./webpage/b.html"));
    assert!(!after.pages.iter().any(|p| p.path == "./webpage/b.html"));
    assert_eq!(after.clear_pattern, "./webpage//*.html");
    assert_eq!(after.pages.last().unwrap().path, "./webpage//index.html");
}

#[test]
fn post_page_has_footer_and_navigation() {
    let c = config(false);
    let plan = build_site(&c, &vec![source("data/about.md", "About\nD\nx")], &vec![], &vec![], "2031");
    let page = &plan.pages[0].contents;
    assert!(page.contains("<p class=\"footer-text\">&copy; 2031 Robert Miller</p>"));
    assert!(page.contains("<a href=\"/srv/webpage/about.html\" class = about>About</a>"));
    assert!(page.contains("<a href=\"/srv/webpage/newsletter.html\" >Newsletter</a>"));
    assert!(page.contains("href=\"/srv/webpage/main.css\""));
    assert!(page.contains("href=\"../webpage/mobile.css\""));
    assert!(page.contains("<body >"));
}

#[test]
fn template_marks_the_newsletter_page() {
    let c = config(true);
    let page = create_html_template(&c, "X", false, "data/newsletter.md", &vec![], "2020");
    assert!(page.contains(">Newsletter</a>"));
    assert!(page.contains("\" class = newsletter>Newsletter</a>"));
    assert!(page.contains("href=\"./mobile.css\""));
    assert!(page.contains("<div class=\"container\">\n                X\n            </div>"));
}

#[test]
fn create_files_stamps_the_current_year() {
    let c = config(false);
    let plan = create_files(&c, &vec![source("./data/a.md", "A\nD\nx")], &vec![], &vec![]);
    let page = &plan.pages[0].contents;
    let at = page.find("&copy; ").unwrap() + "&copy; ".len();
    let year: String = page[at..].chars().take_while(|c| c.is_ascii_digit()).collect();
    assert_eq!(year.len(), 4);
    assert!(year.as_str() >= "2024");
}

#[test]
fn footer_year_is_written_like_percent_y() {
    assert_eq!(footer_year_text(Some(2024)), "2024");
    assert_eq!(footer_year_text(Some(5)), "0005");
    assert_eq!(footer_year_text(Some(999)), "0999");
    assert_eq!(footer_year_text(Some(12345)), "+12345");
    assert_eq!(footer_year_text(Some(-5)), "-0005");
    assert_eq!(footer_year_text(None), "");
}
