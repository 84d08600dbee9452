use sitegen::images::{cover_image_name, get_cover_image_html, get_thumbnail_meta_tag};
use sitegen::config::{Config, EnvVars};
use sitegen::paths::file_stem_of;
use sitegen::post::{estimate_reading_time, markdown_to_html, parse_post, post_fragment};
use sitegen::text::{chars_of, count_words, push_decimal, split_lines, strip_once_str};

fn words(n: usize) -> String {
    vec!["word"; n].join(" ")
}

fn dev_config() -> Config {
    let env = EnvVars { title: None, base_url: None, data_dir: None, webpage_dir: None, images_dir: None };
    Config::new(&vec!["site".to_string()], "/home/me", &env)
}

#[test]
fn reading_time_is_at_least_one_minute() {
    assert_eq!(estimate_reading_time(""), 1);
    assert_eq!(estimate_reading_time("   \n\t "), 1);
    assert_eq!(estimate_reading_time("one two three"), 1);
}

#[test]
fn reading_time_rounds_up_per_two_hundred_words() {
    assert_eq!(estimate_reading_time(&words(200)), 1);
    assert_eq!(estimate_reading_time(&words(201)), 2);
    assert_eq!(estimate_reading_time(&words(400)), 2);
    assert_eq!(estimate_reading_time(&words(401)), 3);
}

#[test]
fn words_are_split_on_unicode_whitespace() {
    assert_eq!(count_words(&chars_of("a\u{3000}b\u{a0}c  d\n")), 4);
    assert_eq!(count_words(&chars_of("")), 0);
}

#[test]
fn lines_split_like_str_lines() {
    let text = "a\r\nb\n\nc\r";
    let got = split_lines(&chars_of(text));
    let want: Vec<String> = text.lines().map(|l| l.to_string()).collect();
    assert_eq!(got, want);
    assert_eq!(split_lines(&chars_of("x\n")), vec!["x".to_string()]);
    assert!(split_lines(&chars_of("")).is_empty());
}

#[test]
fn strip_once_removes_a_single_prefix() {
    assert_eq!(strip_once_str("./././x", "./"), "././x");
    assert_eq!(strip_once_str("x", "./"), "x");
}

#[test]
fn decimal_digits() {
    let mut s = String::from("n=");
    push_decimal(&mut s, 0);
    push_decimal(&mut s, 1207);
    assert_eq!(s, "n=01207");
}

#[test]
fn title_strips_one_heading_marker_and_date_is_verbatim() {
    let p = parse_post("## ## Hello World\n 01-02-2024 \nbody");
    assert_eq!(p.title, "## Hello World");
    assert_eq!(p.date, " 01-02-2024 ");
    assert_eq!(p.crosspost, None);
    assert_eq!(p.body, "body");
    let q = parse_post("# Only one hash");
    assert_eq!(q.title, "# Only one hash");
    assert_eq!(q.date, "");
    assert_eq!(q.body, "");
}

#[test]
fn crosspost_line_is_parsed_and_left_out_of_the_body() {
    let p = parse_post("T\nD\n[substack post] (https://x.example/p)\n\n  \nFirst\n\nSecond\n");
    assert_eq!(p.crosspost, Some("https://x.example/p".to_string()));
    assert_eq!(p.body, "First\n\nSecond");
    let q = parse_post("T\nD\n[substack post]()\nText");
    assert_eq!(q.crosspost, None);
    assert_eq!(q.body, "Text");
    let r = parse_post("T\nD\nnot a marker\nText");
    assert_eq!(r.crosspost, None);
    assert_eq!(r.body, "not a marker\nText");
}

#[test]
fn post_renders_exactly() {
    let html = markdown_to_html("## Hello\r\n01-02-2024\n\nSome *text*\n", "./data/hello.md", &vec![]);
    let want = "\n        <div class=\"post-container\">\n            <h2>Hello</h2>\n            <div class=\"post-title-separator\"></div>\n            <span class=\"post-date\">01-02-2024 / 1 min read </span>\n            \n            <div class=\"post-content\">\n                <p>Some <em>text</em></p>\n\n            </div>\n        </div>\n        ";
    assert_eq!(html, want);
}

#[test]
fn strikethrough_is_enabled() {
    let html = markdown_to_html("T\nD\n~~gone~~", "p.md", &vec![]);
    assert!(html.contains("<del>gone</del>"));
}

#[test]
fn crosspost_link_is_rendered() {
    let html = markdown_to_html("T\nD\n[substack post](https://s.example/a)\nx", "p.md", &vec![]);
    assert!(html.contains("D / 1 min read  / <a href=\"https://s.example/a\" target=\"_blank\">Substack</a></span>"));
}

#[test]
fn fragment_joins_its_parts() {
    let s = |x: &str| x.to_string();
    let html = post_fragment(&s("T"), &s("D"), 12, &s("L"), &s("C"), &s("B"));
    assert!(html.contains("<h2>T</h2>"));
    assert!(html.contains("D / 12 min read L</span>\n            C\n"));
    assert!(html.contains("                B\n            </div>"));
}

#[test]
fn file_stem_of_paths() {
    assert_eq!(file_stem_of("./data/hello.md"), "hello");
    assert_eq!(file_stem_of("notes.tar.gz"), "notes.tar");
    assert_eq!(file_stem_of("dir/.hidden"), ".hidden");
    assert_eq!(file_stem_of("plain"), "plain");
}

#[test]
fn cover_image_is_found_by_stem_in_extension_order() {
    let images = vec!["hello.gif".to_string(), "hello.png".to_string(), "other.jpg".to_string()];
    assert_eq!(cover_image_name("./data/hello.md", &images), Some("hello.png".to_string()));
    assert_eq!(cover_image_name("./data/missing.md", &images), None);
    assert_eq!(
        get_cover_image_html("./data/hello.md", &images),
        "<img class=\"cover-image\" src=\"images/hello.png\" alt=\"Cover Image\">"
    );
    assert_eq!(get_cover_image_html("./data/missing.md", &images), "");
}

#[test]
fn thumbnail_is_addressed_below_the_base_url() {
    let mut c = dev_config();
    c.base_url = "https://blog.example//".to_string();
    let images = vec!["hello.jpeg".to_string()];
    assert_eq!(
        get_thumbnail_meta_tag("data/hello.md", &c, &images),
        "<meta property=\"og:image\" content=\"https://blog.example/images/hello.jpeg\"/>"
    );
    assert_eq!(get_thumbnail_meta_tag("data/other.md", &c, &images), "");
}

#[test]
fn post_with_sibling_image_shows_cover() {
    let images = vec!["hello.png".to_string()];
    let html = markdown_to_html("Hello\n01-02-2024\nBody", "./data/hello.md", &images);
    assert!(html.contains("<img class=\"cover-image\" src=\"images/hello.png\" alt=\"Cover Image\">"));
}
