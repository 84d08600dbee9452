use sitegen::config::{Config, EnvVars};
use sitegen::index::{
    article_url_of, collect_entries, create_index_page, date_key, index_entry, post_visibility,
    sort_entries, Visibility,
};
use sitegen::post::Source;

fn config(prod: bool) -> Config {
    let env = EnvVars {
        title: Some("My Site".to_string()),
        base_url: Some("https://blog.example".to_string()),
        data_dir: None,
        webpage_dir: None,
        images_dir: None,
    };
    let mut args = vec!["site".to_string()];
    if prod {
        args.push("--prod".to_string());
    }
    Config::new(&args, "/srv", &env)
}

fn source(path: &str, markdown: &str) -> Source {
    Source { path: path.to_string(), markdown: markdown.to_string() }
}

fn listed_dates(c: &Config, sources: &Vec<Source>) -> Vec<String> {
    sort_entries(collect_entries(c, sources)).into_iter().map(|e| e.date).collect()
}

#[test]
fn dates_parse_as_month_day_year() {
    assert_eq!(date_key("01-02-2024"), Some((2024, 1, 2)));
    assert_eq!(date_key("12-31-2024"), Some((2024, 12, 31)));
    assert_eq!(date_key("2024-01-02"), None);
    assert_eq!(date_key("02-30-2024"), None);
    assert_eq!(date_key(""), None);
}

#[test]
fn index_lists_posts_newest_first() {
    let c = config(false);
    let sources = vec![
        source("./data/a.md", "## A\n01-02-2024\nx"),
        source("./data/b.md", "## B\n03-04-2023\nx"),
        source("./data/c.md", "## C\n12-31-2024\nx"),
    ];
    assert_eq!(listed_dates(&c, &sources), vec!["12-31-2024", "01-02-2024", "03-04-2023"]);
    let page = create_index_page(&c, &sources);
    let pos = |d: &str| page.find(d).unwrap();
    assert!(pos("12-31-2024") < pos("01-02-2024"));
    assert!(pos("01-02-2024") < pos("03-04-2023"));
}

#[test]
fn unparsable_date_sorts_last() {
    let c = config(false);
    let sources = vec![
        source("./data/a.md", "A\nsometime\nx"),
        source("./data/b.md", "B\n01-02-1999\nx"),
        source("./data/c.md", "C\n05-06-2001\nx"),
    ];
    assert_eq!(listed_dates(&c, &sources), vec!["05-06-2001", "01-02-1999", "sometime"]);
}

#[test]
fn unparsable_date_sorts_after_dates_before_the_epoch() {
    let c = config(false);
    let sources = vec![
        source("./data/a.md", "A\nsometime\nx"),
        source("./data/b.md", "B\n01-01-1970\nx"),
        source("./data/c.md", "C\n12-31-1969\nx"),
    ];
    assert_eq!(listed_dates(&c, &sources), vec!["01-01-1970", "12-31-1969", "sometime"]);
}

#[test]
fn equal_dates_keep_their_order() {
    let c = config(false);
    let sources = vec![
        source("./data/a.md", "A\n01-01-2020\nx"),
        source("./data/b.md", "B\n01-01-2020\nx"),
        source("./data/c.md", "C\n01-01-2021\nx"),
    ];
    let titles: Vec<String> =
        sort_entries(collect_entries(&c, &sources)).into_iter().map(|e| e.title).collect();
    assert_eq!(titles, vec!["C", "A", "B"]);
}

#[test]
fn special_pages_are_never_listed() {
    for prod in [false, true] {
        let c = config(prod);
        assert_eq!(post_visibility(&c, "./data/about.md"), Visibility::Unpublished);
        assert_eq!(post_visibility(&c, "data/newsletter.md"), Visibility::Unpublished);
        assert_eq!(post_visibility(&c, "./data/404.md"), Visibility::Unpublished);
        assert_eq!(post_visibility(&c, "./data/post.md"), Visibility::Published);
    }
}

#[test]
fn example_page_is_listed_only_outside_production() {
    let sources = vec![source("./data/example.md", "Example\n01-01-2020\nx"), source("./data/p.md", "P\n01-01-2021\nx")];
    assert_eq!(post_visibility(&config(true), "./data/example.md"), Visibility::Unpublished);
    assert_eq!(post_visibility(&config(false), "./data/example.md"), Visibility::Published);
    assert!(!create_index_page(&config(true), &sources).contains("example.html"));
    assert!(create_index_page(&config(false), &sources).contains("example.html"));
}

#[test]
fn article_urls_depend_on_the_mode() {
    assert_eq!(article_url_of(&config(true), "./data/hello.md"), "/hello.html");
    assert_eq!(article_url_of(&config(false), "./data/hello.md"), "/srv/webpage/hello.html");
}

#[test]
fn article_urls_name_the_written_pages() {
    let mut c = config(true);
    c.data_dir = "./posts/".to_string();
    assert_eq!(article_url_of(&c, "./posts/x.md"), "/x.html");
    assert_eq!(article_url_of(&c, "./data/a.mdb.md"), "/a.mdb.html");
    assert_eq!(article_url_of(&c, "./posts/a.md.md"), "/a.md.html");
}

#[test]
fn index_title_strips_the_heading_marker() {
    let e = index_entry(&config(false), "./data/x.md", "## C# notes\n01-02-2024");
    assert_eq!(e.title, "C# notes");
    assert_eq!(e.date, "01-02-2024");
    assert_eq!(e.key, Some((2024, 1, 2)));
}

#[test]
fn index_page_uses_the_template() {
    let c = config(false);
    let page = create_index_page(&c, &vec![source("./data/a.md", "## A\n01-02-2024\nx")]);
    assert!(page.starts_with("<!DOCTYPE html>"));
    assert!(page.contains("<title>My Site</title>"));
    assert!(page.contains("<body class = no-progress-bar>"));
    assert!(page.contains("<div class=\"index-container\">"));
    assert!(page.contains("<span class=\"index-date\">01-02-2024</span>"));
    assert!(page.contains("<a href=\"/srv/webpage/a.html\">A</a>"));
    assert!(!page.contains("<footer>"));
}
