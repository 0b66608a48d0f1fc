use site_crawler::crawler::Crawler;
use site_crawler::links::{chars_of, extract_links};
use site_crawler::page::FetchError;

fn sample_page(url: &str) -> String {
    format!(
        "<html>\n  <body>\n    <h1>Page: {}</h1>\n    <a href=\"https://example.com/page1\">Link 1</a>\n    <a href=\"https://example.com/page2\">Link 2</a>\n    <a href=\"https://external.com\">External</a>\n  </body>\n</html>",
        url
    )
}

#[test]
fn links_within_the_scope_are_extracted_in_order() {
    let links = extract_links(&sample_page("https://example.com"), "https://example.com");
    assert_eq!(
        links,
        vec!["https://example.com/page1".to_string(), "https://example.com/page2".to_string()]
    );
}

#[test]
fn every_link_of_a_line_is_extracted() {
    let html = "<a href=\"https://x/b\">b</a> <a href=\"https://x/c\">c</a>";
    assert_eq!(
        extract_links(html, "https://x"),
        vec!["https://x/b".to_string(), "https://x/c".to_string()]
    );
    let html = "<a href=\"https://y/1\">one</a> <a href=\"https://x/2\">two</a>";
    assert_eq!(extract_links(html, "https://x"), vec!["https://x/2".to_string()]);
    let html = "href=\"1\"href=\"2\" href=\"3\"\nhref=\"4\"";
    assert_eq!(
        extract_links(html, ""),
        vec!["1".to_string(), "2".to_string(), "3".to_string(), "4".to_string()]
    );
}

#[test]
fn a_link_on_two_lines_is_extracted_once() {
    let html = "<a href=\"https://x/b\">1</a>\n<a href=\"https://x/b\">2</a>";
    let links = extract_links(html, "https://x");
    assert_eq!(links.len(), 1);
    assert_eq!(links, vec!["https://x/b".to_string()]);
}

#[test]
fn repeated_links_are_kept_at_their_first_place() {
    let html = "href=\"b\" href=\"a\" href=\"b\"\nhref=\"c\" href=\"a\"\nhref=\"a\"";
    assert_eq!(
        extract_links(html, ""),
        vec!["b".to_string(), "a".to_string(), "c".to_string()]
    );
}

#[test]
fn an_opener_is_closed_by_the_next_quote() {
    // The quote of the second opener closes the first link.
    assert_eq!(extract_links("href=\"a href=\"b\"", ""), vec!["a href=".to_string()]);
    // An opener that is not closed on its line ends the reading of the line.
    assert_eq!(extract_links("href=\"a\" href=\"b\nhref=\"c\"", ""), vec![
        "a".to_string(),
        "c".to_string()
    ]);
}

#[test]
fn a_link_that_is_not_closed_on_its_line_is_none() {
    assert!(extract_links("<a href=\"https://x/1\n\">", "https://x").is_empty());
    assert!(extract_links("<a href=\"https://x/1", "https://x").is_empty());
    assert!(extract_links("<a href=", "").is_empty());
    assert!(extract_links("href=\"", "").is_empty());
}

#[test]
fn pages_without_links_give_none() {
    assert!(extract_links("", "https://x").is_empty());
    assert!(extract_links("\n\n\n", "https://x").is_empty());
    assert!(extract_links("<p>href</p>\n<p>no link</p>", "https://x").is_empty());
}

#[test]
fn an_empty_scope_keeps_every_link() {
    let html = "href=\"\"\nhref=\"a\"\r\nx href=\"é/ü\" y\n";
    assert_eq!(
        extract_links(html, ""),
        vec!["".to_string(), "a".to_string(), "é/ü".to_string()]
    );
}

#[test]
fn the_scope_must_be_a_prefix_of_the_link() {
    let html = "href=\"https://x\"\nhref=\"https://x/a\"\nhref=\"http://x/a\"\nhref=\"https:/\"";
    assert_eq!(
        extract_links(html, "https://x"),
        vec!["https://x".to_string(), "https://x/a".to_string()]
    );
}

#[test]
fn the_characters_of_a_text_are_counted_one_by_one() {
    assert_eq!(chars_of("aé\n"), vec!['a', 'é', '\n']);
    assert!(chars_of("").is_empty());
}

#[test]
fn the_sample_site_has_three_pages() {
    let fetch = |url: &str| -> Result<String, FetchError> { Ok(sample_page(url)) };
    let crawler = Crawler::new("https://example.com".to_string(), 10, 4);
    let report = crawler.crawl(fetch, extract_links).unwrap();
    assert_eq!(report.pages_crawled, 3);
    assert_eq!(report.results.len(), 3);
    let mut urls: Vec<String> = report.results.iter().map(|page| page.url.clone()).collect();
    urls.sort();
    assert_eq!(
        urls,
        vec![
            "https://example.com".to_string(),
            "https://example.com/page1".to_string(),
            "https://example.com/page2".to_string()
        ]
    );
    for page in &report.results {
        assert!(page.success);
        assert_eq!(page.links_found, 2);
    }
}

#[test]
fn a_page_counts_each_of_its_links_once() {
    let fetch = |url: &str| -> Result<String, FetchError> {
        if url == "https://x" {
            Ok("<a href=\"https://x/b\">1</a>\n<a href=\"https://x/b\">2</a>".to_string())
        } else {
            Ok(String::new())
        }
    };
    let crawler = Crawler::new("https://x".to_string(), 10, 2);
    let report = crawler.crawl(fetch, extract_links).unwrap();
    assert_eq!(report.pages_crawled, 2);
    let base = report.results.iter().find(|page| page.url == "https://x").unwrap();
    assert_eq!(base.links_found, 1);
    let b = report.results.iter().find(|page| page.url == "https://x/b").unwrap();
    assert_eq!(b.links_found, 0);
}
