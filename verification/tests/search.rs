use fdb_queue::search::{Document, SearchResultWeb};
use fdb_queue::{SearchData, SearchOptions, SearchResponse, SearchResultOrDocument};

fn page(markdown: &str) -> SearchResultOrDocument {
    SearchResultOrDocument::Document(Document {
        markdown: Some(markdown.to_string()),
        html: None,
        metadata: None,
    })
}

fn link(url: &str) -> SearchResultOrDocument {
    SearchResultOrDocument::WebResult(SearchResultWeb {
        url: url.to_string(),
        title: None,
        description: None,
    })
}

#[test]
fn scraped_pages_are_kept_in_their_order() {
    let response = SearchResponse {
        success: true,
        data: SearchData {
            web: Some(vec![page("one"), link("https://example.com"), page("two"), page("three")]),
            news: None,
            images: None,
        },
        warning: None,
    };
    let pages: Vec<String> =
        response.into_documents().into_iter().map(|d| d.markdown.unwrap()).collect();
    assert_eq!(pages, vec!["one", "two", "three"]);
}

#[test]
fn answer_without_results_of_the_web_has_no_pages() {
    let response = SearchResponse { success: true, data: SearchData::default(), warning: None };
    assert!(response.into_documents().is_empty());
    let only_links = SearchResponse {
        success: true,
        data: SearchData { web: Some(vec![link("a"), link("b")]), news: None, images: None },
        warning: Some("partial".to_string()),
    };
    assert!(only_links.into_documents().is_empty());
}

#[test]
fn options_for_scraping_name_the_limit_and_plain_scraping() {
    let options = SearchOptions::for_scraping(5);
    assert_eq!(options.limit, Some(5));
    let scrape = options.scrape_options.unwrap();
    assert!(scrape.only_main_content.is_none() && scrape.timeout.is_none());
    assert!(options.sources.is_none() && options.categories.is_none());
    assert!(options.tbs.is_none() && options.location.is_none());
    assert!(options.timeout.is_none() && options.integration.is_none());
    assert!(options.ignore_invalid_urls.is_none());
    let plain = SearchOptions::default();
    assert!(plain.limit.is_none() && plain.scrape_options.is_none());
}
