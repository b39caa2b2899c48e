//! Searching through the scraping service: what can be asked for and what comes back.

use vstd::prelude::*;

verus! {

/// Where to search.
#[derive(Clone, Copy, Debug, PartialEq, Eq, Structural)]
pub enum SearchSource {
    Web,
    News,
    Images,
}

/// A kind of result to keep.
#[derive(Clone, Copy, Debug, PartialEq, Eq, Structural)]
pub enum SearchCategory {
    Github,
    Research,
    Pdf,
}

/// How each result is to be scraped.
#[derive(Clone, Debug)]
pub struct ScrapeOptions {
    /// Whether to keep only the main content of a page.
    pub only_main_content: Option<bool>,
    /// How long to wait for a page, in milliseconds.
    pub timeout: Option<u32>,
}

impl Default for ScrapeOptions {
    fn default() -> (r: ScrapeOptions)
        ensures
            r.only_main_content.is_none(),
            r.timeout.is_none(),
    {
        ScrapeOptions { only_main_content: None, timeout: None }
    }
}

/// What is known of a scraped page.
#[derive(Clone, Debug)]
pub struct DocumentMetadata {
    pub source_url: Option<String>,
    pub status_code: Option<u16>,
    pub title: Option<String>,
}

/// A scraped page.
#[derive(Clone, Debug)]
pub struct Document {
    pub markdown: Option<String>,
    pub html: Option<String>,
    pub metadata: Option<DocumentMetadata>,
}

/// A result of a search of the web.
#[derive(Clone, Debug)]
pub struct SearchResultWeb {
    pub url: String,
    pub title: Option<String>,
    pub description: Option<String>,
}

/// A result of a search of the news.
#[derive(Clone, Debug)]
pub struct SearchResultNews {
    pub title: Option<String>,
    pub url: Option<String>,
    pub snippet: Option<String>,
    pub date: Option<String>,
}

/// A result of a search for images.
#[derive(Clone, Debug)]
pub struct SearchResultImage {
    pub title: Option<String>,
    pub image_url: Option<String>,
    pub url: Option<String>,
}

/// What to search for besides the query.
#[derive(Clone, Debug)]
pub struct SearchOptions {
    /// The most results to return.
    pub limit: Option<u32>,
    /// Where to search.
    pub sources: Option<Vec<SearchSource>>,
    /// Which kinds of results to keep.
    pub categories: Option<Vec<SearchCategory>>,
    /// A filter by time, such as `qdr:d` for the past day.
    pub tbs: Option<String>,
    /// A place, for results near it.
    pub location: Option<String>,
    /// Whether to pass over results whose address is not valid.
    pub ignore_invalid_urls: Option<bool>,
    /// How long to wait, in milliseconds.
    pub timeout: Option<u32>,
    /// How to scrape each result; without it the results are not scraped.
    pub scrape_options: Option<ScrapeOptions>,
    /// Who is asking, for the service's records.
    pub integration: Option<String>,
}

impl Default for SearchOptions {
    fn default() -> (r: SearchOptions)
        ensures
            r.limit.is_none(),
            r.sources.is_none(),
            r.categories.is_none(),
            r.tbs.is_none(),
            r.location.is_none(),
            r.ignore_invalid_urls.is_none(),
            r.timeout.is_none(),
            r.scrape_options.is_none(),
            r.integration.is_none(),
    {
        SearchOptions {
            limit: None,
            sources: None,
            categories: None,
            tbs: None,
            location: None,
            ignore_invalid_urls: None,
            timeout: None,
            scrape_options: None,
            integration: None,
        }
    }
}

impl SearchOptions {
    /// The options of a search whose results are all to be scraped: at most `limit` results,
    /// scraped in the plain way, and nothing else.
    pub fn for_scraping(limit: u32) -> (r: SearchOptions)
        ensures
            r.limit == Some(limit),
            r.scrape_options matches Some(s) && s.only_main_content.is_none()
                && s.timeout.is_none(),
            r.sources.is_none(),
            r.categories.is_none(),
            r.tbs.is_none(),
            r.location.is_none(),
            r.ignore_invalid_urls.is_none(),
            r.timeout.is_none(),
            r.integration.is_none(),
    {
        let mut options = SearchOptions::default();
        options.limit = Some(limit);
        options.scrape_options = Some(ScrapeOptions::default());
        options
    }
}

/// A result of a search of the web: the scraped page, or only where it is.
#[derive(Clone, Debug)]
pub enum SearchResultOrDocument {
    Document(Document),
    WebResult(SearchResultWeb),
}

/// The results of a search, by where they were found.
#[derive(Clone, Debug)]
pub struct SearchData {
    pub web: Option<Vec<SearchResultOrDocument>>,
    pub news: Option<Vec<SearchResultNews>>,
    pub images: Option<Vec<SearchResultImage>>,
}

impl Default for SearchData {
    fn default() -> (r: SearchData)
        ensures
            r.web.is_none(),
            r.news.is_none(),
            r.images.is_none(),
    {
        SearchData { web: None, news: None, images: None }
    }
}

/// What the service answers to a search.
#[derive(Debug)]
pub struct SearchResponse {
    pub success: bool,
    pub data: SearchData,
    pub warning: Option<String>,
}

/// The scraped pages among results, in their order.
pub open spec fn documents_in(results: Seq<SearchResultOrDocument>) -> Seq<Document>
    decreases results.len(),
{
    if results.len() == 0 {
        Seq::empty()
    } else {
        let rest = documents_in(results.drop_last());
        match results.last() {
            SearchResultOrDocument::Document(d) => rest.push(d),
            SearchResultOrDocument::WebResult(_) => rest,
        }
    }
}

/// The results of the web in an answer, or none where it has no such part.
pub open spec fn web_results(data: SearchData) -> Seq<SearchResultOrDocument> {
    match data.web {
        Some(results) => results@,
        None => Seq::empty(),
    }
}

impl SearchResponse {
    /// The scraped pages of an answer: those results of the web that are pages, in their
    /// order.
    pub fn into_documents(self) -> (documents: Vec<Document>)
        ensures
            documents@ == documents_in(web_results(self.data)),
    {
        let mut results = match self.data.web {
            Some(results) => results,
            None => Vec::new(),
        };
        let ghost all = results@;
        let mut reversed: Vec<Document> = Vec::new();
        assert(documents_in(results@) + reversed@.reverse() =~= documents_in(all));
        while results.len() > 0
            invariant
                documents_in(results@) + reversed@.reverse() == documents_in(all),
            decreases results.len(),
        {
            let ghost before = results@;
            let ghost found = reversed@;
            assert(before.drop_last() =~= before.subrange(0, before.len() - 1));
            match results.pop() {
                Some(SearchResultOrDocument::Document(d)) => {
                    reversed.push(d);
                    assert(reversed@.reverse() =~= seq![d] + found.reverse());
                    assert(documents_in(results@) + reversed@.reverse() =~= documents_in(before)
                        + found.reverse());
                },
                _ => {},
            }
        }
        let mut documents: Vec<Document> = Vec::new();
        assert(documents@ + reversed@.reverse() =~= documents_in(all));
        while reversed.len() > 0
            invariant
                documents@ + reversed@.reverse() == documents_in(all),
            decreases reversed.len(),
        {
            let ghost found = reversed@;
            let ghost out = documents@;
            match reversed.pop() {
                Some(d) => {
                    assert(found.reverse() =~= seq![d] + reversed@.reverse());
                    documents.push(d);
                    assert(documents@ + reversed@.reverse() =~= out + found.reverse());
                },
                None => {},
            }
        }
        assert(reversed@.reverse() =~= Seq::<Document>::empty());
        assert(documents@ + Seq::<Document>::empty() =~= documents@);
        documents
    }
}

} // verus!
