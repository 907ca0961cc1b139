use vstd::prelude::*;

use crate::articles::{archived_article_briefs_from_html, ArticleBrief, MainPageArticleBriefs};
use crate::numbers::{dec_string_of, u64_to_string};
use crate::query;
use crate::results::MatchesResults;
use crate::Error;

verus! {

/// Default HLTV URL.
pub const HLTV_URL: &'static str = "https://www.hltv.org";

/// An HTTPS-capable synchronous client, implemented by the caller; a failure
/// is reported as a message text.
pub trait HttpsClient {
    fn get(&self, url: &str) -> Result<String, String>;
}

/// A month name as it appears in archive paths.
pub enum Month {
    January,
    February,
    March,
    April,
    May,
    June,
    July,
    August,
    September,
    October,
    November,
    December,
}

impl Month {
    /// The lower-case name of the month.
    pub open spec fn spec_str(&self) -> Seq<char> {
        match self {
            Month::January => "january"@,
            Month::February => "february"@,
            Month::March => "march"@,
            Month::April => "april"@,
            Month::May => "may"@,
            Month::June => "june"@,
            Month::July => "july"@,
            Month::August => "august"@,
            Month::September => "september"@,
            Month::October => "october"@,
            Month::November => "november"@,
            Month::December => "december"@,
        }
    }

    /// The month's lower-case name, as used in archive paths.
    pub fn to_str(&self) -> (r: &'static str)
        ensures
            r@ == self.spec_str(),
    {
        match self {
            Month::January => "january",
            Month::February => "february",
            Month::March => "march",
            Month::April => "april",
            Month::May => "may",
            Month::June => "june",
            Month::July => "july",
            Month::August => "august",
            Month::September => "september",
            Month::October => "october",
            Month::November => "november",
            Month::December => "december",
        }
    }
}

/// HLTV API: fetches pages through the given client and extracts their
/// records.
pub struct HltvApi<C: HttpsClient> {
    https_client: C,
    hltv_root_url: String,
}

impl<C: HttpsClient> HltvApi<C> {
    /// The configured root URL.
    pub closed spec fn spec_root(&self) -> Seq<char> {
        self.hltv_root_url@
    }

    /// Build a new instance with the provided HTTPS client and HLTV URL.
    pub fn new(client: C, hltv_root_url: String) -> (r: Self)
        ensures
            r.spec_root() == hltv_root_url@,
    {
        Self { https_client: client, hltv_root_url }
    }

    /// Build a new instance with the provided HTTPS client and the default
    /// HLTV URL.
    pub fn with_default_path(client: C) -> (r: Self)
        ensures
            r.spec_root() == "https://www.hltv.org"@,
    {
        Self { https_client: client, hltv_root_url: HLTV_URL.to_owned() }
    }

    /// Fetch the page under `path` below the configured root URL; a client
    /// failure is reported as this crate's transport error.
    pub fn get_page(&self, path: &str) -> (r: Result<String, Error>)
        ensures
            r matches Err(e) ==> e is HttpsClient,
    {
        let url = self.hltv_root_url.clone().concat(path);
        match self.https_client.get(url.as_str()) {
            Ok(text) => Ok(text),
            Err(msg) => Err(Error::HttpsClient(msg)),
        }
    }

    /// Get news briefs from the main page (the latest news).
    pub fn latest_news_briefs(&self) -> (r: Result<MainPageArticleBriefs, Error>) {
        let page = match self.get_page("/") {
            Ok(p) => p,
            Err(e) => {
                return Err(e);
            },
        };
        let document = query::parse_document(page.as_str());
        MainPageArticleBriefs::from_html(&document)
    }

    /// Get news briefs from the archive of the given year and month.
    pub fn archived_news_briefs(&self, year: u16, month: Month) -> (r: Result<
        Vec<ArticleBrief>,
        Error,
    >) {
        let mut path = "/news/archive/".to_owned();
        path.append(u64_to_string(year as u64).as_str());
        path.append("/");
        path.append(month.to_str());
        proof {
            assert(path@ == "/news/archive/"@ + dec_string_of(year as nat) + "/"@
                + month.spec_str());
        }
        let page = match self.get_page(path.as_str()) {
            Ok(p) => p,
            Err(e) => {
                return Err(e);
            },
        };
        let document = query::parse_document(page.as_str());
        archived_article_briefs_from_html(&document)
    }

    /// Get match results briefs, one hundred results per page offset step.
    pub fn days_results_briefs(&self, page_offset: Option<u64>) -> (r: Result<
        MatchesResults,
        Error,
    >)
        requires
            page_offset matches Some(p) ==> p <= u64::MAX / 100,
    {
        let offset = match page_offset {
            Some(p) => p,
            None => 0,
        };
        let mut path = "/results?offset=".to_owned();
        path.append(u64_to_string(offset * 100).as_str());
        let page = match self.get_page(path.as_str()) {
            Ok(p) => p,
            Err(e) => {
                return Err(e);
            },
        };
        let document = query::parse_document(page.as_str());
        MatchesResults::from_html(&document)
    }
}

} // verus!
