use vstd::prelude::*;

use crate::groups::{assemble_groups, Section};
use crate::numbers::{dec_value, parse_u8, u8_numeral};
use crate::query;
use crate::{fails_with, hltv_parse_err, Error};

verus! {

/// A short match result: the two team names, their map scores, the path to
/// the match page, the event name, the map (or match format) text, and the
/// number of star decorations.
#[derive(Debug, PartialEq)]
pub struct MatchResult {
    pub team1: String,
    pub team2: String,
    pub result: (u8, u8),
    pub link: String,
    pub event: String,
    pub map: String,
    pub stars: usize,
}

impl MatchResult {
    /// What assembling a match result from its raw field values must yield:
    /// the first absent required field, in the fixed order link element,
    /// href, team1, team2, team1's score, team2's score, event, map, decides
    /// the named failure; a score text that is present but not a small
    /// decimal numeral is a distinct failure; with everything present the
    /// record carries the texts verbatim and the parsed scores.
    pub open spec fn from_parts_post(
        link_found: bool,
        href: Option<String>,
        team1: Option<String>,
        team2: Option<String>,
        score1: Option<String>,
        score2: Option<String>,
        event: Option<String>,
        map_text: Option<String>,
        stars: usize,
        r: Result<MatchResult, Error>,
    ) -> bool {
        if !link_found {
            fails_with(r, "No 'a' element with link to match result"@)
        } else if href is None {
            fails_with(r, "No href to match result"@)
        } else if team1 is None {
            fails_with(r, "No team1 for match result"@)
        } else if team2 is None {
            fails_with(r, "No team2 for match result"@)
        } else if score1 is None {
            fails_with(r, "No score for team1"@)
        } else if !u8_numeral(score1->0@) {
            fails_with(r, "Score is not integer"@)
        } else if score2 is None {
            fails_with(r, "No score for team2"@)
        } else if !u8_numeral(score2->0@) {
            fails_with(r, "Score is not integer"@)
        } else if event is None {
            fails_with(r, "Failed to find event name for match result"@)
        } else if map_text is None {
            fails_with(r, "Failed to find map for match result"@)
        } else {
            &&& r matches Ok(m)
            &&& m.team1 == team1->0
            &&& m.team2 == team2->0
            &&& m.result.0 as nat == dec_value(score1->0@)
            &&& m.result.1 as nat == dec_value(score2->0@)
            &&& m.link == href->0
            &&& m.event == event->0
            &&& m.map == map_text->0
            &&& m.stars == stars
        }
    }

    /// Assemble a match result from its raw field values, failing on the
    /// first absent required field in the fixed field order, or on a score
    /// text that is not a small decimal numeral.
    pub fn from_parts(
        link_found: bool,
        href: Option<String>,
        team1: Option<String>,
        team2: Option<String>,
        score1: Option<String>,
        score2: Option<String>,
        event: Option<String>,
        map_text: Option<String>,
        stars: usize,
    ) -> (r: Result<MatchResult, Error>)
        ensures
            Self::from_parts_post(
                link_found,
                href,
                team1,
                team2,
                score1,
                score2,
                event,
                map_text,
                stars,
                r,
            ),
    {
        if !link_found {
            return Err(Error::HltvParse("No 'a' element with link to match result".to_owned()));
        }
        let link = match hltv_parse_err(href, "No href to match result") {
            Ok(v) => v,
            Err(e) => {
                return Err(e);
            },
        };
        let team1 = match hltv_parse_err(team1, "No team1 for match result") {
            Ok(v) => v,
            Err(e) => {
                return Err(e);
            },
        };
        let team2 = match hltv_parse_err(team2, "No team2 for match result") {
            Ok(v) => v,
            Err(e) => {
                return Err(e);
            },
        };
        let score1 = match hltv_parse_err(score1, "No score for team1") {
            Ok(v) => v,
            Err(e) => {
                return Err(e);
            },
        };
        let team1_score = match parse_u8(score1.as_str()) {
            Some(v) => v,
            None => {
                return Err(Error::HltvParse("Score is not integer".to_owned()));
            },
        };
        let score2 = match hltv_parse_err(score2, "No score for team2") {
            Ok(v) => v,
            Err(e) => {
                return Err(e);
            },
        };
        let team2_score = match parse_u8(score2.as_str()) {
            Some(v) => v,
            None => {
                return Err(Error::HltvParse("Score is not integer".to_owned()));
            },
        };
        let event = match hltv_parse_err(event, "Failed to find event name for match result") {
            Ok(v) => v,
            Err(e) => {
                return Err(e);
            },
        };
        let map = match hltv_parse_err(map_text, "Failed to find map for match result") {
            Ok(v) => v,
            Err(e) => {
                return Err(e);
            },
        };
        Ok(MatchResult { team1, team2, result: (team1_score, team2_score), link, event, map, stars })
    }

    /// Whether the engine accepts this builder's seven fixed selectors.
    pub open spec fn selectors_ok() -> bool {
        &&& query::sel_ok("a"@)
        &&& query::sel_ok("div.team1>div.team"@)
        &&& query::sel_ok("div.team2>div.team"@)
        &&& query::sel_ok("td.result-score>span"@)
        &&& query::sel_ok("span.event-name"@)
        &&& query::sel_ok("div.map-text"@)
        &&& query::sel_ok("i.star"@)
    }

    /// The `href` attribute of the element's first `a` descendant, when that
    /// descendant exists and carries the attribute.
    pub open spec fn href_view(element: scraper::ElementRef<'_>) -> Option<Seq<char>> {
        match query::first_match_of(element, "a"@) {
            Some(a) => query::attr_value_of(a, "href"@),
            None => None,
        }
    }

    /// The text of the score cell's span at position `k`, when one exists.
    pub open spec fn score_view(element: scraper::ElementRef<'_>, k: int) -> Option<Seq<char>> {
        if query::selected_of(element, query::sel_of("td.result-score>span"@)).len() > k {
            Some(
                query::text_content_of(
                    query::selected_of(element, query::sel_of("td.result-score>span"@))[k],
                ),
            )
        } else {
            None
        }
    }

    /// The number of star decorations on the element.
    pub open spec fn stars_of(element: scraper::ElementRef<'_>) -> nat {
        query::selected_of(element, query::sel_of("i.star"@)).len()
    }

    /// `from_parts_post` restated over the raw field values' views.
    pub open spec fn parts_post_view(
        link_found: bool,
        href: Option<Seq<char>>,
        team1: Option<Seq<char>>,
        team2: Option<Seq<char>>,
        score1: Option<Seq<char>>,
        score2: Option<Seq<char>>,
        event: Option<Seq<char>>,
        map_text: Option<Seq<char>>,
        stars: nat,
        r: Result<MatchResult, Error>,
    ) -> bool {
        if !link_found {
            fails_with(r, "No 'a' element with link to match result"@)
        } else if href is None {
            fails_with(r, "No href to match result"@)
        } else if team1 is None {
            fails_with(r, "No team1 for match result"@)
        } else if team2 is None {
            fails_with(r, "No team2 for match result"@)
        } else if score1 is None {
            fails_with(r, "No score for team1"@)
        } else if !u8_numeral(score1->0) {
            fails_with(r, "Score is not integer"@)
        } else if score2 is None {
            fails_with(r, "No score for team2"@)
        } else if !u8_numeral(score2->0) {
            fails_with(r, "Score is not integer"@)
        } else if event is None {
            fails_with(r, "Failed to find event name for match result"@)
        } else if map_text is None {
            fails_with(r, "Failed to find map for match result"@)
        } else {
            &&& r matches Ok(m)
            &&& m.team1@ == team1->0
            &&& m.team2@ == team2->0
            &&& m.result.0 as nat == dec_value(score1->0)
            &&& m.result.1 as nat == dec_value(score2->0)
            &&& m.link@ == href->0
            &&& m.event@ == event->0
            &&& m.map@ == map_text->0
            &&& m.stars as nat == stars
        }
    }

    /// Whether the element holds every required field, with numeric scores,
    /// so that building a match result from it succeeds.
    pub open spec fn query_ok(element: scraper::ElementRef<'_>) -> bool {
        &&& query::first_match_of(element, "a"@) is Some
        &&& Self::href_view(element) is Some
        &&& query::first_text_of(element, "div.team1>div.team"@) is Some
        &&& query::first_text_of(element, "div.team2>div.team"@) is Some
        &&& Self::score_view(element, 0) matches Some(s1) && u8_numeral(s1)
        &&& Self::score_view(element, 1) matches Some(s2) && u8_numeral(s2)
        &&& query::first_text_of(element, "span.event-name"@) is Some
        &&& query::first_text_of(element, "div.map-text"@) is Some
    }

    /// What extracting a match result from `element` must yield:
    /// `from_parts_post` over the first `a` descendant's `href`, the first
    /// matches' texts, the first two score spans, and the star count.
    pub open spec fn query_post(
        element: scraper::ElementRef<'_>,
        r: Result<MatchResult, Error>,
    ) -> bool {
        Self::parts_post_view(
            query::first_match_of(element, "a"@) is Some,
            Self::href_view(element),
            query::first_text_of(element, "div.team1>div.team"@),
            query::first_text_of(element, "div.team2>div.team"@),
            Self::score_view(element, 0),
            Self::score_view(element, 1),
            query::first_text_of(element, "span.event-name"@),
            query::first_text_of(element, "div.map-text"@),
            Self::stars_of(element),
            r,
        )
    }

    /// Extract a match result from one result-line element: the link from the
    /// first `a` element's `href`, the team names, the two scores from the
    /// repeated score cell (team1's first), the event name, the map text, and
    /// the count of star decorations, in that order.
    pub fn from_element_ref(element: scraper::ElementRef<'_>) -> (r: Result<MatchResult, Error>)
        ensures
            r matches Err(e) ==> e is HltvParse || e is CssParse,
            Self::selectors_ok() ==> Self::query_post(element, r),
            Self::selectors_ok() ==> (r is Ok <==> Self::query_ok(element)),
    {
        let link_elem = match query::select_one(&element, "a") {
            Ok(v) => v,
            Err(e) => {
                return Err(e);
            },
        };
        let link_found = link_elem.is_some();
        let href = match link_elem {
            Some(el) => query::attr_of(&el, "href"),
            None => None,
        };
        let team1 = match query::select_text(&element, "div.team1>div.team") {
            Ok(t) => t,
            Err(e) => {
                return Err(e);
            },
        };
        let team2 = match query::select_text(&element, "div.team2>div.team") {
            Ok(t) => t,
            Err(e) => {
                return Err(e);
            },
        };
        let score_selector = match query::parse_selector("td.result-score>span") {
            Ok(v) => v,
            Err(e) => {
                return Err(e);
            },
        };
        let score_elements = query::select_all(&element, &score_selector);
        let score1 = if score_elements.len() >= 1 {
            Some(query::text_of(&score_elements[0]))
        } else {
            None
        };
        let score2 = if score_elements.len() >= 2 {
            Some(query::text_of(&score_elements[1]))
        } else {
            None
        };
        let event = match query::select_text(&element, "span.event-name") {
            Ok(t) => t,
            Err(e) => {
                return Err(e);
            },
        };
        let map_text = match query::select_text(&element, "div.map-text") {
            Ok(t) => t,
            Err(e) => {
                return Err(e);
            },
        };
        let star_selector = match query::parse_selector("i.star") {
            Ok(v) => v,
            Err(e) => {
                return Err(e);
            },
        };
        let stars = query::select_all(&element, &star_selector).len();
        Self::from_parts(link_found, href, team1, team2, score1, score2, event, map_text, stars)
    }
}

/// The last group whose key reads as `day`, mirroring a map where a repeated
/// key's later entry wins.
pub open spec fn lookup<T>(groups: Seq<(String, Vec<T>)>, day: Seq<char>) -> Option<Vec<T>>
    decreases groups.len(),
{
    if groups.len() == 0 {
        None
    } else if groups.last().0@ == day {
        Some(groups.last().1)
    } else {
        lookup(groups.drop_last(), day)
    }
}

/// Short match results for multiple days: an ordered mapping from day
/// headline to that day's results, in document order.
#[derive(Debug)]
pub struct MatchesResults {
    pub results: Vec<(String, Vec<MatchResult>)>,
}

impl MatchesResults {
    /// Whether the engine accepts the results page's three fixed selectors
    /// and the result builder's own.
    pub open spec fn page_selectors_ok() -> bool {
        &&& query::sel_ok("div.results-holder>div.results-all>div.results-sublist"@)
        &&& query::sel_ok(".standard-headline"@)
        &&& query::sel_ok("div.result-con"@)
        &&& MatchResult::selectors_ok()
    }

    /// The day sublists of a results page, in document order.
    pub open spec fn sections_of(document: &scraper::Html) -> Seq<scraper::ElementRef<'_>> {
        query::doc_selected_of(
            document,
            query::sel_of("div.results-holder>div.results-all>div.results-sublist"@),
        )
    }

    /// A day sublist's headline text, when one is found.
    pub open spec fn section_headline(section: scraper::ElementRef<'_>) -> Option<Seq<char>> {
        query::first_text_of(section, ".standard-headline"@)
    }

    /// A day sublist's result-line elements, in document order.
    pub open spec fn section_members(section: scraper::ElementRef<'_>) -> Seq<
        scraper::ElementRef<'_>,
    > {
        query::selected_of(section, query::sel_of("div.result-con"@))
    }

    /// Whether a day sublist reads completely: it has a headline and every
    /// result line builds.
    pub open spec fn section_reads(section: scraper::ElementRef<'_>) -> bool {
        &&& Self::section_headline(section) is Some
        &&& forall|j: int|
            0 <= j < Self::section_members(section).len() ==> MatchResult::query_ok(
                #[trigger] Self::section_members(section)[j],
            )
    }

    /// Whether every day sublist of the document reads completely.
    pub open spec fn all_sections_read(document: &scraper::Html) -> bool {
        forall|i: int|
            0 <= i < Self::sections_of(document).len() ==> Self::section_reads(
                #[trigger] Self::sections_of(document)[i],
            )
    }

    /// Whether `i` is the first day sublist, in document order, that does not
    /// read completely.
    pub open spec fn first_unread_section(document: &scraper::Html, i: int) -> bool {
        &&& 0 <= i < Self::sections_of(document).len()
        &&& !Self::section_reads(Self::sections_of(document)[i])
        &&& forall|k: int|
            0 <= k < i ==> Self::section_reads(#[trigger] Self::sections_of(document)[k])
    }

    /// Whether `j` is the first result line of the sublist that does not
    /// build.
    pub open spec fn first_unreadable_member(section: scraper::ElementRef<'_>, j: int) -> bool {
        &&& 0 <= j < Self::section_members(section).len()
        &&& !MatchResult::query_ok(Self::section_members(section)[j])
        &&& forall|k: int|
            0 <= k < j ==> MatchResult::query_ok(#[trigger] Self::section_members(section)[k])
    }

    /// Whether one assembled group carries a day sublist: its key is the
    /// sublist's headline and its records are the sublist's result lines,
    /// built in order.
    pub open spec fn group_reads(
        section: scraper::ElementRef<'_>,
        g: (String, Vec<MatchResult>),
    ) -> bool {
        &&& Self::section_headline(section) matches Some(h) && g.0@ == h
        &&& g.1@.len() == Self::section_members(section).len()
        &&& forall|j: int|
            0 <= j < g.1@.len() ==> MatchResult::query_post(
                Self::section_members(section)[j],
                Ok(#[trigger] g.1@[j]),
            )
    }

    /// The failure owed to the first unreadable day sublist: a missing
    /// headline is the named failure, and otherwise the first unbuildable
    /// result line's own failure is passed on unchanged.
    pub open spec fn section_failure(section: scraper::ElementRef<'_>, e: Error) -> bool {
        if Self::section_headline(section) is None {
            e matches Error::HltvParse(m) && m@ == "Failed to find day headline"@
        } else {
            forall|j: int|
                Self::first_unreadable_member(section, j) ==> MatchResult::query_post(
                    Self::section_members(section)[j],
                    Err::<MatchResult, Error>(e),
                )
        }
    }

    /// What extracting the grouped results from `document` must yield: with
    /// every day sublist reading completely, one group per sublist, keyed by
    /// its headline and holding its result lines in order; otherwise the
    /// first unreadable sublist, in document order, decides the failure.
    pub open spec fn from_html_post(
        document: &scraper::Html,
        r: Result<MatchesResults, Error>,
    ) -> bool {
        if Self::all_sections_read(document) {
            r matches Ok(m) && m.results@.len() == Self::sections_of(document).len() && forall|
                i: int,
            |
                0 <= i < m.results@.len() ==> Self::group_reads(
                    Self::sections_of(document)[i],
                    #[trigger] m.results@[i],
                )
        } else {
            r matches Err(e) && forall|i: int|
                Self::first_unread_section(document, i) ==> Self::section_failure(
                    Self::sections_of(document)[i],
                    e,
                )
        }
    }

    /// Whether the gathered section values carry the document's day sublists:
    /// as many as the sublists, each with the sublist's headline text and,
    /// when the result builder's selectors are accepted, with each result
    /// line's outcome in order.
    pub open spec fn section_gathered(
        section: scraper::ElementRef<'_>,
        s: Section<MatchResult>,
    ) -> bool {
        &&& crate::opt_view(s.headline) == Self::section_headline(section)
        &&& s.members@.len() == Self::section_members(section).len()
        &&& MatchResult::selectors_ok() ==> forall|j: int|
            0 <= j < s.members@.len() ==> MatchResult::query_post(
                Self::section_members(section)[j],
                #[trigger] s.members@[j],
            )
        &&& MatchResult::selectors_ok() ==> forall|j: int|
            0 <= j < s.members@.len() ==> ((#[trigger] s.members@[j]) is Ok
                <==> MatchResult::query_ok(Self::section_members(section)[j]))
    }

    /// Whether `sections` are the document's day sublists, read in order.
    pub open spec fn sections_gathered(
        document: &scraper::Html,
        sections: Seq<Section<MatchResult>>,
    ) -> bool {
        &&& sections.len() == Self::sections_of(document).len()
        &&& forall|i: int|
            0 <= i < sections.len() ==> Self::section_gathered(
                Self::sections_of(document)[i],
                #[trigger] sections[i],
            )
    }

    proof fn lemma_reads_iff_ok(
        document: &scraper::Html,
        secs: Seq<Section<MatchResult>>,
        i: int,
    )
        requires
            Self::page_selectors_ok(),
            Self::sections_gathered(document, secs),
            0 <= i < secs.len(),
        ensures
            crate::groups::section_ok(secs[i]) <==> Self::section_reads(
                Self::sections_of(document)[i],
            ),
    {
        let section = Self::sections_of(document)[i];
        assert(Self::section_gathered(section, secs[i]));
        if crate::groups::section_ok(secs[i]) {
            assert forall|j: int|
                0 <= j < Self::section_members(section).len() implies MatchResult::query_ok(
                #[trigger] Self::section_members(section)[j],
            ) by {
                assert(secs[i].members@[j] is Ok);
            }
        } else {
            if secs[i].headline is Some {
                assert(!(forall|j: int|
                    0 <= j < secs[i].members@.len() ==> (#[trigger] secs[i].members@[j]) is Ok));
                let w = choose|j: int|
                    0 <= j < secs[i].members@.len() && !((#[trigger] secs[i].members@[j]) is Ok);
                assert(!MatchResult::query_ok(Self::section_members(section)[w]));
                assert(!Self::section_reads(section));
            }
        }
    }

    proof fn lemma_bridge_ok(
        document: &scraper::Html,
        secs: Seq<Section<MatchResult>>,
        g: Seq<(String, Vec<MatchResult>)>,
    )
        requires
            Self::page_selectors_ok(),
            Self::sections_gathered(document, secs),
            crate::groups::all_sections_ok(secs),
            crate::groups::groups_match(secs, g),
        ensures
            Self::all_sections_read(document),
            g.len() == Self::sections_of(document).len(),
            forall|i: int|
                0 <= i < g.len() ==> Self::group_reads(
                    Self::sections_of(document)[i],
                    #[trigger] g[i],
                ),
    {
        assert forall|i: int|
            0 <= i < Self::sections_of(document).len() implies Self::section_reads(
            #[trigger] Self::sections_of(document)[i],
        ) by {
            assert(crate::groups::section_ok(secs[i]));
            Self::lemma_reads_iff_ok(document, secs, i);
        }
        assert forall|i: int| 0 <= i < g.len() implies Self::group_reads(
            Self::sections_of(document)[i],
            #[trigger] g[i],
        ) by {
            assert(crate::groups::group_matches(secs[i], g[i]));
            assert(crate::groups::section_ok(secs[i]));
            let section = Self::sections_of(document)[i];
            assert(Self::section_gathered(section, secs[i]));
            assert forall|j: int| 0 <= j < g[i].1@.len() implies MatchResult::query_post(
                Self::section_members(section)[j],
                Ok(#[trigger] g[i].1@[j]),
            ) by {
                assert(secs[i].members@[j] is Ok);
                assert(g[i].1@[j] == secs[i].members@[j]->Ok_0);
                assert(secs[i].members@[j] == Ok::<MatchResult, Error>(g[i].1@[j]));
                assert(MatchResult::query_post(
                    Self::section_members(section)[j],
                    secs[i].members@[j],
                ));
            }
        }
    }

    proof fn lemma_bridge_err(document: &scraper::Html, secs: Seq<Section<MatchResult>>, e: Error)
        requires
            Self::page_selectors_ok(),
            Self::sections_gathered(document, secs),
            crate::groups::assemble_post(
                secs,
                "Failed to find day headline"@,
                Err::<Vec<(String, Vec<MatchResult>)>, Error>(e),
            ),
        ensures
            !Self::all_sections_read(document),
            forall|i: int|
                Self::first_unread_section(document, i) ==> Self::section_failure(
                    #[trigger] Self::sections_of(document)[i],
                    e,
                ),
    {
        assert(!crate::groups::all_sections_ok(secs));
        let bad = choose|k: int|
            0 <= k < secs.len() && !crate::groups::section_ok(#[trigger] secs[k]);
        Self::lemma_reads_iff_ok(document, secs, bad);
        assert(!Self::section_reads(Self::sections_of(document)[bad]));
        assert forall|i: int| Self::first_unread_section(document, i) implies Self::section_failure(
            #[trigger] Self::sections_of(document)[i],
            e,
        ) by {
            let section = Self::sections_of(document)[i];
            assert(Self::section_gathered(section, secs[i]));
            assert(!crate::groups::section_ok(secs[i])) by {
                Self::lemma_reads_iff_ok(document, secs, i);
            }
            assert(crate::groups::first_bad_section(secs, i)) by {
                assert forall|k: int| 0 <= k < i implies crate::groups::section_ok(
                    #[trigger] secs[k],
                ) by {
                    Self::lemma_reads_iff_ok(document, secs, k);
                }
            }
            assert(crate::groups::bad_section_error(secs[i], "Failed to find day headline"@, e));
            if Self::section_headline(section) is None {
                assert(secs[i].headline is None);
            } else {
                assert(secs[i].headline is Some);
                assert forall|j: int|
                    Self::first_unreadable_member(section, j) implies MatchResult::query_post(
                    Self::section_members(section)[j],
                    Err::<MatchResult, Error>(e),
                ) by {
                    assert(crate::groups::first_bad_member(secs[i].members@, j)) by {
                        assert(!(secs[i].members@[j] is Ok));
                        assert forall|k: int| 0 <= k < j implies (
                        #[trigger] secs[i].members@[k]) is Ok by {
                            assert(MatchResult::query_ok(Self::section_members(section)[k]));
                        }
                    }
                    assert(e == secs[i].members@[j]->Err_0);
                    assert(secs[i].members@[j] == Err::<MatchResult, Error>(e));
                    assert(MatchResult::query_post(
                        Self::section_members(section)[j],
                        secs[i].members@[j],
                    ));
                }
            }
        }
    }

    /// Extract grouped match results: locate every day sublist, read its day
    /// headline and every result line, and assemble the groups in document
    /// order; the first day without a headline or with an unreadable result
    /// line decides the failure.
    pub fn from_html(document: &scraper::Html) -> (r: Result<MatchesResults, Error>)
        ensures
            r matches Err(e) ==> e is HltvParse || e is CssParse,
            Self::page_selectors_ok() ==> Self::from_html_post(document, r),
    {
        let sections = match results_sections(document) {
            Ok(v) => v,
            Err(e) => {
                return Err(e);
            },
        };
        let ghost secs = sections@;
        match assemble_groups(sections, "Failed to find day headline") {
            Ok(groups) => {
                proof {
                    if Self::page_selectors_ok() {
                        Self::lemma_bridge_ok(document, secs, groups@);
                    }
                }
                Ok(MatchesResults { results: groups })
            },
            Err(e) => {
                proof {
                    assert(e is HltvParse || e is CssParse) by {
                        crate::groups::lemma_error_kinds(secs, "Failed to find day headline"@, e);
                    }
                    if Self::page_selectors_ok() {
                        Self::lemma_bridge_err(document, secs, e);
                    }
                }
                Err(e)
            },
        }
    }

    /// The results of the given day headline, when that day is present; with
    /// a repeated headline the later group wins, as in a map built by
    /// repeated insertion.
    pub fn get(&self, day: &str) -> (r: Option<&Vec<MatchResult>>)
        ensures
            r matches Some(v) ==> lookup(self.results@, day@) == Some(*v),
            r is None ==> lookup(self.results@, day@) is None,
    {
        lookup_group(&self.results, day)
    }
}

/// Find the last group keyed by `day` in an ordered group list.
pub(crate) fn lookup_group<'a, T>(groups: &'a Vec<(String, Vec<T>)>, day: &str) -> (r: Option<
    &'a Vec<T>,
>)
    ensures
        r matches Some(v) ==> lookup(groups@, day@) == Some(*v),
        r is None ==> lookup(groups@, day@) is None,
{
    let key = day.to_owned();
    let mut i: usize = groups.len();
    proof {
        assert(groups@.subrange(0, i as int) =~= groups@);
    }
    while i > 0
        invariant
            0 <= i <= groups@.len(),
            key@ == day@,
            lookup(groups@, day@) == lookup(groups@.subrange(0, i as int), day@),
        decreases i,
    {
        proof {
            assert(groups@.subrange(0, i as int).last() == groups@[i - 1]);
            assert(groups@.subrange(0, i as int).drop_last() =~= groups@.subrange(0, i - 1));
        }
        let pair = &groups[i - 1];
        if pair.0 == key {
            return Some(&pair.1);
        }
        i = i - 1;
    }
    proof {
        assert(groups@.subrange(0, 0) =~= Seq::<(String, Vec<T>)>::empty());
    }
    None
}

/// Locate the day sublists of a results page and read each one's headline
/// and result lines, in document order.
fn results_sections(document: &scraper::Html) -> (r: Result<Vec<Section<MatchResult>>, Error>)
    ensures
        r matches Err(e) ==> e is CssParse,
        r is Err ==> !(query::sel_ok("div.results-holder>div.results-all>div.results-sublist"@)
            && query::sel_ok(".standard-headline"@) && query::sel_ok("div.result-con"@)),
        r matches Ok(sections) ==> MatchesResults::sections_gathered(document, sections@),
        r matches Ok(sections) ==> forall|i: int, j: int|
            0 <= i < sections@.len() && 0 <= j < sections@[i].members@.len() && (
            #[trigger] sections@[i].members@[j]) is Err ==> (sections@[i].members@[j]->Err_0
                is HltvParse || sections@[i].members@[j]->Err_0 is CssParse),
{
    let selector = match query::parse_selector(
        "div.results-holder>div.results-all>div.results-sublist",
    ) {
        Ok(v) => v,
        Err(e) => {
            return Err(e);
        },
    };
    let elements = query::html_select_all(document, &selector);
    let mut sections: Vec<Section<MatchResult>> = Vec::new();
    let mut i: usize = 0;
    while i < elements.len()
        invariant
            elements@ == MatchesResults::sections_of(document),
            0 <= i <= elements@.len(),
            sections@.len() == i,
            forall|k: int|
                0 <= k < i ==> MatchesResults::section_gathered(
                    MatchesResults::sections_of(document)[k],
                    #[trigger] sections@[k],
                ),
            forall|k: int, j: int|
                0 <= k < sections@.len() && 0 <= j < sections@[k].members@.len() && (
                #[trigger] sections@[k].members@[j]) is Err ==> (sections@[k].members@[j]->Err_0
                    is HltvParse || sections@[k].members@[j]->Err_0 is CssParse),
        decreases elements@.len() - i,
    {
        let ghost section_elem = elements@[i as int];
        let headline = match query::select_text(&elements[i], ".standard-headline") {
            Ok(t) => t,
            Err(e) => {
                return Err(e);
            },
        };
        let member_selector = match query::parse_selector("div.result-con") {
            Ok(v) => v,
            Err(e) => {
                return Err(e);
            },
        };
        let member_elements = query::select_all(&elements[i], &member_selector);
        let mut members: Vec<Result<MatchResult, Error>> = Vec::new();
        let mut j: usize = 0;
        while j < member_elements.len()
            invariant
                member_elements@ == MatchesResults::section_members(section_elem),
                0 <= j <= member_elements@.len(),
                members@.len() == j,
                forall|k: int|
                    0 <= k < members@.len() && (#[trigger] members@[k]) is Err ==> (
                    members@[k]->Err_0 is HltvParse || members@[k]->Err_0 is CssParse),
                MatchResult::selectors_ok() ==> forall|k: int|
                    0 <= k < j ==> MatchResult::query_post(
                        MatchesResults::section_members(section_elem)[k],
                        #[trigger] members@[k],
                    ),
                MatchResult::selectors_ok() ==> forall|k: int|
                    0 <= k < j ==> ((#[trigger] members@[k]) is Ok <==> MatchResult::query_ok(
                        MatchesResults::section_members(section_elem)[k],
                    )),
            decreases member_elements@.len() - j,
        {
            members.push(MatchResult::from_element_ref(member_elements[j]));
            j = j + 1;
        }
        sections.push(Section { headline, members });
        i = i + 1;
    }
    Ok(sections)
}

} // verus!
