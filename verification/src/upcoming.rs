use vstd::prelude::*;

use crate::groups::{assemble_groups, Section};
use crate::query;
use crate::results::{lookup, lookup_group};
use crate::{fails_with, hltv_parse_err, Error};

verus! {

/// One team slot of an upcoming match: a resolved team name, or a
/// to-be-determined placeholder text.
#[derive(Debug, PartialEq)]
pub enum UpcomingMatchTeam {
    Name(String),
    Tbd(String),
}

impl UpcomingMatchTeam {
    /// What building a team slot from its raw locator texts must yield: a
    /// found "named team" text wins, a found plain "team" text is the
    /// to-be-determined fallback, and with neither found the slot is a named
    /// failure.
    pub open spec fn from_parts_post(
        named: Option<String>,
        plain: Option<String>,
        r: Result<UpcomingMatchTeam, Error>,
    ) -> bool {
        match (named, plain) {
            (Some(n), _) => r == Ok::<UpcomingMatchTeam, Error>(UpcomingMatchTeam::Name(n)),
            (None, Some(p)) => r == Ok::<UpcomingMatchTeam, Error>(UpcomingMatchTeam::Tbd(p)),
            (None, None) => fails_with(r, "Failed to find TBD team info"@),
        }
    }

    /// Build a team slot from its raw locator texts, trying the more specific
    /// "named team" locator first.
    pub fn from_parts(named: Option<String>, plain: Option<String>) -> (r: Result<
        UpcomingMatchTeam,
        Error,
    >)
        ensures
            Self::from_parts_post(named, plain, r),
    {
        match named {
            Some(n) => Ok(UpcomingMatchTeam::Name(n)),
            None => match hltv_parse_err(plain, "Failed to find TBD team info") {
                Ok(p) => Ok(UpcomingMatchTeam::Tbd(p)),
                Err(e) => Err(e),
            },
        }
    }

    /// Whether the engine accepts this builder's two fixed locators.
    pub open spec fn selectors_ok() -> bool {
        &&& query::sel_ok(".matchTeamName"@)
        &&& query::sel_ok(".team"@)
    }

    /// `from_parts_post` restated over the raw locator texts' views.
    pub open spec fn parts_post_view(
        named: Option<Seq<char>>,
        plain: Option<Seq<char>>,
        r: Result<UpcomingMatchTeam, Error>,
    ) -> bool {
        match (named, plain) {
            (Some(n), _) => r matches Ok(t) && t matches UpcomingMatchTeam::Name(s) && s@ == n,
            (None, Some(p)) => r matches Ok(t) && t matches UpcomingMatchTeam::Tbd(s) && s@ == p,
            (None, None) => fails_with(r, "Failed to find TBD team info"@),
        }
    }

    /// Whether either team locator resolves on the element, so that building
    /// a team slot from it succeeds.
    pub open spec fn query_ok(element: scraper::ElementRef<'_>) -> bool {
        query::first_text_of(element, ".matchTeamName"@) is Some || query::first_text_of(
            element,
            ".team"@,
        ) is Some
    }

    /// What extracting a team slot from `element` must yield:
    /// `from_parts_post` over the texts of the two locators' first matches.
    pub open spec fn query_post(
        element: scraper::ElementRef<'_>,
        r: Result<UpcomingMatchTeam, Error>,
    ) -> bool {
        Self::parts_post_view(
            query::first_text_of(element, ".matchTeamName"@),
            query::first_text_of(element, ".team"@),
            r,
        )
    }

    /// Extract a team slot from one team element: the named-team text when
    /// its locator resolves, else the plain team text.
    pub fn from_element_ref(element: scraper::ElementRef<'_>) -> (r: Result<
        UpcomingMatchTeam,
        Error,
    >)
        ensures
            r matches Err(e) ==> e is HltvParse || e is CssParse,
            Self::selectors_ok() ==> Self::query_post(element, r),
            Self::selectors_ok() ==> (r is Ok <==> Self::query_ok(element)),
    {
        let named = match query::select_text(&element, ".matchTeamName") {
            Ok(t) => t,
            Err(e) => {
                return Err(e);
            },
        };
        let plain = match query::select_text(&element, ".team") {
            Ok(t) => t,
            Err(e) => {
                return Err(e);
            },
        };
        Self::from_parts(named, plain)
    }
}

/// The teams of an upcoming match: either a single descriptive placeholder
/// (a bracket-stage label with no assigned teams), or the two team slots with
/// the event name. Exactly one variant applies.
#[derive(Debug, PartialEq)]
pub enum UpcomingMatchTeams {
    Empty { description: String },
    Teams { team1: UpcomingMatchTeam, team2: UpcomingMatchTeam, event: String },
}

/// An upcoming match: its teams, starting time, star rating, format note,
/// and the path to the match page.
#[derive(Debug, PartialEq)]
pub struct UpcomingMatch {
    pub teams: UpcomingMatchTeams,
    pub time: String,
    pub rating: usize,
    pub meta: String,
    pub link: String,
}

impl UpcomingMatch {
    /// What assembling an upcoming match from its raw parts must yield: the
    /// first absent required part, in the fixed order link element, href,
    /// time, format note, decides the named failure; a found "empty teams"
    /// placeholder then makes the `Empty` variant; otherwise the event name
    /// and the two team slots are required in that order, a team slot's own
    /// failure being passed on unchanged.
    pub open spec fn from_parts_post(
        link_found: bool,
        href: Option<String>,
        time: Option<String>,
        rating: usize,
        meta: Option<String>,
        empty_desc: Option<String>,
        event: Option<String>,
        team1: Option<Result<UpcomingMatchTeam, Error>>,
        team2: Option<Result<UpcomingMatchTeam, Error>>,
        r: Result<UpcomingMatch, Error>,
    ) -> bool {
        if !link_found {
            fails_with(r, "No 'a' element with link to upcoming match"@)
        } else if href is None {
            fails_with(r, "No href to upcoming match"@)
        } else if time is None {
            fails_with(r, "Failed to find match time"@)
        } else if meta is None {
            fails_with(r, "Failed to get match meta (format)"@)
        } else if empty_desc is Some {
            r == Ok::<UpcomingMatch, Error>(
                UpcomingMatch {
                    teams: UpcomingMatchTeams::Empty { description: empty_desc->0 },
                    time: time->0,
                    rating,
                    meta: meta->0,
                    link: href->0,
                },
            )
        } else if event is None {
            fails_with(r, "Failed to find event"@)
        } else if team1 is None {
            fails_with(r, "Failed to find team1 element"@)
        } else if team1->0 is Err {
            r == Err::<UpcomingMatch, Error>(team1->0->Err_0)
        } else if team2 is None {
            fails_with(r, "Failed to find team2 element"@)
        } else if team2->0 is Err {
            r == Err::<UpcomingMatch, Error>(team2->0->Err_0)
        } else {
            r == Ok::<UpcomingMatch, Error>(
                UpcomingMatch {
                    teams: UpcomingMatchTeams::Teams {
                        team1: team1->0->Ok_0,
                        team2: team2->0->Ok_0,
                        event: event->0,
                    },
                    time: time->0,
                    rating,
                    meta: meta->0,
                    link: href->0,
                },
            )
        }
    }

    /// Assemble an upcoming match from its raw parts, failing on the first
    /// absent required part in the fixed order, and choosing the `Empty`
    /// teams variant exactly when the placeholder text was found.
    pub fn from_parts(
        link_found: bool,
        href: Option<String>,
        time: Option<String>,
        rating: usize,
        meta: Option<String>,
        empty_desc: Option<String>,
        event: Option<String>,
        team1: Option<Result<UpcomingMatchTeam, Error>>,
        team2: Option<Result<UpcomingMatchTeam, Error>>,
    ) -> (r: Result<UpcomingMatch, Error>)
        ensures
            Self::from_parts_post(
                link_found,
                href,
                time,
                rating,
                meta,
                empty_desc,
                event,
                team1,
                team2,
                r,
            ),
    {
        if !link_found {
            return Err(Error::HltvParse("No 'a' element with link to upcoming match".to_owned()));
        }
        let link = match hltv_parse_err(href, "No href to upcoming match") {
            Ok(v) => v,
            Err(e) => {
                return Err(e);
            },
        };
        let time = match hltv_parse_err(time, "Failed to find match time") {
            Ok(v) => v,
            Err(e) => {
                return Err(e);
            },
        };
        let meta = match hltv_parse_err(meta, "Failed to get match meta (format)") {
            Ok(v) => v,
            Err(e) => {
                return Err(e);
            },
        };
        let teams = match empty_desc {
            Some(description) => UpcomingMatchTeams::Empty { description },
            None => {
                let event = match hltv_parse_err(event, "Failed to find event") {
                    Ok(v) => v,
                    Err(e) => {
                        return Err(e);
                    },
                };
                let team1 = match hltv_parse_err(team1, "Failed to find team1 element") {
                    Ok(v) => v,
                    Err(e) => {
                        return Err(e);
                    },
                };
                let team1 = match team1 {
                    Ok(t) => t,
                    Err(e) => {
                        return Err(e);
                    },
                };
                let team2 = match hltv_parse_err(team2, "Failed to find team2 element") {
                    Ok(v) => v,
                    Err(e) => {
                        return Err(e);
                    },
                };
                let team2 = match team2 {
                    Ok(t) => t,
                    Err(e) => {
                        return Err(e);
                    },
                };
                UpcomingMatchTeams::Teams { team1, team2, event }
            },
        };
        Ok(UpcomingMatch { teams, time, rating, meta, link })
    }

    /// Whether the engine accepts this builder's fixed selectors, the team
    /// builder's locators included.
    pub open spec fn selectors_ok() -> bool {
        &&& query::sel_ok("a"@)
        &&& query::sel_ok(".matchInfo>.matchTime"@)
        &&& query::sel_ok(".matchInfo>.matchRating>.fa-star"@)
        &&& query::sel_ok(".matchInfo>.matchMeta"@)
        &&& query::sel_ok(".matchInfoEmpty>span"@)
        &&& query::sel_ok(".matchEvent>.matchEventName"@)
        &&& query::sel_ok(".matchTeams>.team1"@)
        &&& query::sel_ok(".matchTeams>.team2"@)
        &&& UpcomingMatchTeam::selectors_ok()
    }

    /// The `href` attribute of the element's first `a` descendant, when that
    /// descendant exists and carries the attribute.
    pub open spec fn href_view(element: scraper::ElementRef<'_>) -> Option<Seq<char>> {
        match query::first_match_of(element, "a"@) {
            Some(a) => query::attr_value_of(a, "href"@),
            None => None,
        }
    }

    /// The element's star rating: its star decorations not marked faded.
    pub open spec fn rating_of(element: scraper::ElementRef<'_>) -> nat {
        count_unfaded_spec(
            query::selected_of(element, query::sel_of(".matchInfo>.matchRating>.fa-star"@)),
        )
    }

    /// Whether the element holds every required part, so that building an
    /// upcoming match from it succeeds: link, time and format note present,
    /// and either the "empty teams" placeholder or the event name with two
    /// buildable team slots.
    pub open spec fn query_ok(element: scraper::ElementRef<'_>) -> bool {
        &&& query::first_match_of(element, "a"@) is Some
        &&& Self::href_view(element) is Some
        &&& query::first_text_of(element, ".matchInfo>.matchTime"@) is Some
        &&& query::first_text_of(element, ".matchInfo>.matchMeta"@) is Some
        &&& (query::first_text_of(element, ".matchInfoEmpty>span"@) is Some || {
            &&& query::first_text_of(element, ".matchEvent>.matchEventName"@) is Some
            &&& query::first_match_of(element, ".matchTeams>.team1"@) matches Some(t1)
                && UpcomingMatchTeam::query_ok(t1)
            &&& query::first_match_of(element, ".matchTeams>.team2"@) matches Some(t2)
                && UpcomingMatchTeam::query_ok(t2)
        })
    }

    /// What extracting an upcoming match from `element` must yield:
    /// `from_parts_post` over the element's query results — the first absent
    /// required part, in the fixed order, decides the named failure; on
    /// success every field carries the respective query result.
    pub open spec fn query_post(
        element: scraper::ElementRef<'_>,
        r: Result<UpcomingMatch, Error>,
    ) -> bool {
        let href = Self::href_view(element);
        let time = query::first_text_of(element, ".matchInfo>.matchTime"@);
        let meta = query::first_text_of(element, ".matchInfo>.matchMeta"@);
        let empty_desc = query::first_text_of(element, ".matchInfoEmpty>span"@);
        let event = query::first_text_of(element, ".matchEvent>.matchEventName"@);
        let team1 = query::first_match_of(element, ".matchTeams>.team1"@);
        let team2 = query::first_match_of(element, ".matchTeams>.team2"@);
        if query::first_match_of(element, "a"@) is None {
            fails_with(r, "No 'a' element with link to upcoming match"@)
        } else if href is None {
            fails_with(r, "No href to upcoming match"@)
        } else if time is None {
            fails_with(r, "Failed to find match time"@)
        } else if meta is None {
            fails_with(r, "Failed to get match meta (format)"@)
        } else if empty_desc is Some {
            r matches Ok(m) && m.teams matches UpcomingMatchTeams::Empty { description }
                && description@ == empty_desc->0 && m.time@ == time->0 && m.rating as nat
                == Self::rating_of(element) && m.meta@ == meta->0 && m.link@ == href->0
        } else if event is None {
            fails_with(r, "Failed to find event"@)
        } else if team1 is None {
            fails_with(r, "Failed to find team1 element"@)
        } else if !UpcomingMatchTeam::query_ok(team1->0) {
            fails_with(r, "Failed to find TBD team info"@)
        } else if team2 is None {
            fails_with(r, "Failed to find team2 element"@)
        } else if !UpcomingMatchTeam::query_ok(team2->0) {
            fails_with(r, "Failed to find TBD team info"@)
        } else {
            r matches Ok(m) && m.teams matches UpcomingMatchTeams::Teams {
                team1: t1,
                team2: t2,
                event: ev,
            } && UpcomingMatchTeam::query_post(team1->0, Ok(t1)) && UpcomingMatchTeam::query_post(
                team2->0,
                Ok(t2),
            ) && ev@ == event->0 && m.time@ == time->0 && m.rating as nat == Self::rating_of(
                element,
            ) && m.meta@ == meta->0 && m.link@ == href->0
        }
    }

    /// Extract an upcoming match from one match element: the link from the
    /// first `a` element's `href`, the match time, the star rating (the
    /// count of star decorations not marked faded), the format note, and
    /// then the teams — the placeholder text when the "empty" locator
    /// resolves, else the event name and the two team slots, in that order.
    pub fn from_element_ref(element: scraper::ElementRef<'_>) -> (r: Result<UpcomingMatch, Error>)
        ensures
            r matches Err(e) ==> e is HltvParse || e is CssParse,
            Self::selectors_ok() ==> Self::query_post(element, r),
            Self::selectors_ok() ==> (r is Ok <==> Self::query_ok(element)),
    {
        let link_elem = match query::select_one(&element, "a") {
            Ok(v) => v,
            Err(e) => {
                return Err(e);
            },
        };
        let link_found = link_elem.is_some();
        let href = match link_elem {
            Some(el) => query::attr_of(&el, "href"),
            None => None,
        };
        let time = match query::select_text(&element, ".matchInfo>.matchTime") {
            Ok(t) => t,
            Err(e) => {
                return Err(e);
            },
        };
        let star_selector = match query::parse_selector(".matchInfo>.matchRating>.fa-star") {
            Ok(v) => v,
            Err(e) => {
                return Err(e);
            },
        };
        let stars = query::select_all(&element, &star_selector);
        let rating = count_unfaded(&stars);
        let meta = match query::select_text(&element, ".matchInfo>.matchMeta") {
            Ok(t) => t,
            Err(e) => {
                return Err(e);
            },
        };
        let empty_desc = match query::select_text(&element, ".matchInfoEmpty>span") {
            Ok(t) => t,
            Err(e) => {
                return Err(e);
            },
        };
        let event = match query::select_text(&element, ".matchEvent>.matchEventName") {
            Ok(t) => t,
            Err(e) => {
                return Err(e);
            },
        };
        let team1 = match query::select_one(&element, ".matchTeams>.team1") {
            Ok(found) => match found {
                Some(el) => Some(UpcomingMatchTeam::from_element_ref(el)),
                None => None,
            },
            Err(e) => {
                return Err(e);
            },
        };
        let team2 = match query::select_one(&element, ".matchTeams>.team2") {
            Ok(found) => match found {
                Some(el) => Some(UpcomingMatchTeam::from_element_ref(el)),
                None => None,
            },
            Err(e) => {
                return Err(e);
            },
        };
        Self::from_parts(
            link_found,
            href,
            time,
            rating,
            meta,
            empty_desc,
            event,
            team1,
            team2,
        )
    }
}

/// The number of elements of `elems` not marked with the "faded" class.
pub open spec fn count_unfaded_spec(elems: Seq<scraper::ElementRef<'_>>) -> nat
    decreases elems.len(),
{
    if elems.len() == 0 {
        0
    } else {
        count_unfaded_spec(elems.drop_last()) + if query::class_of(elems.last(), "faded"@) {
            0nat
        } else {
            1nat
        }
    }
}

/// Count the star elements not marked with the "faded" class.
fn count_unfaded(elements: &Vec<scraper::ElementRef<'_>>) -> (n: usize)
    ensures
        n as nat == count_unfaded_spec(elements@),
{
    let mut n: usize = 0;
    let mut i: usize = 0;
    while i < elements.len()
        invariant
            0 <= i <= elements@.len(),
            n <= i,
            n as nat == count_unfaded_spec(elements@.subrange(0, i as int)),
        decreases elements@.len() - i,
    {
        proof {
            assert(elements@.subrange(0, i + 1 as int).drop_last() =~= elements@.subrange(
                0,
                i as int,
            ));
            assert(elements@.subrange(0, i + 1 as int).last() == elements@[i as int]);
        }
        if !query::has_class(&elements[i], "faded") {
            n = n + 1;
        }
        i = i + 1;
    }
    proof {
        assert(elements@.subrange(0, elements@.len() as int) =~= elements@);
    }
    n
}

/// Upcoming matches for multiple days: an ordered mapping from day headline
/// to that day's matches, in document order.
#[derive(Debug)]
pub struct UpcomingMatches {
    pub results: Vec<(String, Vec<UpcomingMatch>)>,
}

impl UpcomingMatches {
    /// Whether the engine accepts the upcoming page's three fixed selectors
    /// and the match builder's own.
    pub open spec fn page_selectors_ok() -> bool {
        &&& query::sel_ok(".upcomingMatchesContainer>div>div.upcomingMatchesSection"@)
        &&& query::sel_ok(".matchDayHeadline"@)
        &&& query::sel_ok("div.upcomingMatch"@)
        &&& UpcomingMatch::selectors_ok()
    }

    /// The day sections of an upcoming-matches page, in document order.
    pub open spec fn sections_of(document: &scraper::Html) -> Seq<scraper::ElementRef<'_>> {
        query::doc_selected_of(
            document,
            query::sel_of(".upcomingMatchesContainer>div>div.upcomingMatchesSection"@),
        )
    }

    /// A day section's headline text, when one is found.
    pub open spec fn section_headline(section: scraper::ElementRef<'_>) -> Option<Seq<char>> {
        query::first_text_of(section, ".matchDayHeadline"@)
    }

    /// A day section's match elements, in document order.
    pub open spec fn section_members(section: scraper::ElementRef<'_>) -> Seq<
        scraper::ElementRef<'_>,
    > {
        query::selected_of(section, query::sel_of("div.upcomingMatch"@))
    }

    /// Whether a day section reads completely: it has a headline and every
    /// match element builds.
    pub open spec fn section_reads(section: scraper::ElementRef<'_>) -> bool {
        &&& Self::section_headline(section) is Some
        &&& forall|j: int|
            0 <= j < Self::section_members(section).len() ==> UpcomingMatch::query_ok(
                #[trigger] Self::section_members(section)[j],
            )
    }

    /// Whether every day section of the document reads completely.
    pub open spec fn all_sections_read(document: &scraper::Html) -> bool {
        forall|i: int|
            0 <= i < Self::sections_of(document).len() ==> Self::section_reads(
                #[trigger] Self::sections_of(document)[i],
            )
    }

    /// Whether `i` is the first day section, in document order, that does not
    /// read completely.
    pub open spec fn first_unread_section(document: &scraper::Html, i: int) -> bool {
        &&& 0 <= i < Self::sections_of(document).len()
        &&& !Self::section_reads(Self::sections_of(document)[i])
        &&& forall|k: int|
            0 <= k < i ==> Self::section_reads(#[trigger] Self::sections_of(document)[k])
    }

    /// Whether `j` is the first match element of the section that does not
    /// build.
    pub open spec fn first_unreadable_member(section: scraper::ElementRef<'_>, j: int) -> bool {
        &&& 0 <= j < Self::section_members(section).len()
        &&& !UpcomingMatch::query_ok(Self::section_members(section)[j])
        &&& forall|k: int|
            0 <= k < j ==> UpcomingMatch::query_ok(#[trigger] Self::section_members(section)[k])
    }

    /// Whether one assembled group carries a day section: its key is the
    /// section's headline and its records are the section's match elements,
    /// built in order.
    pub open spec fn group_reads(
        section: scraper::ElementRef<'_>,
        g: (String, Vec<UpcomingMatch>),
    ) -> bool {
        &&& Self::section_headline(section) matches Some(h) && g.0@ == h
        &&& g.1@.len() == Self::section_members(section).len()
        &&& forall|j: int|
            0 <= j < g.1@.len() ==> UpcomingMatch::query_post(
                Self::section_members(section)[j],
                Ok(#[trigger] g.1@[j]),
            )
    }

    /// The failure owed to the first unreadable day section: a missing
    /// headline is the named failure, and otherwise the first unbuildable
    /// match element's own failure is passed on unchanged.
    pub open spec fn section_failure(section: scraper::ElementRef<'_>, e: Error) -> bool {
        if Self::section_headline(section) is None {
            e matches Error::HltvParse(m) && m@ == "Failed to find match day headline"@
        } else {
            forall|j: int|
                Self::first_unreadable_member(section, j) ==> UpcomingMatch::query_post(
                    Self::section_members(section)[j],
                    Err::<UpcomingMatch, Error>(e),
                )
        }
    }

    /// What extracting the grouped matches from `document` must yield: with
    /// every day section reading completely, one group per section, keyed by
    /// its headline and holding its match elements in order; otherwise the
    /// first unreadable section, in document order, decides the failure.
    pub open spec fn from_html_post(
        document: &scraper::Html,
        r: Result<UpcomingMatches, Error>,
    ) -> bool {
        if Self::all_sections_read(document) {
            r matches Ok(m) && m.results@.len() == Self::sections_of(document).len() && forall|
                i: int,
            |
                0 <= i < m.results@.len() ==> Self::group_reads(
                    Self::sections_of(document)[i],
                    #[trigger] m.results@[i],
                )
        } else {
            r matches Err(e) && forall|i: int|
                Self::first_unread_section(document, i) ==> Self::section_failure(
                    Self::sections_of(document)[i],
                    e,
                )
        }
    }

    /// Whether the gathered section values carry the document's day sections:
    /// as many as the sections, each with the section's headline text and,
    /// when the match builder's selectors are accepted, with each match
    /// element's outcome in order.
    pub open spec fn section_gathered(
        section: scraper::ElementRef<'_>,
        s: Section<UpcomingMatch>,
    ) -> bool {
        &&& crate::opt_view(s.headline) == Self::section_headline(section)
        &&& s.members@.len() == Self::section_members(section).len()
        &&& UpcomingMatch::selectors_ok() ==> forall|j: int|
            0 <= j < s.members@.len() ==> UpcomingMatch::query_post(
                Self::section_members(section)[j],
                #[trigger] s.members@[j],
            )
        &&& UpcomingMatch::selectors_ok() ==> forall|j: int|
            0 <= j < s.members@.len() ==> ((#[trigger] s.members@[j]) is Ok
                <==> UpcomingMatch::query_ok(Self::section_members(section)[j]))
    }

    /// Whether `sections` are the document's day sections, read in order.
    pub open spec fn sections_gathered(
        document: &scraper::Html,
        sections: Seq<Section<UpcomingMatch>>,
    ) -> bool {
        &&& sections.len() == Self::sections_of(document).len()
        &&& forall|i: int|
            0 <= i < sections.len() ==> Self::section_gathered(
                Self::sections_of(document)[i],
                #[trigger] sections[i],
            )
    }

    proof fn lemma_reads_iff_ok(
        document: &scraper::Html,
        secs: Seq<Section<UpcomingMatch>>,
        i: int,
    )
        requires
            Self::page_selectors_ok(),
            Self::sections_gathered(document, secs),
            0 <= i < secs.len(),
        ensures
            crate::groups::section_ok(secs[i]) <==> Self::section_reads(
                Self::sections_of(document)[i],
            ),
    {
        let section = Self::sections_of(document)[i];
        assert(Self::section_gathered(section, secs[i]));
        if crate::groups::section_ok(secs[i]) {
            assert forall|j: int|
                0 <= j < Self::section_members(section).len() implies UpcomingMatch::query_ok(
                #[trigger] Self::section_members(section)[j],
            ) by {
                assert(secs[i].members@[j] is Ok);
            }
        } else {
            if secs[i].headline is Some {
                assert(!(forall|j: int|
                    0 <= j < secs[i].members@.len() ==> (#[trigger] secs[i].members@[j]) is Ok));
                let w = choose|j: int|
                    0 <= j < secs[i].members@.len() && !((#[trigger] secs[i].members@[j]) is Ok);
                assert(!UpcomingMatch::query_ok(Self::section_members(section)[w]));
                assert(!Self::section_reads(section));
            }
        }
    }

    proof fn lemma_bridge_ok(
        document: &scraper::Html,
        secs: Seq<Section<UpcomingMatch>>,
        g: Seq<(String, Vec<UpcomingMatch>)>,
    )
        requires
            Self::page_selectors_ok(),
            Self::sections_gathered(document, secs),
            crate::groups::all_sections_ok(secs),
            crate::groups::groups_match(secs, g),
        ensures
            Self::all_sections_read(document),
            g.len() == Self::sections_of(document).len(),
            forall|i: int|
                0 <= i < g.len() ==> Self::group_reads(
                    Self::sections_of(document)[i],
                    #[trigger] g[i],
                ),
    {
        assert forall|i: int|
            0 <= i < Self::sections_of(document).len() implies Self::section_reads(
            #[trigger] Self::sections_of(document)[i],
        ) by {
            assert(crate::groups::section_ok(secs[i]));
            Self::lemma_reads_iff_ok(document, secs, i);
        }
        assert forall|i: int| 0 <= i < g.len() implies Self::group_reads(
            Self::sections_of(document)[i],
            #[trigger] g[i],
        ) by {
            assert(crate::groups::group_matches(secs[i], g[i]));
            assert(crate::groups::section_ok(secs[i]));
            let section = Self::sections_of(document)[i];
            assert(Self::section_gathered(section, secs[i]));
            assert forall|j: int| 0 <= j < g[i].1@.len() implies UpcomingMatch::query_post(
                Self::section_members(section)[j],
                Ok(#[trigger] g[i].1@[j]),
            ) by {
                assert(secs[i].members@[j] is Ok);
                assert(g[i].1@[j] == secs[i].members@[j]->Ok_0);
                assert(secs[i].members@[j] == Ok::<UpcomingMatch, Error>(g[i].1@[j]));
                assert(UpcomingMatch::query_post(
                    Self::section_members(section)[j],
                    secs[i].members@[j],
                ));
            }
        }
    }

    proof fn lemma_bridge_err(document: &scraper::Html, secs: Seq<Section<UpcomingMatch>>, e: Error)
        requires
            Self::page_selectors_ok(),
            Self::sections_gathered(document, secs),
            crate::groups::assemble_post(
                secs,
                "Failed to find match day headline"@,
                Err::<Vec<(String, Vec<UpcomingMatch>)>, Error>(e),
            ),
        ensures
            !Self::all_sections_read(document),
            forall|i: int|
                Self::first_unread_section(document, i) ==> Self::section_failure(
                    #[trigger] Self::sections_of(document)[i],
                    e,
                ),
    {
        assert(!crate::groups::all_sections_ok(secs));
        let bad = choose|k: int|
            0 <= k < secs.len() && !crate::groups::section_ok(#[trigger] secs[k]);
        Self::lemma_reads_iff_ok(document, secs, bad);
        assert(!Self::section_reads(Self::sections_of(document)[bad]));
        assert forall|i: int| Self::first_unread_section(document, i) implies Self::section_failure(
            #[trigger] Self::sections_of(document)[i],
            e,
        ) by {
            let section = Self::sections_of(document)[i];
            assert(Self::section_gathered(section, secs[i]));
            assert(!crate::groups::section_ok(secs[i])) by {
                Self::lemma_reads_iff_ok(document, secs, i);
            }
            assert(crate::groups::first_bad_section(secs, i)) by {
                assert forall|k: int| 0 <= k < i implies crate::groups::section_ok(
                    #[trigger] secs[k],
                ) by {
                    Self::lemma_reads_iff_ok(document, secs, k);
                }
            }
            assert(crate::groups::bad_section_error(secs[i], "Failed to find match day headline"@, e));
            if Self::section_headline(section) is None {
                assert(secs[i].headline is None);
            } else {
                assert(secs[i].headline is Some);
                assert forall|j: int|
                    Self::first_unreadable_member(section, j) implies UpcomingMatch::query_post(
                    Self::section_members(section)[j],
                    Err::<UpcomingMatch, Error>(e),
                ) by {
                    assert(crate::groups::first_bad_member(secs[i].members@, j)) by {
                        assert(!(secs[i].members@[j] is Ok));
                        assert forall|k: int| 0 <= k < j implies (
                        #[trigger] secs[i].members@[k]) is Ok by {
                            assert(UpcomingMatch::query_ok(Self::section_members(section)[k]));
                        }
                    }
                    assert(e == secs[i].members@[j]->Err_0);
                    assert(secs[i].members@[j] == Err::<UpcomingMatch, Error>(e));
                    assert(UpcomingMatch::query_post(
                        Self::section_members(section)[j],
                        secs[i].members@[j],
                    ));
                }
            }
        }
    }

    /// Extract grouped upcoming matches: locate every day section, read its
    /// day headline and every match element, and assemble the groups in
    /// document order; the first day without a headline or with an unreadable
    /// match element decides the failure.
    pub fn from_html(document: &scraper::Html) -> (r: Result<UpcomingMatches, Error>)
        ensures
            r matches Err(e) ==> e is HltvParse || e is CssParse,
            Self::page_selectors_ok() ==> Self::from_html_post(document, r),
    {
        let sections = match upcoming_sections(document) {
            Ok(v) => v,
            Err(e) => {
                return Err(e);
            },
        };
        let ghost secs = sections@;
        match assemble_groups(sections, "Failed to find match day headline") {
            Ok(groups) => {
                proof {
                    if Self::page_selectors_ok() {
                        Self::lemma_bridge_ok(document, secs, groups@);
                    }
                }
                Ok(UpcomingMatches { results: groups })
            },
            Err(e) => {
                proof {
                    assert(e is HltvParse || e is CssParse) by {
                        crate::groups::lemma_error_kinds(secs, "Failed to find match day headline"@, e);
                    }
                    if Self::page_selectors_ok() {
                        Self::lemma_bridge_err(document, secs, e);
                    }
                }
                Err(e)
            },
        }
    }

    /// The matches of the given day headline, when that day is present; with
    /// a repeated headline the later group wins, as in a map built by
    /// repeated insertion.
    pub fn get(&self, day: &str) -> (r: Option<&Vec<UpcomingMatch>>)
        ensures
            r matches Some(v) ==> lookup(self.results@, day@) == Some(*v),
            r is None ==> lookup(self.results@, day@) is None,
    {
        lookup_group(&self.results, day)
    }
}

/// Locate the day sections of an upcoming-matches page and read each one's headline
/// and match elements, in document order.
fn upcoming_sections(document: &scraper::Html) -> (r: Result<Vec<Section<UpcomingMatch>>, Error>)
    ensures
        r matches Err(e) ==> e is CssParse,
        r is Err ==> !(query::sel_ok(".upcomingMatchesContainer>div>div.upcomingMatchesSection"@)
            && query::sel_ok(".matchDayHeadline"@) && query::sel_ok("div.upcomingMatch"@)),
        r matches Ok(sections) ==> UpcomingMatches::sections_gathered(document, sections@),
        r matches Ok(sections) ==> forall|i: int, j: int|
            0 <= i < sections@.len() && 0 <= j < sections@[i].members@.len() && (
            #[trigger] sections@[i].members@[j]) is Err ==> (sections@[i].members@[j]->Err_0
                is HltvParse || sections@[i].members@[j]->Err_0 is CssParse),
{
    let selector = match query::parse_selector(
        ".upcomingMatchesContainer>div>div.upcomingMatchesSection",
    ) {
        Ok(v) => v,
        Err(e) => {
            return Err(e);
        },
    };
    let elements = query::html_select_all(document, &selector);
    let mut sections: Vec<Section<UpcomingMatch>> = Vec::new();
    let mut i: usize = 0;
    while i < elements.len()
        invariant
            elements@ == UpcomingMatches::sections_of(document),
            0 <= i <= elements@.len(),
            sections@.len() == i,
            forall|k: int|
                0 <= k < i ==> UpcomingMatches::section_gathered(
                    UpcomingMatches::sections_of(document)[k],
                    #[trigger] sections@[k],
                ),
            forall|k: int, j: int|
                0 <= k < sections@.len() && 0 <= j < sections@[k].members@.len() && (
                #[trigger] sections@[k].members@[j]) is Err ==> (sections@[k].members@[j]->Err_0
                    is HltvParse || sections@[k].members@[j]->Err_0 is CssParse),
        decreases elements@.len() - i,
    {
        let ghost section_elem = elements@[i as int];
        let headline = match query::select_text(&elements[i], ".matchDayHeadline") {
            Ok(t) => t,
            Err(e) => {
                return Err(e);
            },
        };
        let member_selector = match query::parse_selector("div.upcomingMatch") {
            Ok(v) => v,
            Err(e) => {
                return Err(e);
            },
        };
        let member_elements = query::select_all(&elements[i], &member_selector);
        let mut members: Vec<Result<UpcomingMatch, Error>> = Vec::new();
        let mut j: usize = 0;
        while j < member_elements.len()
            invariant
                member_elements@ == UpcomingMatches::section_members(section_elem),
                0 <= j <= member_elements@.len(),
                members@.len() == j,
                forall|k: int|
                    0 <= k < members@.len() && (#[trigger] members@[k]) is Err ==> (
                    members@[k]->Err_0 is HltvParse || members@[k]->Err_0 is CssParse),
                UpcomingMatch::selectors_ok() ==> forall|k: int|
                    0 <= k < j ==> UpcomingMatch::query_post(
                        UpcomingMatches::section_members(section_elem)[k],
                        #[trigger] members@[k],
                    ),
                UpcomingMatch::selectors_ok() ==> forall|k: int|
                    0 <= k < j ==> ((#[trigger] members@[k]) is Ok <==> UpcomingMatch::query_ok(
                        UpcomingMatches::section_members(section_elem)[k],
                    )),
            decreases member_elements@.len() - j,
        {
            members.push(UpcomingMatch::from_element_ref(member_elements[j]));
            j = j + 1;
        }
        sections.push(Section { headline, members });
        i = i + 1;
    }
    Ok(sections)
}

} // verus!
