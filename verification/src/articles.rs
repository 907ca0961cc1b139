use vstd::prelude::*;

use crate::query;
use crate::{fails_with, hltv_parse_err, Error};

verus! {

/// A single news item: all four fields are required and carried verbatim.
#[derive(Debug, PartialEq)]
pub struct ArticleBrief {
    pub name: String,
    pub path: String,
    pub when: String,
    pub comments_num: String,
}

impl ArticleBrief {
    /// What assembling a brief from its four raw field values must yield: the
    /// first absent field, in the fixed order path, name, when, comments,
    /// decides the named failure; with all four present the record carries
    /// them verbatim.
    pub open spec fn from_parts_post(
        path: Option<String>,
        name: Option<String>,
        when: Option<String>,
        comments_num: Option<String>,
        r: Result<ArticleBrief, Error>,
    ) -> bool {
        match (path, name, when, comments_num) {
            (None, _, _, _) => fails_with(r, "Cannot find href for news brief"@),
            (Some(_), None, _, _) => fails_with(r, "Cannot find name for news brief"@),
            (Some(_), Some(_), None, _) => fails_with(r, "Cannot find 'when' for news brief"@),
            (Some(_), Some(_), Some(_), None) => fails_with(
                r,
                "Cannot find comments for news brief"@,
            ),
            (Some(p), Some(n), Some(w), Some(c)) => r == Ok::<ArticleBrief, Error>(
                ArticleBrief { name: n, path: p, when: w, comments_num: c },
            ),
        }
    }

    /// Assemble a brief from its raw field values, failing on the first
    /// absent required field in the fixed field order.
    pub fn from_parts(
        path: Option<String>,
        name: Option<String>,
        when: Option<String>,
        comments_num: Option<String>,
    ) -> (r: Result<ArticleBrief, Error>)
        ensures
            Self::from_parts_post(path, name, when, comments_num, r),
    {
        let path = match hltv_parse_err(path, "Cannot find href for news brief") {
            Ok(v) => v,
            Err(e) => {
                return Err(e);
            },
        };
        let name = match hltv_parse_err(name, "Cannot find name for news brief") {
            Ok(v) => v,
            Err(e) => {
                return Err(e);
            },
        };
        let when = match hltv_parse_err(when, "Cannot find 'when' for news brief") {
            Ok(v) => v,
            Err(e) => {
                return Err(e);
            },
        };
        let comments_num = match hltv_parse_err(comments_num, "Cannot find comments for news brief")
            {
            Ok(v) => v,
            Err(e) => {
                return Err(e);
            },
        };
        Ok(ArticleBrief { path, name, when, comments_num })
    }

    /// Whether the engine accepts this builder's three fixed selectors.
    pub open spec fn selectors_ok() -> bool {
        &&& query::sel_ok("div.newstext"@)
        &&& query::sel_ok("div.newstc>div.newsrecent"@)
        &&& query::sel_ok("div.newstc>div.newsrecent+div"@)
    }

    /// `from_parts_post` restated over the raw field values' views.
    pub open spec fn parts_post_view(
        path: Option<Seq<char>>,
        name: Option<Seq<char>>,
        when: Option<Seq<char>>,
        comments_num: Option<Seq<char>>,
        r: Result<ArticleBrief, Error>,
    ) -> bool {
        match (path, name, when, comments_num) {
            (None, _, _, _) => fails_with(r, "Cannot find href for news brief"@),
            (Some(_), None, _, _) => fails_with(r, "Cannot find name for news brief"@),
            (Some(_), Some(_), None, _) => fails_with(r, "Cannot find 'when' for news brief"@),
            (Some(_), Some(_), Some(_), None) => fails_with(
                r,
                "Cannot find comments for news brief"@,
            ),
            (Some(p), Some(n), Some(w), Some(c)) => r matches Ok(b) && b.path@ == p && b.name@ == n
                && b.when@ == w && b.comments_num@ == c,
        }
    }

    /// Whether the element holds all four required fields, so that building a
    /// brief from it succeeds.
    pub open spec fn query_ok(element: scraper::ElementRef<'_>) -> bool {
        &&& query::attr_value_of(element, "href"@) is Some
        &&& query::first_text_of(element, "div.newstext"@) is Some
        &&& query::first_text_of(element, "div.newstc>div.newsrecent"@) is Some
        &&& query::first_text_of(element, "div.newstc>div.newsrecent+div"@) is Some
    }

    /// What extracting a brief from `element` must yield: `from_parts_post`
    /// over the element's own `href` attribute and the texts of the first
    /// matches of the three fixed selectors.
    pub open spec fn query_post(
        element: scraper::ElementRef<'_>,
        r: Result<ArticleBrief, Error>,
    ) -> bool {
        Self::parts_post_view(
            query::attr_value_of(element, "href"@),
            query::first_text_of(element, "div.newstext"@),
            query::first_text_of(element, "div.newstc>div.newsrecent"@),
            query::first_text_of(element, "div.newstc>div.newsrecent+div"@),
            r,
        )
    }

    /// Extract a brief from one news-line element: the link path from the
    /// element's own `href` attribute, then name, "when" and comment-count
    /// texts from its sub-elements, in that order.
    pub fn from_element_ref(element: scraper::ElementRef<'_>) -> (r: Result<ArticleBrief, Error>)
        ensures
            r matches Err(e) ==> e is HltvParse || e is CssParse,
            Self::selectors_ok() ==> Self::query_post(element, r),
            Self::selectors_ok() ==> (r is Ok <==> Self::query_ok(element)),
    {
        let path = query::attr_of(&element, "href");
        let name = match query::select_text(&element, "div.newstext") {
            Ok(t) => t,
            Err(e) => {
                return Err(e);
            },
        };
        let when = match query::select_text(&element, "div.newstc>div.newsrecent") {
            Ok(t) => t,
            Err(e) => {
                return Err(e);
            },
        };
        let comments_num = match query::select_text(&element, "div.newstc>div.newsrecent+div") {
            Ok(t) => t,
            Err(e) => {
                return Err(e);
            },
        };
        Self::from_parts(path, name, when, comments_num)
    }
}

/// The views of a sequence of brief blocks.
pub open spec fn block_views(blocks: Seq<Vec<ArticleBrief>>) -> Seq<Seq<ArticleBrief>> {
    blocks.map_values(|b: Vec<ArticleBrief>| b@)
}

/// The concatenation of a sequence of blocks, in order.
pub open spec fn flat(blocks: Seq<Seq<ArticleBrief>>) -> Seq<ArticleBrief>
    decreases blocks.len(),
{
    if blocks.len() == 0 {
        Seq::empty()
    } else {
        blocks.first() + flat(blocks.drop_first())
    }
}

proof fn lemma_flat_push(blocks: Seq<Seq<ArticleBrief>>, b: Seq<ArticleBrief>)
    ensures
        flat(blocks.push(b)) =~= flat(blocks) + b,
    decreases blocks.len(),
{
    if blocks.len() == 0 {
        assert(blocks.push(b).drop_first() =~= Seq::<Seq<ArticleBrief>>::empty());
        assert(blocks.push(b).first() =~= b);
        assert(flat(Seq::<Seq<ArticleBrief>>::empty()) =~= Seq::<ArticleBrief>::empty());
        assert(flat(blocks.push(b)) =~= b + Seq::<ArticleBrief>::empty());
        assert(flat(blocks.push(b)) =~= flat(blocks) + b);
    } else {
        assert(blocks.push(b).drop_first() =~= blocks.drop_first().push(b));
        lemma_flat_push(blocks.drop_first(), b);
        assert(blocks.push(b).first() =~= blocks.first());
        assert(flat(blocks.push(b)) =~= blocks.first() + (flat(blocks.drop_first()) + b));
        assert(flat(blocks.push(b)) =~= flat(blocks) + b);
    }
}

/// The news briefs of a main page: the first located news block is today's,
/// the second is yesterday's, and all further blocks are flattened into
/// `older`, in document order.
#[derive(Debug)]
pub struct MainPageArticleBriefs {
    pub today: Vec<ArticleBrief>,
    pub yesterday: Vec<ArticleBrief>,
    pub older: Vec<ArticleBrief>,
}

impl MainPageArticleBriefs {
    /// What splitting the located blocks must yield: with no block located
    /// today's news is missing, with one block yesterday's is missing, and
    /// otherwise the first two blocks become `today` and `yesterday` while
    /// the rest are concatenated into `older`.
    pub open spec fn from_blocks_post(
        blocks: Seq<Vec<ArticleBrief>>,
        r: Result<MainPageArticleBriefs, Error>,
    ) -> bool {
        if blocks.len() == 0 {
            fails_with(r, "Not todays news"@)
        } else if blocks.len() == 1 {
            fails_with(r, "Not yesterdays news"@)
        } else {
            &&& r matches Ok(m)
            &&& m.today == blocks[0]
            &&& m.yesterday == blocks[1]
            &&& m.older@ =~= flat(block_views(blocks.skip(2)))
        }
    }

    /// Split the located news blocks into today's, yesterday's and older
    /// news.
    pub fn from_blocks(blocks: Vec<Vec<ArticleBrief>>) -> (r: Result<MainPageArticleBriefs, Error>)
        ensures
            Self::from_blocks_post(blocks@, r),
    {
        let ghost orig = blocks@;
        let mut rest = blocks;
        if rest.len() == 0 {
            return Err(Error::HltvParse("Not todays news".to_owned()));
        }
        let today = rest.remove(0);
        if rest.len() == 0 {
            return Err(Error::HltvParse("Not yesterdays news".to_owned()));
        }
        let yesterday = rest.remove(0);
        assert(rest@ =~= orig.skip(2));
        let mut older: Vec<ArticleBrief> = Vec::new();
        let ghost done: int = 0;
        while rest.len() > 0
            invariant
                0 <= done <= orig.skip(2).len(),
                rest@ =~= orig.skip(2).skip(done),
                older@ =~= flat(block_views(orig.skip(2).subrange(0, done))),
            decreases rest@.len(),
        {
            let mut block = rest.remove(0);
            proof {
                assert(block_views(orig.skip(2).subrange(0, done + 1)) =~= block_views(
                    orig.skip(2).subrange(0, done),
                ).push(block@));
                lemma_flat_push(block_views(orig.skip(2).subrange(0, done)), block@);
                assert(orig.skip(2).skip(done).drop_first() =~= orig.skip(2).skip(done + 1));
            }
            older.append(&mut block);
            proof {
                done = done + 1;
            }
        }
        proof {
            assert(orig.skip(2).subrange(0, done) =~= orig.skip(2));
        }
        Ok(MainPageArticleBriefs { today, yesterday, older })
    }

    /// What extracting the main page's news briefs from `document` must
    /// yield: with every news line of every block building, the first two
    /// blocks become today's and yesterday's news and the remainder is
    /// flattened into `older`, each brief read from its line; otherwise the
    /// first unreadable news line, in document order, decides the failure,
    /// and no partial aggregate is returned.
    pub open spec fn from_html_post(
        document: &scraper::Html,
        r: Result<MainPageArticleBriefs, Error>,
    ) -> bool {
        if !all_blocks_read(document) {
            r matches Err(e) && forall|i: int|
                first_unread_block(document, i) ==> block_failure(
                    #[trigger] blocks_of(document)[i],
                    e,
                )
        } else if blocks_of(document).len() == 0 {
            fails_with(r, "Not todays news"@)
        } else if blocks_of(document).len() == 1 {
            fails_with(r, "Not yesterdays news"@)
        } else {
            &&& r matches Ok(m)
            &&& briefs_read(blocks_of(document)[0], m.today@)
            &&& briefs_read(blocks_of(document)[1], m.yesterday@)
            &&& older_reads(document, m.older@)
        }
    }

    /// Extract the main page's news briefs: locate every news block (a news
    /// headline followed by a standard box), read each block's news lines as
    /// briefs, and split the blocks into today's, yesterday's and older news.
    pub fn from_html(document: &scraper::Html) -> (r: Result<MainPageArticleBriefs, Error>)
        ensures
            r matches Err(e) ==> e is HltvParse || e is CssParse,
            page_selectors_ok() ==> Self::from_html_post(document, r),
    {
        let raw = match news_blocks_raw(document) {
            Ok(v) => v,
            Err(e) => {
                return Err(e);
            },
        };
        let ghost rawg = raw@;
        let blocks = match collect_blocks(raw) {
            Ok(b) => b,
            Err(e) => {
                proof {
                    lemma_collect_err_kinds(rawg, e);
                    if page_selectors_ok() {
                        lemma_articles_bridge_err(document, rawg, e);
                    }
                }
                return Err(e);
            },
        };
        let ghost bsg = blocks@;
        let r = Self::from_blocks(blocks);
        proof {
            if page_selectors_ok() {
                lemma_articles_bridge_ok(document, rawg, bsg, r);
            }
        }
        r
    }
}

/// Whether the engine accepts the news pages' two fixed selectors and the
/// brief builder's own.
pub open spec fn page_selectors_ok() -> bool {
    &&& query::sel_ok("h2.newsheader+div.standard-box"@)
    &&& query::sel_ok("a"@)
    &&& ArticleBrief::selectors_ok()
}

/// The news blocks of a page, in document order.
pub open spec fn blocks_of(document: &scraper::Html) -> Seq<scraper::ElementRef<'_>> {
    query::doc_selected_of(document, query::sel_of("h2.newsheader+div.standard-box"@))
}

/// A news block's news-line elements, in document order.
pub open spec fn block_lines(block: scraper::ElementRef<'_>) -> Seq<scraper::ElementRef<'_>> {
    query::selected_of(block, query::sel_of("a"@))
}

/// Whether every news line of the block builds as a brief.
pub open spec fn block_reads(block: scraper::ElementRef<'_>) -> bool {
    forall|j: int|
        0 <= j < block_lines(block).len() ==> ArticleBrief::query_ok(
            #[trigger] block_lines(block)[j],
        )
}

/// Whether every news line of every block of the document builds.
pub open spec fn all_blocks_read(document: &scraper::Html) -> bool {
    forall|i: int|
        0 <= i < blocks_of(document).len() ==> block_reads(#[trigger] blocks_of(document)[i])
}

/// Whether `i` is the first block, in document order, with an unreadable
/// news line.
pub open spec fn first_unread_block(document: &scraper::Html, i: int) -> bool {
    &&& 0 <= i < blocks_of(document).len()
    &&& !block_reads(blocks_of(document)[i])
    &&& forall|k: int| 0 <= k < i ==> block_reads(#[trigger] blocks_of(document)[k])
}

/// Whether `j` is the first news line of the block that does not build.
pub open spec fn first_unreadable_line(block: scraper::ElementRef<'_>, j: int) -> bool {
    &&& 0 <= j < block_lines(block).len()
    &&& !ArticleBrief::query_ok(block_lines(block)[j])
    &&& forall|k: int| 0 <= k < j ==> ArticleBrief::query_ok(#[trigger] block_lines(block)[k])
}

/// The failure owed to a block's first unreadable news line: that line's own
/// failure, passed on unchanged.
pub open spec fn block_failure(block: scraper::ElementRef<'_>, e: Error) -> bool {
    forall|j: int|
        first_unreadable_line(block, j) ==> ArticleBrief::query_post(
            block_lines(block)[j],
            Err::<ArticleBrief, Error>(e),
        )
}

/// Whether `briefs` are exactly the block's news lines, built in order.
pub open spec fn briefs_read(block: scraper::ElementRef<'_>, briefs: Seq<ArticleBrief>) -> bool {
    &&& briefs.len() == block_lines(block).len()
    &&& forall|j: int|
        0 <= j < briefs.len() ==> ArticleBrief::query_post(
            block_lines(block)[j],
            Ok(#[trigger] briefs[j]),
        )
}

/// The news lines of the blocks from position `i` on, flattened in document
/// order.
pub open spec fn tail_lines(document: &scraper::Html, i: int) -> Seq<scraper::ElementRef<'_>>
    decreases blocks_of(document).len() - i,
{
    if i < 0 || i >= blocks_of(document).len() {
        Seq::empty()
    } else {
        block_lines(blocks_of(document)[i]) + tail_lines(document, i + 1)
    }
}

/// Whether `older` holds exactly the news lines of every block after the
/// second, flattened and built in document order.
pub open spec fn older_reads(document: &scraper::Html, older: Seq<ArticleBrief>) -> bool {
    &&& older.len() == tail_lines(document, 2).len()
    &&& forall|j: int|
        0 <= j < older.len() ==> ArticleBrief::query_post(
            tail_lines(document, 2)[j],
            Ok(#[trigger] older[j]),
        )
}

/// Whether the gathered outcomes carry one news block: one outcome per news
/// line, of the two page-reading failure kinds on failure and, when the
/// brief builder's selectors are accepted, pinned by the line's query
/// results.
pub open spec fn block_gathered(
    block: scraper::ElementRef<'_>,
    outcomes: Vec<Result<ArticleBrief, Error>>,
) -> bool {
    &&& outcomes@.len() == block_lines(block).len()
    &&& forall|j: int|
        0 <= j < outcomes@.len() && (#[trigger] outcomes@[j]) is Err ==> (outcomes@[j]->Err_0
            is HltvParse || outcomes@[j]->Err_0 is CssParse)
    &&& ArticleBrief::selectors_ok() ==> forall|j: int|
        0 <= j < outcomes@.len() ==> ArticleBrief::query_post(
            block_lines(block)[j],
            #[trigger] outcomes@[j],
        )
    &&& ArticleBrief::selectors_ok() ==> forall|j: int|
        0 <= j < outcomes@.len() ==> ((#[trigger] outcomes@[j]) is Ok <==> ArticleBrief::query_ok(
            block_lines(block)[j],
        ))
}

/// Whether `raw` carries the document's news blocks, read in order.
pub open spec fn blocks_gathered(
    document: &scraper::Html,
    raw: Seq<Vec<Result<ArticleBrief, Error>>>,
) -> bool {
    &&& raw.len() == blocks_of(document).len()
    &&& forall|i: int|
        0 <= i < raw.len() ==> block_gathered(blocks_of(document)[i], #[trigger] raw[i])
}

/// Locate every news block of `document` and build a brief from each of its
/// news-line elements, keeping every outcome in document order.
fn news_blocks_raw(document: &scraper::Html) -> (r: Result<
    Vec<Vec<Result<ArticleBrief, Error>>>,
    Error,
>)
    ensures
        r matches Err(e) ==> e is CssParse,
        r is Err ==> !(query::sel_ok("h2.newsheader+div.standard-box"@) && query::sel_ok("a"@)),
        r matches Ok(raw) ==> blocks_gathered(document, raw@),
{
    let selector = match query::parse_selector("h2.newsheader+div.standard-box") {
        Ok(s) => s,
        Err(e) => {
            return Err(e);
        },
    };
    let a_selector = match query::parse_selector("a") {
        Ok(s) => s,
        Err(e) => {
            return Err(e);
        },
    };
    let elements = query::html_select_all(document, &selector);
    let mut raw: Vec<Vec<Result<ArticleBrief, Error>>> = Vec::new();
    let mut i: usize = 0;
    while i < elements.len()
        invariant
            elements@ == blocks_of(document),
            query::sel_of("a"@) == a_selector,
            query::sel_ok("a"@),
            0 <= i <= elements@.len(),
            raw@.len() == i,
            forall|k: int|
                0 <= k < i ==> block_gathered(blocks_of(document)[k], #[trigger] raw@[k]),
        decreases elements@.len() - i,
    {
        let ghost block_elem = elements@[i as int];
        let lines = query::select_all(&elements[i], &a_selector);
        let mut outcomes: Vec<Result<ArticleBrief, Error>> = Vec::new();
        let mut j: usize = 0;
        while j < lines.len()
            invariant
                lines@ == block_lines(block_elem),
                0 <= j <= lines@.len(),
                outcomes@.len() == j,
                forall|k: int|
                    0 <= k < outcomes@.len() && (#[trigger] outcomes@[k]) is Err ==> (
                    outcomes@[k]->Err_0 is HltvParse || outcomes@[k]->Err_0 is CssParse),
                ArticleBrief::selectors_ok() ==> forall|k: int|
                    0 <= k < j ==> ArticleBrief::query_post(
                        block_lines(block_elem)[k],
                        #[trigger] outcomes@[k],
                    ),
                ArticleBrief::selectors_ok() ==> forall|k: int|
                    0 <= k < j ==> ((#[trigger] outcomes@[k]) is Ok <==> ArticleBrief::query_ok(
                        block_lines(block_elem)[k],
                    )),
            decreases lines@.len() - j,
        {
            outcomes.push(ArticleBrief::from_element_ref(lines[j]));
            j = j + 1;
        }
        raw.push(outcomes);
        i = i + 1;
    }
    Ok(raw)
}

/// Whether every outcome of one gathered block is a built brief.
pub open spec fn raw_block_ok(outcomes: Vec<Result<ArticleBrief, Error>>) -> bool {
    forall|j: int| 0 <= j < outcomes@.len() ==> (#[trigger] outcomes@[j]) is Ok
}

/// Whether every outcome of every gathered block is a built brief.
pub open spec fn all_raw_ok(raw: Seq<Vec<Result<ArticleBrief, Error>>>) -> bool {
    forall|i: int| 0 <= i < raw.len() ==> raw_block_ok(#[trigger] raw[i])
}

/// Whether `i` is the first gathered block holding a failure.
pub open spec fn first_bad_raw(raw: Seq<Vec<Result<ArticleBrief, Error>>>, i: int) -> bool {
    &&& 0 <= i < raw.len()
    &&& !raw_block_ok(raw[i])
    &&& forall|k: int| 0 <= k < i ==> raw_block_ok(#[trigger] raw[k])
}

/// The failure owed to a gathered block: its first failed outcome, passed on
/// unchanged.
pub open spec fn raw_block_error(outcomes: Vec<Result<ArticleBrief, Error>>, e: Error) -> bool {
    forall|j: int|
        crate::groups::first_bad_member(outcomes@, j) ==> e == outcomes@[j]->Err_0
}

/// Whether `b` holds one gathered block's briefs, in order.
pub open spec fn block_collected(
    outcomes: Vec<Result<ArticleBrief, Error>>,
    b: Vec<ArticleBrief>,
) -> bool {
    &&& b@.len() == outcomes@.len()
    &&& forall|j: int| 0 <= j < b@.len() ==> #[trigger] b@[j] == outcomes@[j]->Ok_0
}

/// What collecting the gathered outcomes must yield: with every outcome
/// built, the blocks of briefs one to one, in order; otherwise the first
/// failed outcome, in document order, is passed on unchanged.
pub open spec fn collect_post(
    raw: Seq<Vec<Result<ArticleBrief, Error>>>,
    r: Result<Vec<Vec<ArticleBrief>>, Error>,
) -> bool {
    if all_raw_ok(raw) {
        r matches Ok(bs) && bs@.len() == raw.len() && forall|i: int|
            0 <= i < bs@.len() ==> block_collected(raw[i], #[trigger] bs@[i])
    } else {
        r matches Err(e) && forall|i: int| first_bad_raw(raw, i) ==> raw_block_error(raw[i], e)
    }
}

/// Collect the gathered outcomes into blocks of briefs, aborting on the
/// first news line that failed to build, in document order.
fn collect_blocks(raw: Vec<Vec<Result<ArticleBrief, Error>>>) -> (r: Result<
    Vec<Vec<ArticleBrief>>,
    Error,
>)
    ensures
        collect_post(raw@, r),
{
    let ghost orig = raw@;
    let mut rest = raw;
    let mut blocks: Vec<Vec<ArticleBrief>> = Vec::new();
    let ghost mut i: int = 0;
    while rest.len() > 0
        invariant
            orig == raw@,
            0 <= i <= orig.len(),
            blocks@.len() == i,
            rest@ =~= orig.skip(i),
            forall|k: int| 0 <= k < i ==> raw_block_ok(#[trigger] orig[k]),
            forall|k: int| 0 <= k < i ==> block_collected(orig[k], #[trigger] blocks@[k]),
        decreases rest@.len(),
    {
        let block = rest.remove(0);
        let ghost blk = block;
        proof {
            assert(blk == orig[i]);
            assert(rest@ =~= orig.skip(i + 1));
        }
        let mut outcomes = block;
        let ghost all = blk@;
        let mut briefs: Vec<ArticleBrief> = Vec::new();
        let ghost mut j: int = 0;
        while outcomes.len() > 0
            invariant
                orig == raw@,
                0 <= i < orig.len(),
                blk == orig[i],
                all == blk@,
                forall|k: int| 0 <= k < i ==> raw_block_ok(#[trigger] orig[k]),
                0 <= j <= all.len(),
                briefs@.len() == j,
                outcomes@ =~= all.skip(j),
                forall|k: int| 0 <= k < j ==> (#[trigger] all[k]) is Ok,
                forall|k: int| 0 <= k < j ==> #[trigger] briefs@[k] == all[k]->Ok_0,
            decreases outcomes@.len(),
        {
            let outcome = outcomes.remove(0);
            proof {
                assert(outcome == all[j]);
                assert(outcomes@ =~= all.skip(j + 1));
            }
            match outcome {
                Ok(b) => {
                    briefs.push(b);
                },
                Err(e) => {
                    proof {
                        assert(!raw_block_ok(orig[i]));
                        assert(!all_raw_ok(orig));
                        assert(forall|k: int| first_bad_raw(orig, k) ==> k == i);
                        assert(forall|k: int|
                            crate::groups::first_bad_member(all, k) ==> k == j);
                    }
                    return Err(e);
                },
            }
            proof {
                j = j + 1;
            }
        }
        proof {
            assert(all.skip(j).len() == 0);
            assert(j == all.len());
            assert(raw_block_ok(orig[i]));
            assert(block_collected(orig[i], briefs));
        }
        blocks.push(briefs);
        proof {
            i = i + 1;
        }
    }
    proof {
        assert(orig.skip(i).len() == 0);
        assert(i == orig.len());
    }
    Ok(blocks)
}

/// The index of the first gathered block holding a failure.
spec fn first_bad_raw_idx(raw: Seq<Vec<Result<ArticleBrief, Error>>>) -> int
    decreases raw.len(),
{
    if raw.len() == 0 {
        0
    } else if !raw_block_ok(raw.first()) {
        0
    } else {
        1 + first_bad_raw_idx(raw.drop_first())
    }
}

/// When not every outcome built, a first failed block exists.
proof fn lemma_first_bad_raw_exists(raw: Seq<Vec<Result<ArticleBrief, Error>>>)
    requires
        !all_raw_ok(raw),
    ensures
        first_bad_raw(raw, first_bad_raw_idx(raw)),
    decreases raw.len(),
{
    let i = first_bad_raw_idx(raw);
    if raw.len() == 0 {
    } else if !raw_block_ok(raw.first()) {
    } else {
        assert(!all_raw_ok(raw.drop_first())) by {
            let w = choose|k: int| 0 <= k < raw.len() && !raw_block_ok(#[trigger] raw[k]);
            assert(raw.drop_first()[w - 1] == raw[w]);
        }
        lemma_first_bad_raw_exists(raw.drop_first());
        assert(forall|k: int| 0 <= k < i ==> raw_block_ok(#[trigger] raw[k])) by {
            assert(forall|k: int| 1 <= k < i ==> #[trigger] raw[k] == raw.drop_first()[k - 1]);
        }
    }
}

/// When collecting fails and every gathered failure is of the two
/// page-reading kinds, the passed-on failure is of those kinds too.
proof fn lemma_collect_err_kinds(raw: Seq<Vec<Result<ArticleBrief, Error>>>, e: Error)
    requires
        collect_post(raw, Err::<Vec<Vec<ArticleBrief>>, Error>(e)),
        forall|i: int, j: int|
            0 <= i < raw.len() && 0 <= j < raw[i]@.len() && (#[trigger] raw[i]@[j]) is Err ==> (
            raw[i]@[j]->Err_0 is HltvParse || raw[i]@[j]->Err_0 is CssParse),
    ensures
        e is HltvParse || e is CssParse,
{
    assert(!all_raw_ok(raw));
    lemma_first_bad_raw_exists(raw);
    let i = first_bad_raw_idx(raw);
    assert(exists|j: int| 0 <= j < raw[i]@.len() && raw[i]@[j] is Err);
    crate::groups::lemma_first_bad_member_exists(raw[i]@);
    let j = crate::groups::first_bad_member_idx(raw[i]@);
    assert(e == raw[i]@[j]->Err_0);
}

/// A gathered block reads fully exactly when its block of the document does.
proof fn lemma_block_reads_iff(
    document: &scraper::Html,
    raw: Seq<Vec<Result<ArticleBrief, Error>>>,
    i: int,
)
    requires
        page_selectors_ok(),
        blocks_gathered(document, raw),
        0 <= i < raw.len(),
    ensures
        raw_block_ok(raw[i]) <==> block_reads(blocks_of(document)[i]),
{
    let block = blocks_of(document)[i];
    assert(block_gathered(block, raw[i]));
    if raw_block_ok(raw[i]) {
        assert forall|j: int|
            0 <= j < block_lines(block).len() implies ArticleBrief::query_ok(
            #[trigger] block_lines(block)[j],
        ) by {
            assert(raw[i]@[j] is Ok);
        }
    } else {
        let w = choose|j: int| 0 <= j < raw[i]@.len() && !((#[trigger] raw[i]@[j]) is Ok);
        assert(!ArticleBrief::query_ok(block_lines(block)[w]));
        assert(!block_reads(block));
    }
}

/// A failed collection of the gathered blocks is owed to the document's
/// first unreadable news line.
proof fn lemma_articles_bridge_err(
    document: &scraper::Html,
    raw: Seq<Vec<Result<ArticleBrief, Error>>>,
    e: Error,
)
    requires
        page_selectors_ok(),
        blocks_gathered(document, raw),
        collect_post(raw, Err::<Vec<Vec<ArticleBrief>>, Error>(e)),
    ensures
        !all_blocks_read(document),
        forall|i: int|
            first_unread_block(document, i) ==> block_failure(#[trigger] blocks_of(document)[i], e),
{
    assert(!all_raw_ok(raw));
    let bad = choose|k: int| 0 <= k < raw.len() && !raw_block_ok(#[trigger] raw[k]);
    lemma_block_reads_iff(document, raw, bad);
    assert(!block_reads(blocks_of(document)[bad]));
    assert forall|i: int| first_unread_block(document, i) implies block_failure(
        #[trigger] blocks_of(document)[i],
        e,
    ) by {
        let block = blocks_of(document)[i];
        assert(block_gathered(block, raw[i]));
        assert(!raw_block_ok(raw[i])) by {
            lemma_block_reads_iff(document, raw, i);
        }
        assert(first_bad_raw(raw, i)) by {
            assert forall|k: int| 0 <= k < i implies raw_block_ok(#[trigger] raw[k]) by {
                lemma_block_reads_iff(document, raw, k);
            }
        }
        assert(raw_block_error(raw[i], e));
        assert forall|j: int|
            first_unreadable_line(block, j) implies ArticleBrief::query_post(
            block_lines(block)[j],
            Err::<ArticleBrief, Error>(e),
        ) by {
            assert(crate::groups::first_bad_member(raw[i]@, j)) by {
                assert(!(raw[i]@[j] is Ok));
                assert forall|k: int| 0 <= k < j implies (#[trigger] raw[i]@[k]) is Ok by {
                    assert(ArticleBrief::query_ok(block_lines(block)[k]));
                }
            }
            assert(e == raw[i]@[j]->Err_0);
            assert(raw[i]@[j] == Err::<ArticleBrief, Error>(e));
            assert(ArticleBrief::query_post(block_lines(block)[j], raw[i]@[j]));
        }
    }
}

/// The flattened remainder blocks correspond to the document's remaining
/// news lines, pointwise and in order.
proof fn lemma_older_reads(document: &scraper::Html, bs: Seq<Vec<ArticleBrief>>, i: int)
    requires
        bs.len() == blocks_of(document).len(),
        forall|b: int|
            0 <= b < bs.len() ==> briefs_read(blocks_of(document)[b], (#[trigger] bs[b])@),
        0 <= i <= bs.len(),
    ensures
        flat(block_views(bs.skip(i))).len() == tail_lines(document, i).len(),
        forall|k: int|
            0 <= k < tail_lines(document, i).len() ==> ArticleBrief::query_post(
                tail_lines(document, i)[k],
                Ok(#[trigger] flat(block_views(bs.skip(i)))[k]),
            ),
    decreases bs.len() - i,
{
    if i == bs.len() {
        assert(bs.skip(i) =~= Seq::<Vec<ArticleBrief>>::empty());
        assert(block_views(bs.skip(i)) =~= Seq::<Seq<ArticleBrief>>::empty());
        assert(flat(block_views(bs.skip(i))) =~= Seq::<ArticleBrief>::empty());
    } else {
        lemma_older_reads(document, bs, i + 1);
        let head = bs[i]@;
        let rest = flat(block_views(bs.skip(i + 1)));
        assert(block_views(bs.skip(i)).first() == head);
        assert(block_views(bs.skip(i)).drop_first() =~= block_views(bs.skip(i + 1)));
        assert(flat(block_views(bs.skip(i))) == head + rest);
        let lines = block_lines(blocks_of(document)[i]);
        assert(tail_lines(document, i) == lines + tail_lines(document, i + 1));
        assert(briefs_read(blocks_of(document)[i], head));
        assert(head.len() == lines.len());
        assert forall|k: int|
            0 <= k < tail_lines(document, i).len() implies ArticleBrief::query_post(
            tail_lines(document, i)[k],
            Ok(#[trigger] flat(block_views(bs.skip(i)))[k]),
        ) by {
            if k < head.len() {
                assert(tail_lines(document, i)[k] == lines[k]);
                assert(flat(block_views(bs.skip(i)))[k] == head[k]);
            } else {
                assert(tail_lines(document, i)[k] == tail_lines(document, i + 1)[k - head.len()]);
                assert(flat(block_views(bs.skip(i)))[k] == rest[k - head.len()]);
            }
        }
    }
}

/// A successful split of the collected blocks meets the main page's
/// document-level contract.
proof fn lemma_articles_bridge_ok(
    document: &scraper::Html,
    raw: Seq<Vec<Result<ArticleBrief, Error>>>,
    bs: Seq<Vec<ArticleBrief>>,
    r: Result<MainPageArticleBriefs, Error>,
)
    requires
        page_selectors_ok(),
        blocks_gathered(document, raw),
        all_raw_ok(raw),
        bs.len() == raw.len(),
        forall|i: int| 0 <= i < bs.len() ==> block_collected(raw[i], #[trigger] bs[i]),
        MainPageArticleBriefs::from_blocks_post(bs, r),
    ensures
        MainPageArticleBriefs::from_html_post(document, r),
{
    assert forall|i: int|
        0 <= i < blocks_of(document).len() implies block_reads(
        #[trigger] blocks_of(document)[i],
    ) by {
        assert(raw_block_ok(raw[i]));
        lemma_block_reads_iff(document, raw, i);
    }
    assert forall|b: int| 0 <= b < bs.len() implies briefs_read(
        blocks_of(document)[b],
        (#[trigger] bs[b])@,
    ) by {
        let block = blocks_of(document)[b];
        assert(block_gathered(block, raw[b]));
        assert(block_collected(raw[b], bs[b]));
        assert forall|j: int| 0 <= j < bs[b]@.len() implies ArticleBrief::query_post(
            block_lines(block)[j],
            Ok(#[trigger] bs[b]@[j]),
        ) by {
            assert(raw_block_ok(raw[b]));
            assert(raw[b]@[j] is Ok);
            assert(bs[b]@[j] == raw[b]@[j]->Ok_0);
            assert(raw[b]@[j] == Ok::<ArticleBrief, Error>(bs[b]@[j]));
            assert(ArticleBrief::query_post(block_lines(block)[j], raw[b]@[j]));
        }
    }
    if bs.len() >= 2 {
        let m = r->Ok_0;
        assert(m.today@ == bs[0]@);
        assert(m.yesterday@ == bs[1]@);
        lemma_older_reads(document, bs, 2);
        assert(m.older@ =~= flat(block_views(bs.skip(2))));
        assert(older_reads(document, m.older@));
    }
}

/// What taking the first located block must yield: the first block verbatim,
/// or the named failure when none was located.
pub open spec fn archived_first_block_post(
    blocks: Seq<Vec<ArticleBrief>>,
    r: Result<Vec<ArticleBrief>, Error>,
) -> bool {
    if blocks.len() == 0 {
        fails_with(r, "Not archived news"@)
    } else {
        r matches Ok(b) && b == blocks[0]
    }
}

/// Take the first of the located news blocks; an archive page holds exactly
/// one block of interest.
pub fn archived_first_block(blocks: Vec<Vec<ArticleBrief>>) -> (r: Result<Vec<ArticleBrief>, Error>)
    ensures
        archived_first_block_post(blocks@, r),
{
    let mut rest = blocks;
    if rest.len() == 0 {
        return Err(Error::HltvParse("Not archived news".to_owned()));
    }
    Ok(rest.remove(0))
}

/// What extracting an archive page's briefs from `document` must yield: with
/// every news line of every block building, the briefs of the first block,
/// read in order (later blocks contribute nothing, though an unreadable line
/// in one still aborts the call); with no block located, the named failure;
/// otherwise the first unreadable news line, in document order, decides the
/// failure.
pub open spec fn archived_from_html_post(
    document: &scraper::Html,
    r: Result<Vec<ArticleBrief>, Error>,
) -> bool {
    if !all_blocks_read(document) {
        r matches Err(e) && forall|i: int|
            first_unread_block(document, i) ==> block_failure(#[trigger] blocks_of(document)[i], e)
    } else if blocks_of(document).len() == 0 {
        fails_with(r, "Not archived news"@)
    } else {
        r matches Ok(briefs) && briefs_read(blocks_of(document)[0], briefs@)
    }
}

/// A successful first-block take of the collected blocks meets the archive
/// page's document-level contract.
proof fn lemma_archived_bridge_ok(
    document: &scraper::Html,
    raw: Seq<Vec<Result<ArticleBrief, Error>>>,
    bs: Seq<Vec<ArticleBrief>>,
    r: Result<Vec<ArticleBrief>, Error>,
)
    requires
        page_selectors_ok(),
        blocks_gathered(document, raw),
        all_raw_ok(raw),
        bs.len() == raw.len(),
        forall|i: int| 0 <= i < bs.len() ==> block_collected(raw[i], #[trigger] bs[i]),
        archived_first_block_post(bs, r),
    ensures
        archived_from_html_post(document, r),
{
    assert forall|i: int|
        0 <= i < blocks_of(document).len() implies block_reads(
        #[trigger] blocks_of(document)[i],
    ) by {
        assert(raw_block_ok(raw[i]));
        lemma_block_reads_iff(document, raw, i);
    }
    if bs.len() >= 1 {
        let block = blocks_of(document)[0];
        assert(block_gathered(block, raw[0]));
        assert(block_collected(raw[0], bs[0]));
        let briefs = r->Ok_0;
        assert(briefs == bs[0]);
        assert forall|j: int| 0 <= j < briefs@.len() implies ArticleBrief::query_post(
            block_lines(block)[j],
            Ok(#[trigger] briefs@[j]),
        ) by {
            assert(raw_block_ok(raw[0]));
            assert(raw[0]@[j] is Ok);
            assert(briefs@[j] == raw[0]@[j]->Ok_0);
            assert(raw[0]@[j] == Ok::<ArticleBrief, Error>(briefs@[j]));
            assert(ArticleBrief::query_post(block_lines(block)[j], raw[0]@[j]));
        }
        assert(briefs_read(block, briefs@));
    }
}

/// Extract an archive page's news briefs: locate the news blocks as on the
/// main page and return the briefs of the first one.
pub fn archived_article_briefs_from_html(document: &scraper::Html) -> (r: Result<
    Vec<ArticleBrief>,
    Error,
>)
    ensures
        r matches Err(e) ==> e is HltvParse || e is CssParse,
        page_selectors_ok() ==> archived_from_html_post(document, r),
{
    let raw = match news_blocks_raw(document) {
        Ok(v) => v,
        Err(e) => {
            return Err(e);
        },
    };
    let ghost rawg = raw@;
    let blocks = match collect_blocks(raw) {
        Ok(b) => b,
        Err(e) => {
            proof {
                lemma_collect_err_kinds(rawg, e);
                if page_selectors_ok() {
                    lemma_articles_bridge_err(document, rawg, e);
                }
            }
            return Err(e);
        },
    };
    let ghost bsg = blocks@;
    let r = archived_first_block(blocks);
    proof {
        if page_selectors_ok() {
            lemma_archived_bridge_ok(document, rawg, bsg, r);
        }
    }
    r
}

/// Law: splitting the same located blocks twice yields value-equal
/// aggregates — the main-page assembly has no hidden state; two results of
/// `MainPageArticleBriefs::from_blocks` on one input agree on every field,
/// and failures agree on the message text.
pub proof fn lemma_from_blocks_functional(
    blocks: Seq<Vec<ArticleBrief>>,
    r1: Result<MainPageArticleBriefs, Error>,
    r2: Result<MainPageArticleBriefs, Error>,
)
    requires
        MainPageArticleBriefs::from_blocks_post(blocks, r1),
        MainPageArticleBriefs::from_blocks_post(blocks, r2),
    ensures
        r1 matches Ok(m1) ==> (r2 matches Ok(m2) && m1.today == m2.today && m1.yesterday
            == m2.yesterday && m1.older@ == m2.older@),
        r1 matches Err(e1) ==> (r2 matches Err(e2) && e1 is HltvParse && e2 is HltvParse
            && e1->HltvParse_0@ == e2->HltvParse_0@),
{
}

/// Law: taking the first block from the same located blocks twice yields
/// value-equal results — the archive assembly has no hidden state.
pub proof fn lemma_archived_first_block_functional(
    blocks: Seq<Vec<ArticleBrief>>,
    r1: Result<Vec<ArticleBrief>, Error>,
    r2: Result<Vec<ArticleBrief>, Error>,
)
    requires
        archived_first_block_post(blocks, r1),
        archived_first_block_post(blocks, r2),
    ensures
        r1 matches Ok(b1) ==> (r2 matches Ok(b2) && b1 == b2),
        r1 matches Err(e1) ==> (r2 matches Err(e2) && e1 is HltvParse && e2 is HltvParse
            && e1->HltvParse_0@ == e2->HltvParse_0@),
{
}

} // verus!
