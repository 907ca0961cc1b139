use vstd::prelude::*;

use crate::Error;

verus! {

/// The raw material of one page section: the section's headline text, when
/// one was found, and the outcome of reading each member record of the
/// section, in document order.
pub struct Section<T> {
    pub headline: Option<String>,
    pub members: Vec<Result<T, Error>>,
}

/// Whether a section has a headline and every member record was read.
pub open spec fn section_ok<T>(s: Section<T>) -> bool {
    &&& s.headline is Some
    &&& forall|j: int| 0 <= j < s.members@.len() ==> (#[trigger] s.members@[j]) is Ok
}

/// Whether every section is complete.
pub open spec fn all_sections_ok<T>(sections: Seq<Section<T>>) -> bool {
    forall|i: int| 0 <= i < sections.len() ==> section_ok(#[trigger] sections[i])
}

/// Whether `i` is the first incomplete section.
pub open spec fn first_bad_section<T>(sections: Seq<Section<T>>, i: int) -> bool {
    &&& 0 <= i < sections.len()
    &&& !section_ok(sections[i])
    &&& forall|k: int| 0 <= k < i ==> section_ok(#[trigger] sections[k])
}

/// Whether `j` is the first member of `members` that failed to read.
pub open spec fn first_bad_member<T>(members: Seq<Result<T, Error>>, j: int) -> bool {
    &&& 0 <= j < members.len()
    &&& members[j] is Err
    &&& forall|k: int| 0 <= k < j ==> (#[trigger] members[k]) is Ok
}

/// The failure owed to an incomplete section: a missing headline is reported
/// with the caller's message, and otherwise the first member's own failure is
/// passed on unchanged.
pub open spec fn bad_section_error<T>(s: Section<T>, headline_err: Seq<char>, e: Error) -> bool {
    if s.headline is None {
        e matches Error::HltvParse(m) && m@ == headline_err
    } else {
        forall|j: int| first_bad_member(s.members@, j) ==> e == s.members@[j]->Err_0
    }
}

/// Whether one assembled group carries a section's headline as its key and
/// the section's member records, in order.
pub open spec fn group_matches<T>(s: Section<T>, g: (String, Vec<T>)) -> bool {
    &&& s.headline matches Some(h) && g.0 == h
    &&& g.1@.len() == s.members@.len()
    &&& forall|j: int| 0 <= j < g.1@.len() ==> #[trigger] g.1@[j] == s.members@[j]->Ok_0
}

/// Whether the assembled groups carry the sections one to one, in document
/// order: as many groups as sections, each keyed by its section's headline
/// and holding exactly its section's records.
pub open spec fn groups_match<T>(sections: Seq<Section<T>>, g: Seq<(String, Vec<T>)>) -> bool {
    &&& g.len() == sections.len()
    &&& forall|i: int| 0 <= i < g.len() ==> group_matches(sections[i], #[trigger] g[i])
}

/// What assembling the sections must yield: with every section complete, the
/// groups carry the sections one to one; otherwise the first incomplete
/// section, in document order, decides the failure.
pub open spec fn assemble_post<T>(
    sections: Seq<Section<T>>,
    headline_err: Seq<char>,
    r: Result<Vec<(String, Vec<T>)>, Error>,
) -> bool {
    if all_sections_ok(sections) {
        r matches Ok(g) && groups_match(sections, g@)
    } else {
        r matches Err(e) && forall|i: int|
            first_bad_section(sections, i) ==> bad_section_error(sections[i], headline_err, e)
    }
}

/// Assemble the read sections into an ordered mapping from headline key to
/// member records, aborting on the first section whose headline is missing
/// (reported with `headline_err`) or whose member failed to read.
pub fn assemble_groups<T>(sections: Vec<Section<T>>, headline_err: &str) -> (r: Result<
    Vec<(String, Vec<T>)>,
    Error,
>)
    ensures
        assemble_post(sections@, headline_err@, r),
{
    let ghost orig = sections@;
    let mut rest = sections;
    let mut groups: Vec<(String, Vec<T>)> = Vec::new();
    let ghost mut i: int = 0;
    while rest.len() > 0
        invariant
            orig == sections@,
            0 <= i <= orig.len(),
            groups@.len() == i,
            rest@ =~= orig.skip(i),
            forall|k: int| 0 <= k < i ==> section_ok(#[trigger] orig[k]),
            forall|k: int| 0 <= k < i ==> group_matches(orig[k], #[trigger] groups@[k]),
        decreases rest@.len(),
    {
        let section = rest.remove(0);
        let ghost sec = section;
        proof {
            assert(sec == orig[i]);
            assert(rest@ =~= orig.skip(i + 1));
        }
        let day = match section.headline {
            Some(d) => d,
            None => {
                proof {
                    assert(!all_sections_ok(orig));
                    assert(forall|k: int| first_bad_section(orig, k) ==> k == i);
                }
                return Err(Error::HltvParse(headline_err.to_owned()));
            },
        };
        let mut members = section.members;
        let ghost all = sec.members@;
        let mut values: Vec<T> = Vec::new();
        let ghost mut j: int = 0;
        while members.len() > 0
            invariant
                orig == sections@,
                0 <= i < orig.len(),
                sec == orig[i],
                sec.headline is Some,
                all == sec.members@,
                forall|k: int| 0 <= k < i ==> section_ok(#[trigger] orig[k]),
                0 <= j <= all.len(),
                values@.len() == j,
                members@ =~= all.skip(j),
                forall|k: int| 0 <= k < j ==> (#[trigger] all[k]) is Ok,
                forall|k: int| 0 <= k < j ==> #[trigger] values@[k] == all[k]->Ok_0,
            decreases members@.len(),
        {
            let member = members.remove(0);
            proof {
                assert(member == all[j]);
                assert(members@ =~= all.skip(j + 1));
            }
            match member {
                Ok(v) => {
                    values.push(v);
                },
                Err(e) => {
                    proof {
                        assert(!section_ok(orig[i]));
                        assert(!all_sections_ok(orig));
                        assert(forall|k: int| first_bad_section(orig, k) ==> k == i);
                        assert(forall|k: int| first_bad_member(all, k) ==> k == j);
                    }
                    return Err(e);
                },
            }
            proof {
                j = j + 1;
            }
        }
        proof {
            assert(all.skip(j).len() == 0);
            assert(j == all.len());
            assert(section_ok(orig[i]));
            assert(sec.headline matches Some(h) && day == h);
            assert(group_matches(orig[i], (day, values)));
        }
        groups.push((day, values));
        proof {
            i = i + 1;
        }
    }
    proof {
        assert(orig.skip(i).len() == 0);
        assert(i == orig.len());
    }
    Ok(groups)
}

/// The index of the first incomplete section.
spec fn first_bad_idx<T>(sections: Seq<Section<T>>) -> int
    decreases sections.len(),
{
    if sections.len() == 0 {
        0
    } else if !section_ok(sections.first()) {
        0
    } else {
        1 + first_bad_idx(sections.drop_first())
    }
}

/// When not every section is complete, a first incomplete one exists.
proof fn lemma_first_bad_section_exists<T>(sections: Seq<Section<T>>)
    requires
        !all_sections_ok(sections),
    ensures
        first_bad_section(sections, first_bad_idx(sections)),
    decreases sections.len(),
{
    let i = first_bad_idx(sections);
    if sections.len() == 0 {
    } else if !section_ok(sections.first()) {
    } else {
        assert(!all_sections_ok(sections.drop_first())) by {
            let w = choose|k: int| 0 <= k < sections.len() && !section_ok(sections[k]);
            assert(sections.drop_first()[w - 1] == sections[w]);
        }
        lemma_first_bad_section_exists(sections.drop_first());
        assert(forall|k: int| 0 <= k < i ==> section_ok(#[trigger] sections[k])) by {
            assert(forall|k: int|
                1 <= k < i ==> #[trigger] sections[k] == sections.drop_first()[k - 1]);
        }
    }
}

/// When an assembly fails and every member failure among the sections is of
/// the two page-reading kinds, the reported failure is of those kinds too.
pub proof fn lemma_error_kinds<T>(sections: Seq<Section<T>>, headline_err: Seq<char>, e: Error)
    requires
        assemble_post(sections, headline_err, Err(e)),
        forall|i: int, j: int|
            0 <= i < sections.len() && 0 <= j < sections[i].members@.len() && (
            #[trigger] sections[i].members@[j]) is Err ==> (sections[i].members@[j]->Err_0
                is HltvParse || sections[i].members@[j]->Err_0 is CssParse),
    ensures
        e is HltvParse || e is CssParse,
{
    assert(!all_sections_ok(sections));
    lemma_first_bad_section_exists(sections);
    let i = first_bad_idx(sections);
    let s = sections[i];
    if s.headline is None {
    } else {
        assert(exists|j: int| 0 <= j < s.members@.len() && s.members@[j] is Err);
        lemma_first_bad_member_exists(s.members@);
        let j = first_bad_member_idx(s.members@);
        assert(e == s.members@[j]->Err_0);
    }
}

/// Law: assembling the same read sections twice yields value-equal grouped
/// aggregates — grouped assembly has no hidden state. Two successes agree on
/// the number of groups, on every key and on every member record; two
/// failures agree on the failure value up to the message text.
pub proof fn lemma_assemble_groups_functional<T>(
    sections: Seq<Section<T>>,
    headline_err: Seq<char>,
    r1: Result<Vec<(String, Vec<T>)>, Error>,
    r2: Result<Vec<(String, Vec<T>)>, Error>,
)
    requires
        assemble_post(sections, headline_err, r1),
        assemble_post(sections, headline_err, r2),
    ensures
        r1 matches Ok(g1) ==> (r2 matches Ok(g2) && g1@.len() == g2@.len() && forall|i: int|
            0 <= i < g1@.len() ==> #[trigger] g1@[i].0 == g2@[i].0 && g1@[i].1@ == g2@[i].1@),
        r1 matches Err(e1) ==> (r2 matches Err(e2) && ((e1 matches Error::HltvParse(m1)
            && e2 matches Error::HltvParse(m2) && m1@ == m2@) || e1 == e2)),
{
    if all_sections_ok(sections) {
        let g1 = r1->Ok_0;
        let g2 = r2->Ok_0;
        assert(forall|i: int|
            0 <= i < g1@.len() ==> #[trigger] g1@[i].0 == g2@[i].0 && g1@[i].1@ =~= g2@[i].1@);
    } else {
        lemma_first_bad_section_exists(sections);
        let i = first_bad_idx(sections);
        let s = sections[i];
        if s.headline is None {
        } else {
            assert(exists|j: int| first_bad_member(s.members@, j)) by {
                lemma_first_bad_member_exists(s.members@);
            }
        }
    }
}

/// The index of the first member that failed to read.
pub(crate) open spec fn first_bad_member_idx<T>(members: Seq<Result<T, Error>>) -> int
    decreases members.len(),
{
    if members.len() == 0 {
        0
    } else if members.first() is Err {
        0
    } else {
        1 + first_bad_member_idx(members.drop_first())
    }
}

/// When a sequence of member outcomes holds a failure, a first failure
/// exists.
pub(crate) proof fn lemma_first_bad_member_exists<T>(members: Seq<Result<T, Error>>)
    requires
        exists|j: int| 0 <= j < members.len() && members[j] is Err,
    ensures
        first_bad_member(members, first_bad_member_idx(members)),
    decreases members.len(),
{
    let j = first_bad_member_idx(members);
    if members.len() == 0 {
    } else if members.first() is Err {
    } else {
        assert(exists|k: int| 0 <= k < members.drop_first().len() && members.drop_first()[k] is Err)
            by {
            let w = choose|k: int| 0 <= k < members.len() && members[k] is Err;
            assert(members.drop_first()[w - 1] == members[w]);
        }
        lemma_first_bad_member_exists(members.drop_first());
        assert(forall|k: int| 0 <= k < j ==> (#[trigger] members[k]) is Ok) by {
            assert(forall|k: int|
                1 <= k < j ==> #[trigger] members[k] == members.drop_first()[k - 1]);
        }
    }
}

} // verus!
