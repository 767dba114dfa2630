//! What is decided about a vault as a whole: which records a query
//! finds, what a scan of its files changes, and which vaults were opened
//! recently.

use crate::adapters::filesystem::{record_file, FileSystemAdapter};
use crate::models::{status_name, status_to_string, Paper, PaperStatus};
use crate::outside::lowercase;
use crate::text::{bytes_contain, str_contains, str_eq, text_of};
use vstd::prelude::*;
use vstd::string::*;
use vstd::utf8::*;

verus! {

/// The status that a name stands for, if the name is one.
pub open spec fn status_with_name(name: Seq<char>) -> Option<PaperStatus> {
    if name == "discovered"@ {
        Some(PaperStatus::Discovered)
    } else if name == "wanted"@ {
        Some(PaperStatus::Wanted)
    } else if name == "queued"@ {
        Some(PaperStatus::Queued)
    } else if name == "downloaded"@ {
        Some(PaperStatus::Downloaded)
    } else if name == "summarized"@ {
        Some(PaperStatus::Summarized)
    } else if name == "failed"@ {
        Some(PaperStatus::Failed)
    } else {
        None
    }
}

/// The status that `name` stands for; none for any other text.
pub fn parse_status(name: &str) -> (status: Option<PaperStatus>)
    ensures
        status == status_with_name(name@),
{
    if str_eq(name, "discovered") {
        Some(PaperStatus::Discovered)
    } else if str_eq(name, "wanted") {
        Some(PaperStatus::Wanted)
    } else if str_eq(name, "queued") {
        Some(PaperStatus::Queued)
    } else if str_eq(name, "downloaded") {
        Some(PaperStatus::Downloaded)
    } else if str_eq(name, "summarized") {
        Some(PaperStatus::Summarized)
    } else if str_eq(name, "failed") {
        Some(PaperStatus::Failed)
    } else {
        None
    }
}

/// A text holds a query, letter case aside: the lower-case text holds
/// the lower-case query.
pub open spec fn holds_query(text: Seq<char>, lowered_query: Seq<char>) -> bool {
    bytes_contain(encode_utf8(lowercase(text)), encode_utf8(lowered_query))
}

/// One of the authors holds the query.
pub open spec fn author_holds_query(authors: Seq<String>, lowered_query: Seq<char>) -> bool {
    exists|i: int| 0 <= i < authors.len() && holds_query(#[trigger] authors[i]@, lowered_query)
}

/// A query finds a record whose title, key or one of whose authors
/// holds it, letter case aside.
pub open spec fn is_found(paper: Paper, query: Seq<char>) -> bool {
    holds_query(paper.title@, lowercase(query)) || holds_query(paper.citekey@, lowercase(query))
        || author_holds_query(paper.authors@, lowercase(query))
}

/// The places of the records that a query finds, in order.
pub open spec fn found_places(papers: Seq<Paper>, query: Seq<char>) -> Seq<usize>
    decreases papers.len(),
{
    if papers.len() == 0 {
        Seq::empty()
    } else if is_found(papers.last(), query) {
        found_places(papers.drop_last(), query).push((papers.len() - 1) as usize)
    } else {
        found_places(papers.drop_last(), query)
    }
}

fn holds(text: &str, lowered_query: &str) -> (held: bool)
    ensures
        held == holds_query(text@, lowered_query@),
{
    let lowered = text.to_lowercase();
    str_contains(lowered.as_str(), lowered_query)
}

fn finds(paper: &Paper, lowered_query: &str, query: Ghost<Seq<char>>) -> (found: bool)
    requires
        lowered_query@ == lowercase(query@),
    ensures
        found == is_found(*paper, query@),
{
    if holds(paper.title.as_str(), lowered_query) || holds(paper.citekey.as_str(), lowered_query) {
        return true;
    }
    let mut i: usize = 0;
    while i < paper.authors.len()
        invariant
            i <= paper.authors@.len(),
            lowered_query@ == lowercase(query@),
            !holds_query(paper.title@, lowered_query@),
            !holds_query(paper.citekey@, lowered_query@),
            forall|k: int| 0 <= k < i ==> !holds_query(#[trigger] paper.authors@[k]@, lowered_query@),
        decreases paper.authors@.len() - i,
    {
        if holds(paper.authors[i].as_str(), lowered_query) {
            assert(holds_query(paper.authors@[i as int]@, lowered_query@));
            return true;
        }
        i += 1;
    }
    false
}

/// The places of the records whose title, key or authors hold the
/// query, letter case aside, in order.
pub fn search_papers(papers: &Vec<Paper>, query: &str) -> (places: Vec<usize>)
    ensures
        places@ == found_places(papers@, query@),
{
    let lowered = query.to_lowercase();
    let mut places: Vec<usize> = Vec::new();
    let mut i: usize = 0;
    while i < papers.len()
        invariant
            i <= papers@.len(),
            lowered@ == lowercase(query@),
            places@ == found_places(papers@.take(i as int), query@),
        decreases papers@.len() - i,
    {
        proof {
            let upto = papers@.take(i + 1);
            assert(upto.drop_last() =~= papers@.take(i as int));
            assert(upto.last() == papers@[i as int]);
        }
        if finds(&papers[i], lowered.as_str(), Ghost(query@)) {
            places.push(i);
        }
        i += 1;
    }
    proof {
        assert(papers@.take(i as int) =~= papers@);
    }
    places
}

/// The record as a scan of the vault's files leaves it. A document that
/// lies in the vault and is not on record is put on record, and a record
/// that was only discovered counts as downloaded; a summary that lies in
/// the vault and is not on record is put on record, and the record counts
/// as summarized.
pub open spec fn scanned(paper: Paper, after: Paper, pdf_exists: bool, summary_exists: bool) -> bool {
    let takes_pdf = pdf_exists && paper.pdf_path is None;
    let takes_summary = summary_exists && paper.summary_path is None;
    &&& after == (Paper {
        status: after.status,
        pdf_path: after.pdf_path,
        summary_path: after.summary_path,
        ..paper
    })
    &&& text_of(after.pdf_path) == if takes_pdf {
        Some(record_file(paper.citekey@, "paper.pdf"@))
    } else {
        text_of(paper.pdf_path)
    }
    &&& text_of(after.summary_path) == if takes_summary {
        Some(record_file(paper.citekey@, "summary.md"@))
    } else {
        text_of(paper.summary_path)
    }
    &&& after.status == if takes_summary {
        PaperStatus::Summarized
    } else if takes_pdf && paper.status == PaperStatus::Discovered {
        PaperStatus::Downloaded
    } else {
        paper.status
    }
}

/// Puts on record what a scan found of a record's files; says whether
/// the record changed.
pub fn apply_scan(paper: &mut Paper, pdf_exists: bool, summary_exists: bool) -> (changed: bool)
    ensures
        scanned(*old(paper), *final(paper), pdf_exists, summary_exists),
        changed == ((pdf_exists && old(paper).pdf_path is None) || (summary_exists && old(
            paper,
        ).summary_path is None)),
        !changed ==> *final(paper) == *old(paper),
{
    let mut changed = false;
    if pdf_exists && paper.pdf_path.is_none() {
        paper.pdf_path = Some(FileSystemAdapter::pdf_relative_path(paper.citekey.as_str()));
        match paper.status {
            PaperStatus::Discovered => {
                paper.status = PaperStatus::Downloaded;
            },
            _ => {},
        }
        changed = true;
    }
    if summary_exists && paper.summary_path.is_none() {
        paper.summary_path = Some(FileSystemAdapter::summary_relative_path(paper.citekey.as_str()));
        paper.status = PaperStatus::Summarized;
        changed = true;
    }
    changed
}

/// A vault that was opened, as the settings remember it.
#[derive(Debug)]
pub struct RecentVault {
    pub path: String,
    pub name: String,
    pub last_opened: i64,
    pub paper_count: usize,
}

/// How many vaults the settings remember.
pub const RECENT_VAULTS: usize = 10;

/// The vaults whose path is not `path`, in order.
pub open spec fn other_vaults(recent: Seq<RecentVault>, path: Seq<char>) -> Seq<RecentVault>
    decreases recent.len(),
{
    if recent.len() == 0 {
        Seq::empty()
    } else if recent.last().path@ == path {
        other_vaults(recent.drop_last(), path)
    } else {
        other_vaults(recent.drop_last(), path).push(recent.last())
    }
}

/// The list once `opened` was opened: `opened` first, then the other
/// vaults as they were, ten in all at most.
pub open spec fn with_vault_opened(recent: Seq<RecentVault>, opened: RecentVault) -> Seq<
    RecentVault,
> {
    let all = seq![opened] + other_vaults(recent, opened.path@);
    if all.len() <= RECENT_VAULTS {
        all
    } else {
        all.take(RECENT_VAULTS as int)
    }
}

/// Remembers that a vault was opened: it comes first in the list, any
/// older entry for its path is dropped, and the list keeps ten entries.
pub fn add_recent_vault(recent: Vec<RecentVault>, opened: RecentVault) -> (list: Vec<RecentVault>)
    ensures
        list@ == with_vault_opened(recent@, opened),
{
    let mut recent = recent;
    let ghost all = recent@;
    let ghost path = opened.path@;
    let total = recent.len();
    let mut list: Vec<RecentVault> = Vec::new();
    let same = opened.path.clone();
    list.push(opened);
    let mut done: usize = 0;
    proof {
        assert(all.take(0) =~= Seq::<RecentVault>::empty());
        assert(list@ =~= seq![opened] + other_vaults(all.take(0), path));
    }
    while done < total
        invariant
            done <= total,
            total == all.len(),
            recent@.len() == total,
            same@ == path,
            path == opened.path@,
            list@ == seq![opened] + other_vaults(all.take(done as int), path),
            forall|k: int| done <= k < total ==> recent@[k] == all[k],
        decreases total - done,
    {
        let mut entry = RecentVault {
            path: String::new(),
            name: String::new(),
            last_opened: 0,
            paper_count: 0,
        };
        recent.set_and_swap(done, &mut entry);
        proof {
            let upto = all.take(done + 1);
            assert(upto.drop_last() =~= all.take(done as int));
            assert(upto.last() == entry);
        }
        if !str_eq(entry.path.as_str(), same.as_str()) {
            let ghost before = other_vaults(all.take(done as int), path);
            list.push(entry);
            proof {
                assert(list@ =~= seq![opened] + before.push(entry));
            }
        }
        done += 1;
    }
    proof {
        assert(all.take(done as int) =~= all);
    }
    list.truncate(RECENT_VAULTS);
    proof {
        let whole = seq![opened] + other_vaults(all, path);
        if whole.len() > RECENT_VAULTS {
            assert(whole.subrange(0, RECENT_VAULTS as int) =~= whole.take(RECENT_VAULTS as int));
        }
    }
    list
}

/// A page of a listing: how many records the listing has in all, and
/// the places of the records on the page.
#[derive(Debug)]
pub struct PapersResponse {
    pub total: usize,
    pub papers: Vec<usize>,
}

/// How many records a page holds when no limit is given.
pub const DEFAULT_PAGE: usize = 100;

/// A filter lets a record pass when there is none or it names the
/// record's status.
pub open spec fn passes(paper: Paper, status: Option<&str>) -> bool {
    status matches Some(name) ==> status_name(paper.status) == name@
}

/// The places of the records that pass the filter, in order.
pub open spec fn passing_places(papers: Seq<Paper>, status: Option<&str>) -> Seq<usize>
    decreases papers.len(),
{
    if papers.len() == 0 {
        Seq::empty()
    } else if passes(papers.last(), status) {
        passing_places(papers.drop_last(), status).push((papers.len() - 1) as usize)
    } else {
        passing_places(papers.drop_last(), status)
    }
}

/// The rank of a year in a listing: the later the year, the higher; a
/// record without a year ranks lowest.
pub open spec fn year_rank(year: Option<i32>) -> int {
    match year {
        Some(year) => year - i32::MIN + 1,
        None => 0,
    }
}

/// The rank of the record at a place.
pub open spec fn rank_at(papers: Seq<Paper>, place: usize) -> int {
    year_rank(papers[place as int].year)
}

/// How many places at the end of a listing rank below `rank`.
pub open spec fn lower_ranked_tail(papers: Seq<Paper>, listing: Seq<usize>, rank: int) -> nat
    decreases listing.len(),
{
    if listing.len() > 0 && rank_at(papers, listing.last()) < rank {
        1 + lower_ranked_tail(papers, listing.drop_last(), rank)
    } else {
        0
    }
}

/// A listing with one more place: it stands before the places at the
/// end that rank below it, and after all others.
pub open spec fn with_place(papers: Seq<Paper>, listing: Seq<usize>, place: usize) -> Seq<usize> {
    listing.insert(
        listing.len() - lower_ranked_tail(papers, listing, rank_at(papers, place)),
        place,
    )
}

/// The places in the order of a listing: by year, the latest first,
/// records without a year last, and records of one year in the order in
/// which they came.
pub open spec fn by_year(papers: Seq<Paper>, places: Seq<usize>) -> Seq<usize>
    decreases places.len(),
{
    if places.len() == 0 {
        Seq::empty()
    } else {
        with_place(papers, by_year(papers, places.drop_last()), places.last())
    }
}

/// The page of a listing that starts after `offset` places and holds
/// `limit` places at most.
pub open spec fn page_of(listing: Seq<usize>, offset: int, limit: int) -> Seq<usize> {
    if offset >= listing.len() {
        Seq::empty()
    } else if offset + limit >= listing.len() {
        listing.subrange(offset, listing.len() as int)
    } else {
        listing.subrange(offset, offset + limit)
    }
}

/// No place of a listing ranks below a place after it.
pub open spec fn is_ordered(papers: Seq<Paper>, listing: Seq<usize>) -> bool {
    forall|i: int, j: int|
        0 <= i < j < listing.len() ==> rank_at(papers, listing[i]) >= rank_at(papers, listing[j])
}

proof fn lemma_tail_fits(papers: Seq<Paper>, listing: Seq<usize>, rank: int)
    ensures
        lower_ranked_tail(papers, listing, rank) <= listing.len(),
        forall|k: int|
            listing.len() - lower_ranked_tail(papers, listing, rank) <= k < listing.len()
                ==> rank_at(papers, #[trigger] listing[k]) < rank,
        lower_ranked_tail(papers, listing, rank) < listing.len() ==> rank_at(
            papers,
            listing[listing.len() - lower_ranked_tail(papers, listing, rank) - 1],
        ) >= rank,
    decreases listing.len(),
{
    if listing.len() > 0 && rank_at(papers, listing.last()) < rank {
        lemma_tail_fits(papers, listing.drop_last(), rank);
        let tail = lower_ranked_tail(papers, listing.drop_last(), rank);
        assert forall|k: int|
            listing.len() - (tail + 1) <= k < listing.len() implies rank_at(
            papers,
            #[trigger] listing[k],
        ) < rank by {
            if k < listing.len() - 1 {
                assert(listing[k] == listing.drop_last()[k]);
            }
        }
        if tail + 1 < listing.len() {
            assert(listing[listing.len() - tail - 2] == listing.drop_last()[listing.len() - 1
                - tail - 1]);
        }
    }
}

/// A listing by year is ordered, the latest year first, and lists the
/// very places it was made of, each as often as it was given.
pub proof fn lemma_by_year_is_an_ordered_rearrangement(papers: Seq<Paper>, places: Seq<usize>)
    ensures
        is_ordered(papers, by_year(papers, places)),
        by_year(papers, places).len() == places.len(),
        by_year(papers, places).to_multiset() == places.to_multiset(),
    decreases places.len(),
{
    broadcast use vstd::seq_lib::group_to_multiset_ensures;

    if places.len() > 0 {
        let before = by_year(papers, places.drop_last());
        let place = places.last();
        let rank = rank_at(papers, place);
        lemma_by_year_is_an_ordered_rearrangement(papers, places.drop_last());
        lemma_tail_fits(papers, before, rank);
        let at = before.len() - lower_ranked_tail(papers, before, rank);
        let after = before.insert(at, place);
        before.insert_ensures(at, place);
        assert(is_ordered(papers, after)) by {
            assert forall|i: int, j: int| 0 <= i < j < after.len() implies rank_at(
                papers,
                after[i],
            ) >= rank_at(papers, after[j]) by {
                if i < at && j == at {
                    assert(after[i] == before[i]);
                    assert(rank_at(papers, before[at - 1]) >= rank);
                    if i < at - 1 {
                        assert(rank_at(papers, before[i]) >= rank_at(papers, before[at - 1]));
                    }
                } else if i == at {
                    assert(after[j] == before[j - 1]);
                } else if j < at {
                    assert(after[i] == before[i] && after[j] == before[j]);
                } else if i < at {
                    assert(after[i] == before[i] && after[j] == before[j - 1]);
                } else {
                    assert(after[i] == before[i - 1] && after[j] == before[j - 1]);
                }
            }
        }
        assert(after.to_multiset() =~= places.to_multiset()) by {
            assert(after.remove(at) =~= before);
            assert(after[at] == place);
            assert(places.drop_last().push(place) =~= places);
        }
    }
}

/// Where a place comes to stand in a listing.
fn insertion_point(papers: &Vec<Paper>, listing: &Vec<usize>, place: usize) -> (at: usize)
    requires
        place < papers@.len(),
        forall|k: int| 0 <= k < listing@.len() ==> (#[trigger] listing@[k]) < papers@.len(),
    ensures
        at == listing@.len() - lower_ranked_tail(papers@, listing@, rank_at(papers@, place)),
        at <= listing@.len(),
{
    let year = papers[place].year;
    let mut at: usize = listing.len();
    proof {
        assert(listing@.take(at as int) =~= listing@);
    }
    while at > 0 && ranks_below(papers[listing[at - 1]].year, year)
        invariant
            at <= listing@.len(),
            place < papers@.len(),
            year == papers@[place as int].year,
            forall|k: int| 0 <= k < listing@.len() ==> (#[trigger] listing@[k]) < papers@.len(),
            lower_ranked_tail(papers@, listing@, year_rank(year)) == (listing@.len() - at)
                + lower_ranked_tail(papers@, listing@.take(at as int), year_rank(year)),
        decreases at,
    {
        proof {
            let head = listing@.take(at as int);
            assert(head.last() == listing@[at - 1]);
            assert(head.drop_last() =~= listing@.take(at - 1));
        }
        at -= 1;
    }
    proof {
        let head = listing@.take(at as int);
        if at > 0 {
            assert(head.last() == listing@[at - 1]);
        }
    }
    at
}

/// Whether one year ranks below another.
fn ranks_below(year: Option<i32>, other: Option<i32>) -> (below: bool)
    ensures
        below == (year_rank(year) < year_rank(other)),
{
    match (year, other) {
        (Some(a), Some(b)) => a < b,
        (None, Some(_)) => true,
        _ => false,
    }
}

/// Lists the records, those of one status if a status is named, by year
/// with the latest first, and hands back one page of the listing and the
/// number of records listed in all. Without an offset the page is the
/// first; without a limit it holds a hundred records.
pub fn get_papers(
    papers: &Vec<Paper>,
    status: Option<&str>,
    limit: Option<usize>,
    offset: Option<usize>,
) -> (page: PapersResponse)
    ensures
        page.total == passing_places(papers@, status).len(),
        page.papers@ == page_of(
            by_year(papers@, passing_places(papers@, status)),
            match offset {
                Some(offset) => offset as int,
                None => 0,
            },
            match limit {
                Some(limit) => limit as int,
                None => DEFAULT_PAGE as int,
            },
        ),
{
    let mut listing: Vec<usize> = Vec::new();
    let mut i: usize = 0;
    let ghost mut passed: Seq<usize> = Seq::empty();
    while i < papers.len()
        invariant
            i <= papers@.len(),
            passed == passing_places(papers@.take(i as int), status),
            listing@ == by_year(papers@, passed),
            listing@.len() == passed.len(),
            passed.len() <= i,
            forall|k: int| 0 <= k < listing@.len() ==> (#[trigger] listing@[k]) < papers@.len(),
        decreases papers@.len() - i,
    {
        let wanted = match status {
            Some(name) => str_eq(status_to_string(&papers[i].status), name),
            None => true,
        };
        proof {
            let upto = papers@.take(i + 1);
            assert(upto.drop_last() =~= papers@.take(i as int));
            assert(upto.last() == papers@[i as int]);
        }
        if wanted {
            let at = insertion_point(papers, &listing, i);
            proof {
                listing@.insert_ensures(at as int, i);
                assert(passed.push(i).drop_last() =~= passed);
                passed = passed.push(i);
            }
            listing.insert(at, i);
        }
        i += 1;
    }
    proof {
        assert(papers@.take(i as int) =~= papers@);
    }
    let total = listing.len();
    let offset: usize = match offset {
        Some(offset) => offset,
        None => 0,
    };
    let limit: usize = match limit {
        Some(limit) => limit,
        None => DEFAULT_PAGE,
    };
    let mut page: Vec<usize> = Vec::new();
    if offset < total {
        let end: usize = if limit >= total - offset {
            total
        } else {
            offset + limit
        };
        let mut k: usize = offset;
        while k < end
            invariant
                offset <= k <= end <= listing@.len(),
                page@ == listing@.subrange(offset as int, k as int),
            decreases end - k,
        {
            page.push(listing[k]);
            proof {
                assert(listing@.subrange(offset as int, k + 1) =~= listing@.subrange(
                    offset as int,
                    k as int,
                ).push(listing@[k as int]));
            }
            k += 1;
        }
    }
    PapersResponse { total, papers: page }
}

} // verus!
