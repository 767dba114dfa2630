//! Citation keys for works that enter the vault as related papers, and
//! the entry into the vault itself.

use crate::chars::{chars_of, cut, keep_alphanumeric, string_of, Span};
use crate::matching::{
    find_same_work, first_author_key, first_same_work, last_name, normalize_author,
    normalize_title, normalized_title,
};
use crate::models::{Paper, PaperStatus};
use crate::outside::{alphanumeric, lowercase};
use crate::text::{join, joined, str_eq, texts};
use vstd::prelude::*;
use vstd::string::*;

verus! {

/// The character of a decimal digit.
pub open spec fn digit_char(digit: nat) -> char {
    ('0' as u8 + digit) as char
}

/// A natural number in decimal notation.
pub open spec fn decimal_digits(number: nat) -> Seq<char>
    decreases number,
{
    if number < 10 {
        seq![digit_char(number)]
    } else {
        decimal_digits(number / 10).push(digit_char(number % 10))
    }
}

/// A whole number in decimal notation, with a minus sign if it is negative.
pub open spec fn decimal_text(number: int) -> Seq<char> {
    if number < 0 {
        seq!['-'] + decimal_digits((-number) as nat)
    } else {
        decimal_digits(number as nat)
    }
}

fn push_digits(text: &mut String, number: u32)
    ensures
        final(text)@ == old(text)@ + decimal_digits(number as nat),
    decreases number,
{
    if number >= 10 {
        push_digits(text, number / 10);
    }
    let digit: u8 = (number % 10) as u8;
    let ghost before = text@;
    text.push((('0' as u8) + digit) as char);
    proof {
        if number >= 10 {
            assert(before.push(digit_char((number % 10) as nat)) =~= old(text)@ + decimal_digits(
                (number / 10) as nat,
            ).push(digit_char((number % 10) as nat)));
        } else {
            assert(before.push(digit_char(number as nat)) =~= old(text)@ + seq![
                digit_char(number as nat),
            ]);
        }
    }
}

/// A number in decimal notation.
pub fn i32_to_text(number: i32) -> (text: String)
    ensures
        text@ == decimal_text(number as int),
{
    let mut text = String::new();
    if number < 0 {
        text.push('-');
        let magnitude: u32 = (-(number as i64)) as u32;
        push_digits(&mut text, magnitude);
        proof {
            assert(Seq::<char>::empty().push('-') =~= seq!['-']);
        }
    } else {
        push_digits(&mut text, number as u32);
        proof {
            assert(Seq::<char>::empty() + decimal_digits(number as nat) =~= decimal_digits(
                number as nat,
            ));
        }
    }
    text
}

/// The name part of a key: the last name of the first author, or
/// `unknown` without authors; letters and numbers only, in lower case.
pub open spec fn key_name(authors: Seq<String>) -> Seq<char> {
    let name = if authors.len() > 0 {
        last_name(authors[0]@)
    } else {
        "unknown"@
    };
    lowercase(name.filter(|c: char| alphanumeric(c)))
}

/// The year part of a key: the year, or `nd` without one.
pub open spec fn key_year(year: Option<i32>) -> Seq<char> {
    match year {
        Some(year) => decimal_text(year as int),
        None => "nd"@,
    }
}

/// The key that authors and year suggest: name and year.
pub open spec fn suggested_key(authors: Seq<String>, year: Option<i32>) -> Seq<char> {
    key_name(authors) + key_year(year)
}

/// The key that authors and year suggest for a work.
pub fn generate_citekey(authors: &Vec<String>, year: Option<i32>) -> (citekey: String)
    ensures
        citekey@ == suggested_key(authors@, year),
{
    let chars = if authors.len() > 0 {
        chars_of(authors[0].as_str())
    } else {
        chars_of("unknown")
    };
    let name = if authors.len() > 0 {
        crate::matching::last_name_span(&chars)
    } else {
        proof {
            assert(cut(chars@, Span { start: 0, end: chars.len() }) =~= chars@);
        }
        Span { start: 0, end: chars.len() }
    };
    let kept = keep_alphanumeric(&chars, name);
    proof {
        assert(cut(kept@, Span { start: 0, end: kept.len() }) =~= kept@);
    }
    let clean = string_of(&kept, Span { start: 0, end: kept.len() });
    let mut citekey = clean.as_str().to_lowercase();
    match year {
        Some(year) => {
            let text = i32_to_text(year);
            citekey.append(text.as_str());
        },
        None => {
            citekey.append("nd");
        },
    }
    citekey
}

/// A work that is to enter the vault because a record names it as related.
#[derive(Debug)]
pub struct AddRelatedPaperRequest {
    pub title: String,
    pub authors: Vec<String>,
    pub year: Option<i32>,
    pub source_citekey: String,
}

/// What became of the request: `exists` or `added`, and the key of the record.
#[derive(Debug)]
pub struct AddRelatedPaperResponse {
    pub status: String,
    pub citekey: String,
}

/// The place of the record with the key, if there is one.
pub open spec fn place_of_key(papers: Seq<Paper>, key: Seq<char>) -> Option<int>
    decreases papers.len(),
{
    if papers.len() == 0 {
        None
    } else if place_of_key(papers.drop_last(), key) is Some {
        place_of_key(papers.drop_last(), key)
    } else if papers.last().citekey@ == key {
        Some(papers.len() - 1)
    } else {
        None
    }
}

proof fn lemma_place_of_key_of_prefix(papers: Seq<Paper>, key: Seq<char>, upto: int)
    requires
        0 <= upto <= papers.len(),
        place_of_key(papers.take(upto), key) is Some,
    ensures
        place_of_key(papers, key) == place_of_key(papers.take(upto), key),
    decreases papers.len() - upto,
{
    if upto < papers.len() {
        assert(papers.take(upto + 1).drop_last() =~= papers.take(upto));
        lemma_place_of_key_of_prefix(papers, key, upto + 1);
    } else {
        assert(papers.take(upto) =~= papers);
    }
}

/// The place of the record with the key `key`, if there is one.
pub fn find_key(papers: &Vec<Paper>, key: &str) -> (place: Option<usize>)
    ensures
        match place {
            Some(i) => place_of_key(papers@, key@) == Some(i as int) && i < papers@.len(),
            None => place_of_key(papers@, key@) is None,
        },
{
    let mut i: usize = 0;
    while i < papers.len()
        invariant
            i <= papers@.len(),
            place_of_key(papers@.take(i as int), key@) is None,
        decreases papers@.len() - i,
    {
        proof {
            let upto = papers@.take(i + 1);
            assert(upto.drop_last() =~= papers@.take(i as int));
            assert(upto.last() == papers@[i as int]);
        }
        if str_eq(papers[i].citekey.as_str(), key) {
            proof {
                lemma_place_of_key_of_prefix(papers@, key@, i + 1);
            }
            return Some(i);
        }
        i += 1;
    }
    proof {
        assert(papers@.take(i as int) =~= papers@);
    }
    None
}

/// The `number`-th key tried for a suggested key: the key itself, then
/// the key with `a`, with `b`, and so on to `z`.
pub open spec fn key_candidate(base: Seq<char>, number: nat) -> Seq<char> {
    if number == 0 {
        base
    } else {
        base.push(('a' as u8 + (number - 1)) as char)
    }
}

/// The key a new record gets: the first candidate, from the `number`-th
/// on, that no record has; the one with `z` if all are taken.
pub open spec fn free_key(papers: Seq<Paper>, base: Seq<char>, number: nat) -> Seq<char>
    decreases 26 - number,
{
    if number >= 26 || place_of_key(papers, key_candidate(base, number)) is None {
        key_candidate(base, number)
    } else {
        free_key(papers, base, number + 1)
    }
}

/// The key for a new record that is suggested the key `base`.
pub fn pick_free_key(papers: &Vec<Paper>, base: &str) -> (citekey: String)
    ensures
        citekey@ == free_key(papers@, base@, 0),
{
    let mut citekey = String::from_str(base);
    let mut number: u8 = 0;
    while number < 26 && find_key(papers, citekey.as_str()).is_some()
        invariant
            number <= 26,
            citekey@ == key_candidate(base@, number as nat),
            free_key(papers@, base@, 0) == free_key(papers@, base@, number as nat),
        decreases 26 - number,
    {
        number = number + 1;
        citekey = String::from_str(base);
        citekey.push((('a' as u8) + (number - 1)) as char);
    }
    citekey
}

/// Whether one of the keys is `key`.
pub fn names_key(keys: &Vec<String>, key: &str) -> (named: bool)
    ensures
        named == texts(keys@).contains(key@),
{
    let mut i: usize = 0;
    while i < keys.len()
        invariant
            i <= keys@.len(),
            forall|k: int| 0 <= k < i ==> texts(keys@)[k] != key@,
        decreases keys@.len() - i,
    {
        if str_eq(keys[i].as_str(), key) {
            assert(texts(keys@)[i as int] == key@);
            return true;
        }
        i += 1;
    }
    false
}

/// The record of a work that enters the vault as a related paper of
/// the record `source`: newly discovered, cited by its source.
pub open spec fn is_new_entry(
    paper: Paper,
    citekey: Seq<char>,
    request: AddRelatedPaperRequest,
    now: i64,
) -> bool {
    &&& paper.citekey@ == citekey
    &&& paper.title == request.title
    &&& paper.authors == request.authors
    &&& paper.year == request.year
    &&& paper.status == PaperStatus::Discovered
    &&& paper.added_at == now
    &&& texts(paper.cited_by@) == seq![request.source_citekey@]
    &&& paper.journal is None
    &&& paper.volume is None
    &&& paper.number is None
    &&& paper.pages is None
    &&& paper.doi is None
    &&& paper.url is None
    &&& paper.abstract_text is None
    &&& paper.pdf_path is None
    &&& paper.summary_path is None
    &&& paper.notes_path is None
    &&& paper.downloaded_at is None
    &&& paper.summarized_at is None
    &&& paper.citations@.len() == 0
    &&& paper.related_papers@.len() == 0
    &&& paper.search_attempts == 0
    &&& paper.last_search_error is None
    &&& paper.manual_download_links@.len() == 0
}

/// The record as it is once `source` is counted among those that cite
/// it: added at the end unless it is there already.
pub open spec fn is_cited_by(after: Paper, before: Paper, source: Seq<char>) -> bool {
    &&& texts(after.cited_by@) == if texts(before.cited_by@).contains(source) {
        texts(before.cited_by@)
    } else {
        texts(before.cited_by@).push(source)
    }
    &&& after == (Paper { cited_by: after.cited_by, ..before })
}

/// The place of the record that the requested work is, if it is one.
pub open spec fn existing_place(papers: Seq<Paper>, request: AddRelatedPaperRequest) -> Option<
    int,
> {
    first_same_work(
        papers,
        normalized_title(request.title@),
        first_author_key(request.authors@),
        request.year,
    )
}

/// The key a new record for the request gets.
pub open spec fn new_key(papers: Seq<Paper>, request: AddRelatedPaperRequest) -> Seq<char> {
    free_key(papers, suggested_key(request.authors@, request.year), 0)
}

/// Enters a related work into the vault. If the work is a record
/// already, by title or by first author and year, that record is cited by
/// the source from now on, and the answer is `exists` with its key.
/// Otherwise the work becomes a new record under a free key, cited by the
/// source, and the answer is `added` with the key; should every candidate
/// for the key be taken, the record with the last candidate is replaced.
pub fn add_related_paper(papers: &mut Vec<Paper>, request: AddRelatedPaperRequest, now: i64) -> (
    response: AddRelatedPaperResponse)
    ensures
        match existing_place(old(papers)@, request) {
            Some(place) => {
                &&& response.status@ == "exists"@
                &&& response.citekey@ == old(papers)@[place].citekey@
                &&& final(papers)@.len() == old(papers)@.len()
                &&& is_cited_by(final(papers)@[place], old(papers)@[place], request.source_citekey@)
                &&& forall|i: int|
                    0 <= i < old(papers)@.len() && i != place ==> final(papers)@[i] == old(
                        papers,
                    )@[i]
            },
            None => {
                &&& response.status@ == "added"@
                &&& response.citekey@ == new_key(old(papers)@, request)
                &&& match place_of_key(old(papers)@, new_key(old(papers)@, request)) {
                    Some(place) => {
                        &&& final(papers)@.len() == old(papers)@.len()
                        &&& is_new_entry(final(papers)@[place], response.citekey@, request, now)
                        &&& forall|i: int|
                            0 <= i < old(papers)@.len() && i != place ==> final(papers)@[i]
                                == old(papers)@[i]
                    },
                    None => {
                        &&& final(papers)@.len() == old(papers)@.len() + 1
                        &&& is_new_entry(final(papers)@.last(), response.citekey@, request, now)
                        &&& forall|i: int|
                            0 <= i < old(papers)@.len() ==> final(papers)@[i] == old(papers)@[i]
                    },
                }
            },
        },
{
    let title = normalize_title(request.title.as_str());
    let author = if request.authors.len() > 0 {
        normalize_author(request.authors[0].as_str())
    } else {
        String::new()
    };
    match find_same_work(papers, title.as_str(), author.as_str(), request.year) {
        Some(place) => {
            let citekey = papers[place].citekey.clone();
            if !names_key(&papers[place].cited_by, request.source_citekey.as_str()) {
                let mut paper = Paper::new(String::new(), String::new(), 0);
                papers.set_and_swap(place, &mut paper);
                let ghost before = texts(paper.cited_by@);
                paper.cited_by.push(request.source_citekey);
                proof {
                    assert(texts(paper.cited_by@) =~= before.push(request.source_citekey@));
                }
                papers.set_and_swap(place, &mut paper);
            }
            AddRelatedPaperResponse { status: String::from_str("exists"), citekey }
        },
        None => {
            let base = generate_citekey(&request.authors, request.year);
            let citekey = pick_free_key(papers, base.as_str());
            let mut paper = Paper::new(citekey.clone(), request.title, now);
            paper.authors = request.authors;
            paper.year = request.year;
            let mut cited_by: Vec<String> = Vec::new();
            cited_by.push(request.source_citekey);
            proof {
                assert(texts(cited_by@) =~= seq![request.source_citekey@]);
            }
            paper.cited_by = cited_by;
            match find_key(papers, citekey.as_str()) {
                Some(place) => {
                    papers.set(place, paper);
                },
                None => {
                    papers.push(paper);
                },
            }
            AddRelatedPaperResponse { status: String::from_str("added"), citekey }
        },
    }
}

/// The entry that is appended to the bibliography file for a work that
/// entered the vault as a related paper.
pub open spec fn bibliography_entry(
    citekey: Seq<char>,
    title: Seq<char>,
    authors: Seq<Seq<char>>,
    year: Option<i32>,
) -> Seq<char> {
    "\n@article{"@ + citekey + ",\n  title = {"@ + title + "},\n  author = {"@ + joined(
        authors,
        " and "@,
    ) + "},\n  year = {"@ + (match year {
        Some(year) => decimal_text(year as int),
        None => Seq::empty(),
    }) + "}\n}\n"@
}

/// The text of the entry to append to the bibliography file.
pub fn bibtex_entry(citekey: &str, title: &str, authors: &Vec<String>, year: Option<i32>) -> (entry:
    String)
    ensures
        entry@ == bibliography_entry(citekey@, title@, texts(authors@), year),
{
    let mut entry = String::from_str("\n@article{");
    entry.append(citekey);
    entry.append(",\n  title = {");
    entry.append(title);
    entry.append("},\n  author = {");
    let names = join(authors, " and ");
    entry.append(names.as_str());
    entry.append("},\n  year = {");
    if let Some(year) = year {
        let text = i32_to_text(year);
        entry.append(text.as_str());
    } else {
        proof {
            assert(entry@ + Seq::<char>::empty() =~= entry@);
        }
    }
    entry.append("}\n}\n");
    entry
}

} // verus!
