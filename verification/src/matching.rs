//! Telling whether a work that is named somewhere is a record of the
//! vault: by its title, or by its first author and its year.

use crate::chars::{
    chars_of, cut, cuts, find_in, first_occurrence, join_spans, keep_alphanumeric,
    keep_word_chars, same_chars, string_of, trim_span, word_spans, words_of, Span,
};
use crate::models::{Paper, RelatedPaper};
use crate::outside::{alphanumeric, lowercase};
use crate::text::{is_space, joined, str_eq, text_of, trimmed};
use vstd::prelude::*;
use vstd::string::*;
use vstd::utf8::*;

verus! {

/// A title in the form in which titles are compared: in lower case,
/// without any character that is neither letter, number nor white space,
/// its words separated by single spaces.
pub open spec fn normalized_title(title: Seq<char>) -> Seq<char> {
    joined(words_of(lowercase(title).filter(|c: char| alphanumeric(c) || is_space(c))), " "@)
}

/// The last name of an author: what stands before the first comma,
/// trimmed, if there is a comma; else the last word; else, if there is
/// no word, the whole name.
pub open spec fn last_name(author: Seq<char>) -> Seq<char> {
    match first_occurrence(author, seq![',']) {
        Some(comma) => trimmed(author.take(comma)),
        None => if words_of(author).len() > 0 {
            words_of(author).last()
        } else {
            author
        },
    }
}

/// An author in the form in which authors are compared: the last name in
/// lower case, letters and numbers only.
pub open spec fn normalized_author(author: Seq<char>) -> Seq<char> {
    lowercase(last_name(author)).filter(|c: char| alphanumeric(c))
}

/// The first `count` words of a text; all of them if there are fewer.
pub open spec fn first_words(text: Seq<char>, count: int) -> Seq<Seq<char>> {
    if words_of(text).len() <= count {
        words_of(text)
    } else {
        words_of(text).take(count)
    }
}

/// Two normalized titles agree when they are equal, or when both are
/// longer than ten bytes and have the same first five words, at least
/// three of them.
pub open spec fn titles_agree(left: Seq<char>, right: Seq<char>) -> bool {
    left == right || (encode_utf8(left).len() > 10 && encode_utf8(right).len() > 10
        && first_words(left, 5).len() >= 3 && first_words(left, 5) == first_words(right, 5))
}

/// The title in the form in which titles are compared.
pub fn normalize_title(title: &str) -> (normalized: String)
    ensures
        normalized@ == normalized_title(title@),
{
    let lower = title.to_lowercase();
    let chars = chars_of(lower.as_str());
    let kept = keep_word_chars(&chars);
    let words = word_spans(&kept, Span { start: 0, end: kept.len() });
    proof {
        assert(cut(kept@, Span { start: 0, end: kept.len() }) =~= kept@);
    }
    join_spans(&kept, &words, " ")
}

/// The span of the last name in the characters of an author's name.
pub(crate) fn last_name_span(chars: &Vec<char>) -> (name: Span)
    ensures
        name.start <= name.end <= chars@.len(),
        cut(chars@, name) == last_name(chars@),
{
    let whole = Span { start: 0, end: chars.len() };
    let mut comma: Vec<char> = Vec::new();
    comma.push(',');
    proof {
        assert(cut(chars@, whole) =~= chars@);
        assert(comma@ =~= seq![',']);
    }
    match find_in(chars, 0, chars.len(), &comma) {
        Some(at) => {
            proof {
                assert(cut(chars@, Span { start: 0, end: at }) =~= chars@.take(at as int));
            }
            trim_span(chars, Span { start: 0, end: at })
        },
        None => {
            let words = word_spans(chars, whole);
            if words.len() > 0 {
                let last = words[words.len() - 1];
                proof {
                    assert(cuts(chars@, words@).last() == cut(chars@, last));
                }
                last
            } else {
                whole
            }
        },
    }
}

/// The author in the form in which authors are compared.
pub fn normalize_author(author: &str) -> (normalized: String)
    ensures
        normalized@ == normalized_author(author@),
{
    let chars = chars_of(author);
    let name = string_of(&chars, last_name_span(&chars));
    let lower = name.as_str().to_lowercase();
    let lower_chars = chars_of(lower.as_str());
    let whole = Span { start: 0, end: lower_chars.len() };
    let kept = keep_alphanumeric(&lower_chars, whole);
    proof {
        assert(cut(lower_chars@, whole) =~= lower_chars@);
        assert(cut(kept@, Span { start: 0, end: kept.len() }) =~= kept@);
    }
    string_of(&kept, Span { start: 0, end: kept.len() })
}

/// Whether two normalized titles agree.
pub fn titles_match(t1: &str, t2: &str) -> (agree: bool)
    ensures
        agree == titles_agree(t1@, t2@),
{
    if str_eq(t1, t2) {
        return true;
    }
    if !(t1.as_bytes().len() > 10 && t2.as_bytes().len() > 10) {
        return false;
    }
    let left = chars_of(t1);
    let right = chars_of(t2);
    let left_words = word_spans(&left, Span { start: 0, end: left.len() });
    let right_words = word_spans(&right, Span { start: 0, end: right.len() });
    proof {
        assert(cut(left@, Span { start: 0, end: left.len() }) =~= left@);
        assert(cut(right@, Span { start: 0, end: right.len() }) =~= right@);
    }
    let count: usize = if left_words.len() <= 5 {
        left_words.len()
    } else {
        5
    };
    let other: usize = if right_words.len() <= 5 {
        right_words.len()
    } else {
        5
    };
    let ghost first_left = first_words(left@, 5);
    let ghost first_right = first_words(right@, 5);
    proof {
        assert(first_left.len() == count);
        assert(first_right.len() == other);
    }
    if count < 3 || count != other {
        return false;
    }
    let mut k: usize = 0;
    while k < count
        invariant
            k <= count,
            count <= left_words@.len(),
            count <= right_words@.len(),
            left@ == t1@,
            right@ == t2@,
            t1@ != t2@,
            encode_utf8(t1@).len() > 10,
            encode_utf8(t2@).len() > 10,
            count >= 3,
            first_left == first_words(left@, 5),
            first_right == first_words(right@, 5),
            first_left.len() == count,
            first_right.len() == count,
            cuts(left@, left_words@) == words_of(left@),
            cuts(right@, right_words@) == words_of(right@),
            forall|j: int|
                0 <= j < left_words@.len() ==> (#[trigger] left_words@[j]).start
                    <= left_words@[j].end <= left@.len(),
            forall|j: int|
                0 <= j < right_words@.len() ==> (#[trigger] right_words@[j]).start
                    <= right_words@[j].end <= right@.len(),
            forall|j: int| 0 <= j < k ==> #[trigger] first_left[j] == first_right[j],
        decreases count - k,
    {
        proof {
            assert(first_left[k as int] == cuts(left@, left_words@)[k as int]);
            assert(first_right[k as int] == cuts(right@, right_words@)[k as int]);
        }
        if !same_chars(&left, left_words[k], &right, right_words[k]) {
            return false;
        }
        k += 1;
    }
    proof {
        assert(first_left =~= first_right);
    }
    true
}

/// Whether two normalized authors agree: they are the same last name.
pub fn authors_match(a1: &str, a2: &str) -> (agree: bool)
    ensures
        agree == (a1@ == a2@),
{
    str_eq(a1, a2)
}

/// The normalized first author of a list; empty if the list is.
pub open spec fn first_author_key(authors: Seq<String>) -> Seq<char> {
    if authors.len() > 0 {
        normalized_author(authors[0]@)
    } else {
        Seq::empty()
    }
}

/// A work with the normalized title `title`, the normalized first
/// author `author` and the year `year` is the record `paper`: their
/// titles agree, the work's not being empty; or the years are the same
/// and so are the first authors, the work's not being empty.
pub open spec fn is_same_work(
    title: Seq<char>,
    author: Seq<char>,
    year: Option<i32>,
    paper: Paper,
) -> bool {
    (title.len() > 0 && titles_agree(title, normalized_title(paper.title@))) || (
    paper.authors@.len() > 0 && year == paper.year && author.len() > 0 && author
        == normalized_author(paper.authors@[0]@))
}

/// The place of the first record that is the work, if any is.
pub open spec fn first_same_work(
    papers: Seq<Paper>,
    title: Seq<char>,
    author: Seq<char>,
    year: Option<i32>,
) -> Option<int>
    decreases papers.len(),
{
    if papers.len() == 0 {
        None
    } else if first_same_work(papers.drop_last(), title, author, year) is Some {
        first_same_work(papers.drop_last(), title, author, year)
    } else if is_same_work(title, author, year, papers.last()) {
        Some(papers.len() - 1)
    } else {
        None
    }
}

proof fn lemma_first_same_work_bounds(
    papers: Seq<Paper>,
    title: Seq<char>,
    author: Seq<char>,
    year: Option<i32>,
)
    ensures
        first_same_work(papers, title, author, year) matches Some(place) ==> 0 <= place
            < papers.len(),
    decreases papers.len(),
{
    if papers.len() > 0 {
        lemma_first_same_work_bounds(papers.drop_last(), title, author, year);
    }
}

proof fn lemma_first_same_work_of_prefix(
    papers: Seq<Paper>,
    title: Seq<char>,
    author: Seq<char>,
    year: Option<i32>,
    upto: int,
)
    requires
        0 <= upto <= papers.len(),
        first_same_work(papers.take(upto), title, author, year) is Some,
    ensures
        first_same_work(papers, title, author, year) == first_same_work(
            papers.take(upto),
            title,
            author,
            year,
        ),
    decreases papers.len() - upto,
{
    if upto < papers.len() {
        assert(papers.take(upto + 1).drop_last() =~= papers.take(upto));
        lemma_first_same_work_of_prefix(papers, title, author, year, upto + 1);
    } else {
        assert(papers.take(upto) =~= papers);
    }
}

/// The place of the first record of the vault that is the work with the
/// given normalized title, normalized first author and year.
pub fn find_same_work(papers: &Vec<Paper>, title: &str, author: &str, year: Option<i32>) -> (place:
    Option<usize>)
    ensures
        match place {
            Some(i) => first_same_work(papers@, title@, author@, year) == Some(i as int) && i
                < papers@.len(),
            None => first_same_work(papers@, title@, author@, year) is None,
        },
{
    let mut i: usize = 0;
    while i < papers.len()
        invariant
            i <= papers@.len(),
            first_same_work(papers@.take(i as int), title@, author@, year) is None,
        decreases papers@.len() - i,
    {
        let paper = &papers[i];
        proof {
            let upto = papers@.take(i + 1);
            assert(upto.drop_last() =~= papers@.take(i as int));
            assert(upto.last() == papers@[i as int]);
        }
        let mut same = false;
        if !title.is_empty() {
            let paper_title = normalize_title(paper.title.as_str());
            same = titles_match(title, paper_title.as_str());
        }
        if !same && paper.authors.len() > 0 {
            let same_year = match (year, paper.year) {
                (Some(a), Some(b)) => a == b,
                (None, None) => true,
                _ => false,
            };
            if same_year && !author.is_empty() {
                let paper_author = normalize_author(paper.authors[0].as_str());
                same = authors_match(author, paper_author.as_str());
            }
        }
        if same {
            proof {
                lemma_first_same_work_of_prefix(papers@, title@, author@, year, i + 1);
            }
            return Some(i);
        }
        i += 1;
    }
    proof {
        assert(papers@.take(i as int) =~= papers@);
    }
    None
}

/// The place of the record that a related paper is, if it is one.
pub open spec fn vault_place(related: RelatedPaper, papers: Seq<Paper>) -> Option<int> {
    first_same_work(
        papers,
        normalized_title(related.title@),
        first_author_key(related.authors@),
        related.year,
    )
}

/// The key of the first record of the vault that the related paper is,
/// by title or by first author and year.
pub fn find_vault_match(related: &RelatedPaper, vault_papers: &Vec<Paper>) -> (citekey: Option<
    String,
>)
    ensures
        text_of(citekey) == match vault_place(*related, vault_papers@) {
            Some(place) => Some(vault_papers@[place].citekey@),
            None => None,
        },
{
    let title = normalize_title(related.title.as_str());
    let author = if related.authors.len() > 0 {
        normalize_author(related.authors[0].as_str())
    } else {
        String::new()
    };
    match find_same_work(vault_papers, title.as_str(), author.as_str(), related.year) {
        Some(place) => Some(vault_papers[place].citekey.clone()),
        None => None,
    }
}

/// A related paper after linking: with the key of the record it is, if
/// it is one, and as it was in everything else.
pub open spec fn is_linked(after: RelatedPaper, before: RelatedPaper, papers: Seq<Paper>) -> bool {
    &&& after.title == before.title
    &&& after.authors == before.authors
    &&& after.year == before.year
    &&& after.why_related == before.why_related
    &&& text_of(after.vault_citekey) == match vault_place(before, papers) {
        Some(place) => Some(papers[place].citekey@),
        None => text_of(before.vault_citekey),
    }
}

/// Links each related paper to the record of the vault that it is, if
/// it is one.
pub fn auto_link_related_papers(related_papers: Vec<RelatedPaper>, vault_papers: &Vec<Paper>) -> (
    linked: Vec<RelatedPaper>)
    ensures
        linked@.len() == related_papers@.len(),
        forall|i: int|
            0 <= i < linked@.len() ==> is_linked(
                #[trigger] linked@[i],
                related_papers@[i],
                vault_papers@,
            ),
{
    let mut linked = related_papers;
    let mut i: usize = 0;
    while i < linked.len()
        invariant
            i <= linked@.len(),
            linked@.len() == related_papers@.len(),
            forall|k: int|
                0 <= k < i ==> is_linked(#[trigger] linked@[k], related_papers@[k], vault_papers@),
            forall|k: int| i <= k < linked@.len() ==> linked@[k] == related_papers@[k],
        decreases linked@.len() - i,
    {
        match find_vault_match(&linked[i], vault_papers) {
            Some(citekey) => {
                let mut paper = RelatedPaper {
                    title: String::new(),
                    authors: Vec::new(),
                    year: None,
                    why_related: String::new(),
                    vault_citekey: None,
                };
                linked.set_and_swap(i, &mut paper);
                paper.vault_citekey = Some(citekey);
                linked.set_and_swap(i, &mut paper);
            },
            None => {},
        }
        i += 1;
    }
    linked
}

} // verus!
