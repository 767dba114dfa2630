//! Reading the section on related work out of a summary in Markdown.
//!
//! The section starts at the heading `## Related Work` and ends before
//! the next second-level heading. In it, a line that starts with
//! `- Title:` opens an entry, and lines that start with `Authors:`,
//! `Year:` or `Why Related:` fill the entry that is open.

use crate::chars::{
    chars_of, cut, cuts, find_in, first_occurrence, i32_value, parse_i32, split_on, split_spans,
    starts_with, strip_prefixes, trim_span, within, without_prefixes, Span,
};
use crate::models::RelatedPaper;
use crate::text::{occurs_at, texts, trimmed};
use vstd::prelude::*;
use vstd::string::*;

verus! {

/// The heading that opens the section.
pub const HEADING: &'static str = "## Related Work";

/// What ends the section: the start of a line with a second-level heading.
pub const NEXT_HEADING: &'static str = "\n## ";

/// The tag of the line that opens an entry.
pub const TITLE_TAG: &'static str = "- Title:";

/// The tag of the line that names the authors.
pub const AUTHORS_TAG: &'static str = "Authors:";

/// The tag of the line that gives the year.
pub const YEAR_TAG: &'static str = "Year:";

/// The tag of the line that says why the work is related.
pub const REASON_TAG: &'static str = "Why Related:";

/// What an entry of the section says.
pub struct RelatedEntry {
    pub title: Seq<char>,
    pub authors: Seq<Seq<char>>,
    pub year: Option<i32>,
    pub why_related: Seq<char>,
}

/// What a related paper says.
pub open spec fn entry_of(paper: RelatedPaper) -> RelatedEntry {
    RelatedEntry {
        title: paper.title@,
        authors: texts(paper.authors@),
        year: paper.year,
        why_related: paper.why_related@,
    }
}

/// What each of the related papers says.
pub open spec fn entries_of(papers: Seq<RelatedPaper>) -> Seq<RelatedEntry> {
    Seq::new(papers.len(), |i: int| entry_of(papers[i]))
}

/// The section: from the heading to the next second-level heading after
/// it, or to the end of the text; nothing if there is no such heading.
pub open spec fn related_section(text: Seq<char>) -> Seq<char> {
    match first_occurrence(text, HEADING@) {
        Some(start) => {
            let body = text.subrange(start + HEADING@.len(), text.len() as int);
            match first_occurrence(body, NEXT_HEADING@) {
                Some(end) => text.subrange(start, start + HEADING@.len() + end),
                None => text.subrange(start, text.len() as int),
            }
        },
        None => Seq::empty(),
    }
}

/// What follows a tag on a line: the line without the tag, however
/// often it is repeated, and without white space around the rest.
pub open spec fn tagged_value(line: Seq<char>, tag: Seq<char>) -> Seq<char> {
    trimmed(without_prefixes(line, tag))
}

/// The names among the pieces: each piece trimmed, the empty ones left out.
pub open spec fn kept_names(pieces: Seq<Seq<char>>) -> Seq<Seq<char>>
    decreases pieces.len(),
{
    if pieces.len() == 0 {
        Seq::empty()
    } else if trimmed(pieces.last()).len() > 0 {
        kept_names(pieces.drop_last()).push(trimmed(pieces.last()))
    } else {
        kept_names(pieces.drop_last())
    }
}

/// The names in the groups: each group split at `, `.
pub open spec fn names_of_groups(groups: Seq<Seq<char>>) -> Seq<Seq<char>>
    decreases groups.len(),
{
    if groups.len() == 0 {
        Seq::empty()
    } else {
        names_of_groups(groups.drop_last()) + kept_names(split_on(groups.last(), ", "@))
    }
}

/// The names in a list of authors: the list split at ` and `, each part
/// split at `, `, each name trimmed, and the empty ones left out.
pub open spec fn names_in(list: Seq<char>) -> Seq<Seq<char>> {
    names_of_groups(split_on(list, " and "@))
}

/// The entries read so far, and the entry that is open.
pub struct Draft {
    pub done: Seq<RelatedEntry>,
    pub open: Option<RelatedEntry>,
}

/// The entries once the open one is closed: it counts if it has a title.
pub open spec fn closed(draft: Draft) -> Seq<RelatedEntry> {
    match draft.open {
        Some(entry) => if entry.title.len() > 0 {
            draft.done.push(entry)
        } else {
            draft.done
        },
        None => draft.done,
    }
}

/// The draft after one more line.
pub open spec fn after_line(draft: Draft, raw: Seq<char>) -> Draft {
    let line = trimmed(raw);
    if occurs_at(line, TITLE_TAG@, 0) {
        Draft {
            done: closed(draft),
            open: Some(
                RelatedEntry {
                    title: tagged_value(line, TITLE_TAG@),
                    authors: Seq::empty(),
                    year: None,
                    why_related: Seq::empty(),
                },
            ),
        }
    } else {
        match draft.open {
            Some(entry) => if occurs_at(line, AUTHORS_TAG@, 0) {
                Draft {
                    open: Some(
                        RelatedEntry { authors: names_in(tagged_value(line, AUTHORS_TAG@)), ..entry },
                    ),
                    ..draft
                }
            } else if occurs_at(line, YEAR_TAG@, 0) {
                Draft {
                    open: Some(
                        RelatedEntry { year: i32_value(tagged_value(line, YEAR_TAG@)), ..entry },
                    ),
                    ..draft
                }
            } else if occurs_at(line, REASON_TAG@, 0) {
                Draft {
                    open: Some(
                        RelatedEntry { why_related: tagged_value(line, REASON_TAG@), ..entry },
                    ),
                    ..draft
                }
            } else {
                draft
            },
            None => draft,
        }
    }
}

/// The draft after the lines, read in order.
pub open spec fn after_lines(lines: Seq<Seq<char>>) -> Draft
    decreases lines.len(),
{
    if lines.len() == 0 {
        Draft { done: Seq::empty(), open: None }
    } else {
        after_line(after_lines(lines.drop_last()), lines.last())
    }
}

/// The entries of the section on related work in `text`, in order.
pub open spec fn related_in(text: Seq<char>) -> Seq<RelatedEntry> {
    if first_occurrence(text, HEADING@) is Some {
        closed(after_lines(split_on(related_section(text), seq!['\n'])))
    } else {
        Seq::empty()
    }
}

/// The text of a span, as a string of its own.
fn string_at(text: &str, chars: &Vec<char>, span: Span) -> (copy: String)
    requires
        chars@ == text@,
        span.start <= span.end <= chars@.len(),
    ensures
        copy@ == cut(chars@, span),
{
    String::from_str(text.substring_char(span.start, span.end))
}

/// The span of what follows a tag on a line.
fn value_span(chars: &Vec<char>, line: Span, tag: &Vec<char>) -> (value: Span)
    requires
        line.start <= line.end <= chars@.len(),
    ensures
        within(value, line),
        cut(chars@, value) == tagged_value(cut(chars@, line), tag@),
{
    trim_span(chars, strip_prefixes(chars, line, tag))
}

/// The names in the pieces of one group.
fn names_of_pieces(text: &str, chars: &Vec<char>, pieces: &Vec<Span>, names: &mut Vec<String>)
    requires
        chars@ == text@,
        forall|k: int|
            0 <= k < pieces@.len() ==> (#[trigger] pieces@[k]).start <= pieces@[k].end
                <= chars@.len(),
    ensures
        texts(final(names)@) == texts(old(names)@) + kept_names(cuts(chars@, pieces@)),
{
    let ghost before = texts(names@);
    let mut i: usize = 0;
    proof {
        assert(cuts(chars@, pieces@).take(0) =~= Seq::<Seq<char>>::empty());
        assert(before + Seq::<Seq<char>>::empty() =~= before);
    }
    while i < pieces.len()
        invariant
            i <= pieces@.len(),
            chars@ == text@,
            forall|k: int|
                0 <= k < pieces@.len() ==> (#[trigger] pieces@[k]).start <= pieces@[k].end
                    <= chars@.len(),
            texts(names@) == before + kept_names(cuts(chars@, pieces@).take(i as int)),
        decreases pieces@.len() - i,
    {
        let piece = pieces[i];
        let name = trim_span(chars, piece);
        proof {
            let upto = cuts(chars@, pieces@).take(i + 1);
            assert(upto.drop_last() =~= cuts(chars@, pieces@).take(i as int));
            assert(upto.last() == cut(chars@, piece));
        }
        if name.start < name.end {
            let ghost had = texts(names@);
            names.push(string_at(text, chars, name));
            proof {
                assert(texts(names@) =~= had.push(cut(chars@, name)));
                let kept = kept_names(cuts(chars@, pieces@).take(i as int));
                assert((before + kept).push(cut(chars@, name)) =~= before + kept.push(
                    cut(chars@, name),
                ));
            }
        }
        i += 1;
    }
    proof {
        assert(cuts(chars@, pieces@).take(i as int) =~= cuts(chars@, pieces@));
    }
}

/// The names in a list of authors.
fn author_names(text: &str, chars: &Vec<char>, list: Span) -> (names: Vec<String>)
    requires
        chars@ == text@,
        list.start <= list.end <= chars@.len(),
    ensures
        texts(names@) == names_in(cut(chars@, list)),
{
    let and = chars_of(" and ");
    let comma = chars_of(", ");
    proof {
        reveal_strlit(" and ");
        reveal_strlit(", ");
    }
    let groups = split_spans(chars, list, &and);
    let mut names: Vec<String> = Vec::new();
    let mut i: usize = 0;
    proof {
        assert(cuts(chars@, groups@).take(0) =~= Seq::<Seq<char>>::empty());
        assert(texts(names@) =~= Seq::<Seq<char>>::empty());
    }
    while i < groups.len()
        invariant
            i <= groups@.len(),
            chars@ == text@,
            comma@ == ", "@,
            comma@.len() > 0,
            list.end <= chars@.len(),
            forall|k: int| 0 <= k < groups@.len() ==> within(#[trigger] groups@[k], list),
            texts(names@) == names_of_groups(cuts(chars@, groups@).take(i as int)),
        decreases groups@.len() - i,
    {
        let group = groups[i];
        assert(within(groups@[i as int], list));
        let pieces = split_spans(chars, group, &comma);
        proof {
            let upto = cuts(chars@, groups@).take(i + 1);
            assert(upto.drop_last() =~= cuts(chars@, groups@).take(i as int));
            assert(upto.last() == cut(chars@, group));
            assert forall|k: int| 0 <= k < pieces@.len() implies (#[trigger] pieces@[k]).start
                <= pieces@[k].end <= chars@.len() by {
                assert(within(pieces@[k], group));
            }
        }
        names_of_pieces(text, chars, &pieces, &mut names);
        i += 1;
    }
    proof {
        assert(cuts(chars@, groups@).take(i as int) =~= cuts(chars@, groups@));
    }
    names
}

/// The span of the section in the text, if the text has the heading.
fn section_span(chars: &Vec<char>) -> (section: Option<Span>)
    ensures
        section is Some == first_occurrence(chars@, HEADING@) is Some,
        section matches Some(span) ==> span.start <= span.end <= chars@.len() && cut(chars@, span)
            == related_section(chars@),
{
    let heading = chars_of(HEADING);
    let next = chars_of(NEXT_HEADING);
    proof {
        assert(chars@.subrange(0, chars@.len() as int) =~= chars@);
    }
    let start = match find_in(chars, 0, chars.len(), &heading) {
        Some(start) => start,
        None => {
            return None;
        },
    };
    let body: usize = start + heading.len();
    match find_in(chars, body, chars.len(), &next) {
        Some(end) => {
            Some(Span { start, end })
        },
        None => Some(Span { start, end: chars.len() }),
    }
}

/// The entries once the open one is closed.
fn close(done: &mut Vec<RelatedPaper>, open: Option<RelatedPaper>)
    ensures
        final(done)@ == match open {
            Some(paper) => if paper.title@.len() > 0 {
                old(done)@.push(paper)
            } else {
                old(done)@
            },
            None => old(done)@,
        },
        entries_of(final(done)@) == closed(
            Draft {
                done: entries_of(old(done)@),
                open: match open {
                    Some(paper) => Some(entry_of(paper)),
                    None => None,
                },
            },
        ),
{
    let ghost before = entries_of(done@);
    if let Some(paper) = open {
        if !paper.title.as_str().is_empty() {
            done.push(paper);
            proof {
                assert(entries_of(done@) =~= before.push(entry_of(paper)));
            }
        }
    }
}

/// What an optional related paper says.
pub open spec fn open_entry(open: Option<RelatedPaper>) -> Option<RelatedEntry> {
    match open {
        Some(paper) => Some(entry_of(paper)),
        None => None,
    }
}

/// Reads the entries of the section on related work in a summary. The
/// papers come unlinked: none names a record of the vault.
pub fn extract_related_papers(response: &str) -> (related: Vec<RelatedPaper>)
    ensures
        entries_of(related@) == related_in(response@),
        forall|i: int| 0 <= i < related@.len() ==> (#[trigger] related@[i]).vault_citekey is None,
{
    let chars = chars_of(response);
    let mut done: Vec<RelatedPaper> = Vec::new();
    let section = match section_span(&chars) {
        Some(section) => section,
        None => {
            proof {
                assert(entries_of(done@) =~= Seq::<RelatedEntry>::empty());
            }
            return done;
        },
    };
    let newline = chars_of("\n");
    let title_tag = chars_of(TITLE_TAG);
    let authors_tag = chars_of(AUTHORS_TAG);
    let year_tag = chars_of(YEAR_TAG);
    let reason_tag = chars_of(REASON_TAG);
    proof {
        reveal_strlit("\n");
        assert(newline@ =~= seq!['\n']);
    }
    let lines = split_spans(&chars, section, &newline);
    let mut open: Option<RelatedPaper> = None;
    let mut i: usize = 0;
    proof {
        assert(cuts(chars@, lines@).take(0) =~= Seq::<Seq<char>>::empty());
        assert(entries_of(done@) =~= Seq::<RelatedEntry>::empty());
    }
    while i < lines.len()
        invariant
            i <= lines@.len(),
            chars@ == response@,
            section.end <= chars@.len(),
            title_tag@ == TITLE_TAG@,
            authors_tag@ == AUTHORS_TAG@,
            year_tag@ == YEAR_TAG@,
            reason_tag@ == REASON_TAG@,
            forall|k: int| 0 <= k < lines@.len() ==> within(#[trigger] lines@[k], section),
            after_lines(cuts(chars@, lines@).take(i as int)) == (Draft {
                done: entries_of(done@),
                open: open_entry(open),
            }),
            forall|k: int| 0 <= k < done@.len() ==> (#[trigger] done@[k]).vault_citekey is None,
            open matches Some(paper) ==> paper.vault_citekey is None,
        decreases lines@.len() - i,
    {
        assert(within(lines@[i as int], section));
        let line = trim_span(&chars, lines[i]);
        proof {
            let upto = cuts(chars@, lines@).take(i + 1);
            assert(upto.drop_last() =~= cuts(chars@, lines@).take(i as int));
            assert(upto.last() == cut(chars@, lines@[i as int]));
        }
        if starts_with(&chars, line, &title_tag) {
            let title = string_at(response, &chars, value_span(&chars, line, &title_tag));
            close(&mut done, open);
            open = Some(
                RelatedPaper {
                    title,
                    authors: Vec::new(),
                    year: None,
                    why_related: String::new(),
                    vault_citekey: None,
                },
            );
            proof {
                assert(texts(open->0.authors@) =~= Seq::<Seq<char>>::empty());
            }
        } else if let Some(paper) = open {
            if starts_with(&chars, line, &authors_tag) {
                let authors = author_names(
                    response,
                    &chars,
                    value_span(&chars, line, &authors_tag),
                );
                open = Some(
                    RelatedPaper {
                        title: paper.title,
                        authors,
                        year: paper.year,
                        why_related: paper.why_related,
                        vault_citekey: paper.vault_citekey,
                    },
                );
            } else if starts_with(&chars, line, &year_tag) {
                let year = parse_i32(&chars, value_span(&chars, line, &year_tag));
                open = Some(
                    RelatedPaper {
                        title: paper.title,
                        authors: paper.authors,
                        year,
                        why_related: paper.why_related,
                        vault_citekey: paper.vault_citekey,
                    },
                );
            } else if starts_with(&chars, line, &reason_tag) {
                let why_related = string_at(
                    response,
                    &chars,
                    value_span(&chars, line, &reason_tag),
                );
                open = Some(
                    RelatedPaper {
                        title: paper.title,
                        authors: paper.authors,
                        year: paper.year,
                        why_related,
                        vault_citekey: paper.vault_citekey,
                    },
                );
            } else {
                open = Some(paper);
            }
        }
        i += 1;
    }
    proof {
        assert(cuts(chars@, lines@).take(i as int) =~= cuts(chars@, lines@));
    }
    close(&mut done, open);
    done
}

} // verus!
