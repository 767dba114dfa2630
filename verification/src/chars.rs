//! Parsing helpers on sequences of characters: search, splitting,
//! trimming and numbers, all by index ranges into one vector.

use crate::outside::alphanumeric;
use crate::text::{is_space, joined, leading_spaces, occurs_at, trailing_spaces, trimmed};
use vstd::prelude::*;
use vstd::string::*;

verus! {

/// The characters of a text.
pub fn chars_of(text: &str) -> (chars: Vec<char>)
    ensures
        chars@ == text@,
{
    let mut chars: Vec<char> = Vec::new();
    for c in it: text.chars()
        invariant
            chars@ == it.seq().take(it.index() as int),
            it.seq() == text@,
    {
        chars.push(c);
    }
    chars
}

/// The first index at which `needle` occurs in `hay`, if it occurs at all.
pub open spec fn first_occurrence<T>(hay: Seq<T>, needle: Seq<T>) -> Option<int>
    decreases hay.len(),
{
    if occurs_at(hay, needle, 0) {
        Some(0)
    } else if hay.len() == 0 {
        None
    } else {
        match first_occurrence(hay.drop_first(), needle) {
            Some(at) => Some(at + 1),
            None => None,
        }
    }
}

proof fn lemma_occurs_shifted<T>(hay: Seq<T>, needle: Seq<T>, at: int)
    requires
        hay.len() > 0,
        at >= 0,
    ensures
        occurs_at(hay.drop_first(), needle, at) == occurs_at(hay, needle, at + 1),
{
    if at + needle.len() <= hay.len() - 1 {
        assert(hay.drop_first().subrange(at, at + needle.len()) =~= hay.subrange(
            at + 1,
            at + 1 + needle.len(),
        ));
    }
}

/// `first_occurrence` finds an occurrence before which there is none,
/// and finds nothing only where there is no occurrence.
pub proof fn lemma_first_occurrence<T>(hay: Seq<T>, needle: Seq<T>)
    ensures
        match first_occurrence(hay, needle) {
            Some(at) => occurs_at(hay, needle, at) && forall|earlier: int|
                0 <= earlier < at ==> !occurs_at(hay, needle, earlier),
            None => forall|at: int| !occurs_at(hay, needle, at),
        },
    decreases hay.len(),
{
    if occurs_at(hay, needle, 0) {
    } else if hay.len() == 0 {
    } else {
        lemma_first_occurrence(hay.drop_first(), needle);
        match first_occurrence(hay.drop_first(), needle) {
            Some(at) => {
                lemma_occurs_shifted(hay, needle, at);
                assert forall|earlier: int| 0 <= earlier < at + 1 implies !occurs_at(
                    hay,
                    needle,
                    earlier,
                ) by {
                    if earlier > 0 {
                        lemma_occurs_shifted(hay, needle, earlier - 1);
                    }
                }
            },
            None => {
                assert forall|at: int| !occurs_at(hay, needle, at) by {
                    if at > 0 {
                        lemma_occurs_shifted(hay, needle, at - 1);
                    }
                }
            },
        }
    }
}

/// An occurrence before which there is none is the first occurrence.
pub proof fn lemma_first_occurrence_is(hay: Seq<char>, needle: Seq<char>, at: int)
    requires
        occurs_at(hay, needle, at),
        forall|earlier: int| 0 <= earlier < at ==> !occurs_at(hay, needle, earlier),
    ensures
        first_occurrence(hay, needle) == Some(at),
{
    lemma_first_occurrence(hay, needle);
}

/// Whether `needle` occurs in the range `from..to` of `chars` at `at`.
pub fn matches_in(chars: &Vec<char>, from: usize, to: usize, needle: &Vec<char>, at: usize) -> (hit:
    bool)
    requires
        from <= at <= to <= chars@.len(),
    ensures
        hit == occurs_at(chars@.subrange(from as int, to as int), needle@, at - from),
{
    if needle.len() > to - at {
        return false;
    }
    let ghost range = chars@.subrange(from as int, to as int);
    let mut k: usize = 0;
    while k < needle.len()
        invariant
            k <= needle@.len(),
            from <= at,
            at + needle@.len() <= to <= chars@.len(),
            range == chars@.subrange(from as int, to as int),
            forall|j: int| 0 <= j < k ==> chars@[at + j] == needle@[j],
        decreases needle@.len() - k,
    {
        if chars[at + k] != needle[k] {
            proof {
                let window = range.subrange(at - from, at - from + needle@.len());
                assert(window[k as int] == chars@[at + k]);
            }
            return false;
        }
        k += 1;
    }
    proof {
        assert(range.subrange(at - from, at - from + needle@.len()) =~= needle@);
    }
    true
}

/// The first place in the range `from..to` of `chars` at which `needle`
/// occurs, counted from the start of `chars`.
pub fn find_in(chars: &Vec<char>, from: usize, to: usize, needle: &Vec<char>) -> (found: Option<
    usize,
>)
    requires
        from <= to <= chars@.len(),
    ensures
        match found {
            Some(at) => from <= at && at + needle@.len() <= to && first_occurrence(
                chars@.subrange(from as int, to as int),
                needle@,
            ) == Some(at - from),
            None => first_occurrence(chars@.subrange(from as int, to as int), needle@) is None,
        },
{
    let ghost range = chars@.subrange(from as int, to as int);
    proof {
        lemma_first_occurrence(range, needle@);
    }
    if needle.len() > to - from {
        return None;
    }
    let last: usize = to - needle.len();
    let mut at: usize = from;
    loop
        invariant
            from <= at <= last,
            last == to - needle@.len(),
            to <= chars@.len(),
            range == chars@.subrange(from as int, to as int),
            forall|earlier: int| 0 <= earlier < at - from ==> !occurs_at(range, needle@, earlier),
        decreases last - at,
    {
        if matches_in(chars, from, to, needle, at) {
            proof {
                lemma_first_occurrence_is(range, needle@, at - from);
            }
            return Some(at);
        }
        if at == last {
            proof {
                lemma_first_occurrence(range, needle@);
            }
            return None;
        }
        at += 1;
    }
}

/// A range of indices into a vector of characters.
#[derive(Clone, Copy, Debug, PartialEq, Eq, Structural)]
pub struct Span {
    pub start: usize,
    pub end: usize,
}

/// The span lies inside `outer`, start before end.
pub open spec fn within(span: Span, outer: Span) -> bool {
    outer.start <= span.start <= span.end <= outer.end
}

/// The characters that a span covers.
pub open spec fn cut(chars: Seq<char>, span: Span) -> Seq<char> {
    chars.subrange(span.start as int, span.end as int)
}

/// The characters that each of the spans covers.
pub open spec fn cuts(chars: Seq<char>, spans: Seq<Span>) -> Seq<Seq<char>> {
    Seq::new(spans.len(), |i: int| cut(chars, spans[i]))
}

/// The pieces of `text` between the occurrences of `separator`, found
/// from left to right without overlap. A text without the separator is
/// one piece.
pub open spec fn split_on(text: Seq<char>, separator: Seq<char>) -> Seq<Seq<char>>
    decreases text.len(),
{
    match first_occurrence(text, separator) {
        Some(at) => if separator.len() > 0 && 0 <= at && at + separator.len() <= text.len() {
            seq![text.take(at)] + split_on(text.skip(at + separator.len()), separator)
        } else {
            seq![text]
        },
        None => seq![text],
    }
}

/// The spans of the pieces of a span between the occurrences of `separator`.
pub fn split_spans(chars: &Vec<char>, span: Span, separator: &Vec<char>) -> (pieces: Vec<Span>)
    requires
        span.start <= span.end <= chars@.len(),
        separator@.len() > 0,
    ensures
        cuts(chars@, pieces@) == split_on(cut(chars@, span), separator@),
        pieces@.len() >= 1,
        forall|k: int| 0 <= k < pieces@.len() ==> within(#[trigger] pieces@[k], span),
{
    let mut pieces: Vec<Span> = Vec::new();
    let mut from: usize = span.start;
    proof {
        assert(cuts(chars@, pieces@) =~= Seq::<Seq<char>>::empty());
        assert(cuts(chars@, pieces@) + split_on(cut(chars@, span), separator@) =~= split_on(
            cut(chars@, span),
            separator@,
        ));
    }
    loop
        invariant
            span.start <= from <= span.end <= chars@.len(),
            separator@.len() > 0,
            split_on(cut(chars@, span), separator@) == cuts(chars@, pieces@) + split_on(
                chars@.subrange(from as int, span.end as int),
                separator@,
            ),
            forall|k: int| 0 <= k < pieces@.len() ==> within(#[trigger] pieces@[k], span),
        decreases span.end - from,
    {
        let ghost rest = chars@.subrange(from as int, span.end as int);
        let ghost before = cuts(chars@, pieces@);
        match find_in(chars, from, span.end, separator) {
            Some(at) => {
                let piece = Span { start: from, end: at };
                pieces.push(piece);
                let next: usize = at + separator.len();
                proof {
                    assert(rest.take(at - from) =~= cut(chars@, piece));
                    assert(rest.skip(at - from + separator@.len()) =~= chars@.subrange(
                        next as int,
                        span.end as int,
                    ));
                    let after = split_on(chars@.subrange(next as int, span.end as int), separator@);
                    assert(cuts(chars@, pieces@) =~= before + seq![cut(chars@, piece)]);
                    assert(before + (seq![cut(chars@, piece)] + after) =~= (before + seq![
                        cut(chars@, piece),
                    ]) + after);
                }
                from = next;
            },
            None => {
                let piece = Span { start: from, end: span.end };
                pieces.push(piece);
                proof {
                    assert(cuts(chars@, pieces@) =~= before + seq![rest]);
                }
                return pieces;
            },
        }
    }
}

/// The span without the white space at its beginning and at its end.
pub fn trim_span(chars: &Vec<char>, span: Span) -> (inner: Span)
    requires
        span.start <= span.end <= chars@.len(),
    ensures
        within(inner, span),
        cut(chars@, inner) == trimmed(cut(chars@, span)),
{
    let ghost text = cut(chars@, span);
    let mut start: usize = span.start;
    proof {
        assert(text.subrange(0, text.len() as int) =~= text);
    }
    while start < span.end && is_blank(chars[start])
        invariant
            span.start <= start <= span.end <= chars@.len(),
            text == cut(chars@, span),
            leading_spaces(text) == (start - span.start) + leading_spaces(
                chars@.subrange(start as int, span.end as int),
            ),
        decreases span.end - start,
    {
        proof {
            let rest = chars@.subrange(start as int, span.end as int);
            assert(rest.first() == chars@[start as int]);
            assert(rest.drop_first() =~= chars@.subrange(start + 1, span.end as int));
        }
        start += 1;
    }
    let ghost rest = chars@.subrange(start as int, span.end as int);
    proof {
        if start < span.end {
            assert(rest.first() == chars@[start as int]);
        }
        assert(leading_spaces(rest) == 0);
        assert(text.subrange(start - span.start, text.len() as int) =~= rest);
    }
    let mut end: usize = span.end;
    while end > start && is_blank(chars[end - 1])
        invariant
            span.start <= start <= end <= span.end <= chars@.len(),
            rest == chars@.subrange(start as int, span.end as int),
            trailing_spaces(rest) == (span.end - end) + trailing_spaces(
                chars@.subrange(start as int, end as int),
            ),
        decreases end - start,
    {
        proof {
            let head = chars@.subrange(start as int, end as int);
            assert(head.last() == chars@[end - 1]);
            assert(head.drop_last() =~= chars@.subrange(start as int, end - 1));
        }
        end -= 1;
    }
    proof {
        let head = chars@.subrange(start as int, end as int);
        if end > start {
            assert(head.last() == chars@[end - 1]);
        }
        assert(trailing_spaces(head) == 0);
        assert(rest.subrange(0, rest.len() - trailing_spaces(rest)) =~= head);
    }
    Span { start, end }
}

/// Whether a character is white space.
pub fn is_blank(c: char) -> (blank: bool)
    ensures
        blank == is_space(c),
{
    let code: u32 = c as u32;
    (0x09 <= code && code <= 0x0d) || code == 0x20 || code == 0x85 || code == 0xa0 || code
        == 0x1680 || (0x2000 <= code && code <= 0x200a) || code == 0x2028 || code == 0x2029
        || code == 0x202f || code == 0x205f || code == 0x3000
}

/// `text` with every copy of `prefix` taken from its beginning.
pub open spec fn without_prefixes(text: Seq<char>, prefix: Seq<char>) -> Seq<char>
    decreases text.len(),
{
    if prefix.len() > 0 && occurs_at(text, prefix, 0) {
        without_prefixes(text.skip(prefix.len() as int), prefix)
    } else {
        text
    }
}

/// The span with every copy of `prefix` taken from its beginning.
pub fn strip_prefixes(chars: &Vec<char>, span: Span, prefix: &Vec<char>) -> (rest: Span)
    requires
        span.start <= span.end <= chars@.len(),
    ensures
        within(rest, span),
        rest.end == span.end,
        cut(chars@, rest) == without_prefixes(cut(chars@, span), prefix@),
{
    if prefix.len() == 0 {
        return span;
    }
    let mut start: usize = span.start;
    while matches_in(chars, start, span.end, prefix, start)
        invariant
            span.start <= start <= span.end <= chars@.len(),
            prefix@.len() > 0,
            without_prefixes(cut(chars@, span), prefix@) == without_prefixes(
                chars@.subrange(start as int, span.end as int),
                prefix@,
            ),
        decreases span.end - start,
    {
        proof {
            let rest = chars@.subrange(start as int, span.end as int);
            assert(rest.skip(prefix@.len() as int) =~= chars@.subrange(
                start + prefix@.len(),
                span.end as int,
            ));
        }
        start += prefix.len();
    }
    Span { start, end: span.end }
}

/// Whether the span begins with `prefix`.
pub fn starts_with(chars: &Vec<char>, span: Span, prefix: &Vec<char>) -> (hit: bool)
    requires
        span.start <= span.end <= chars@.len(),
    ensures
        hit == occurs_at(cut(chars@, span), prefix@, 0),
{
    matches_in(chars, span.start, span.end, prefix, span.start)
}

/// The value of a decimal digit.
pub open spec fn digit_value(c: char) -> Option<int> {
    if '0' <= c <= '9' {
        Some(c as int - '0' as int)
    } else {
        None
    }
}

/// The number that a run of decimal digits writes; `None` if the run is
/// empty or holds anything but digits.
pub open spec fn digits_value(digits: Seq<char>) -> Option<int>
    decreases digits.len(),
{
    if digits.len() == 0 {
        None
    } else if digits.len() == 1 {
        digit_value(digits[0])
    } else {
        match (digits_value(digits.drop_last()), digit_value(digits.last())) {
            (Some(high), Some(low)) => Some(high * 10 + low),
            _ => None,
        }
    }
}

/// The whole number that a text writes: decimal digits, with or without
/// a sign before them; `None` if the text is anything else.
pub open spec fn signed_value(text: Seq<char>) -> Option<int> {
    if text.len() > 0 && text[0] == '-' {
        match digits_value(text.drop_first()) {
            Some(value) => Some(-value),
            None => None,
        }
    } else if text.len() > 0 && text[0] == '+' {
        digits_value(text.drop_first())
    } else {
        digits_value(text)
    }
}

/// The 32-bit number that a text writes, if it writes a whole number
/// that fits.
pub open spec fn i32_value(text: Seq<char>) -> Option<i32> {
    match signed_value(text) {
        Some(value) => if i32::MIN <= value <= i32::MAX {
            Some(value as i32)
        } else {
            None
        },
        None => None,
    }
}

spec fn capped(value: int) -> int {
    if value <= 0x8000_0000 {
        value
    } else {
        0x8000_0001
    }
}

proof fn lemma_digits_value_grows(digits: Seq<char>)
    ensures
        digits_value(digits) matches Some(value) ==> value >= 0,
        digits.len() > 1 && digits_value(digits) is Some ==> digits_value(digits).unwrap()
            >= digits_value(digits.drop_last()).unwrap(),
    decreases digits.len(),
{
    if digits.len() > 1 {
        lemma_digits_value_grows(digits.drop_last());
    }
}

/// Reads the span as a 32-bit whole number in decimal notation.
pub fn parse_i32(chars: &Vec<char>, span: Span) -> (number: Option<i32>)
    requires
        span.start <= span.end <= chars@.len(),
    ensures
        number == i32_value(cut(chars@, span)),
{
    let ghost text = cut(chars@, span);
    if span.start == span.end {
        return None;
    }
    let first = chars[span.start];
    proof {
        assert(text[0] == first);
    }
    let negative = first == '-';
    let from: usize = if first == '-' || first == '+' {
        span.start + 1
    } else {
        span.start
    };
    let ghost digits = chars@.subrange(from as int, span.end as int);
    proof {
        if from > span.start {
            assert(text.drop_first() =~= digits);
        } else {
            assert(text =~= digits);
        }
    }
    if from == span.end {
        return None;
    }
    // the value read so far, or one beyond every 32-bit magnitude
    let limit: i64 = 0x8000_0000;
    let mut value: i64 = 0;
    let mut i: usize = from;
    while i < span.end
        invariant
            from <= i <= span.end <= chars@.len(),
            digits == chars@.subrange(from as int, span.end as int),
            limit == 0x8000_0000,
            digits_value(digits) is None ==> i32_value(cut(chars@, span)) is None,
            0 <= value <= limit + 1,
            i > from ==> digits_value(chars@.subrange(from as int, i as int)) is Some && value
                == capped(digits_value(chars@.subrange(from as int, i as int)).unwrap()),
            i == from ==> value == 0,
        decreases span.end - i,
    {
        let c = chars[i];
        let ghost upto = chars@.subrange(from as int, i + 1);
        proof {
            assert(upto.last() == c);
            assert(upto.drop_last() =~= chars@.subrange(from as int, i as int));
            assert(upto.len() == 1 ==> upto[0] == c);
        }
        if !('0' <= c && c <= '9') {
            proof {
                assert(digit_value(c) is None);
                assert(digits_value(upto) is None);
                assert(digits.take(i + 1 - from) =~= upto);
                lemma_digits_none_from(digits, i + 1 - from);
            }
            return None;
        }
        let low: i64 = (c as u32 - '0' as u32) as i64;
        proof {
            lemma_digits_value_grows(upto);
        }
        if value > limit {
            value = limit + 1;
        } else {
            value = value * 10 + low;
            if value > limit {
                value = limit + 1;
            }
        }
        i += 1;
    }
    proof {
        assert(chars@.subrange(from as int, i as int) =~= digits);
    }
    if negative {
        if value <= limit {
            Some((-value) as i32)
        } else {
            None
        }
    } else {
        if value < limit {
            Some(value as i32)
        } else {
            None
        }
    }
}

proof fn lemma_digits_none_from(digits: Seq<char>, upto: int)
    requires
        0 < upto <= digits.len(),
        digits_value(digits.take(upto)) is None,
    ensures
        digits_value(digits) is None,
    decreases digits.len() - upto,
{
    if upto < digits.len() {
        assert(digits.take(upto + 1).drop_last() =~= digits.take(upto));
        lemma_digits_none_from(digits, upto + 1);
    } else {
        assert(digits.take(upto) =~= digits);
    }
}

/// The words of a text: its longest runs of characters that are no
/// white space, in order.
pub open spec fn words_of(text: Seq<char>) -> Seq<Seq<char>>
    decreases text.len(),
{
    if text.len() == 0 {
        Seq::empty()
    } else {
        let before = words_of(text.drop_last());
        if is_space(text.last()) {
            before
        } else if text.len() >= 2 && !is_space(text[text.len() - 2]) && before.len() > 0 {
            before.drop_last().push(before.last().push(text.last()))
        } else {
            before.push(seq![text.last()])
        }
    }
}

/// The words so far and the word that is being read.
spec fn words_with(done: Seq<Seq<char>>, word: Option<Seq<char>>) -> Seq<Seq<char>> {
    match word {
        Some(word) => done.push(word),
        None => done,
    }
}

/// The spans of the words of a span.
pub fn word_spans(chars: &Vec<char>, span: Span) -> (words: Vec<Span>)
    requires
        span.start <= span.end <= chars@.len(),
    ensures
        cuts(chars@, words@) == words_of(cut(chars@, span)),
        forall|k: int|
            0 <= k < words@.len() ==> within(#[trigger] words@[k], span) && words@[k].start
                < words@[k].end,
{
    let mut words: Vec<Span> = Vec::new();
    let mut start: usize = span.start;
    let mut reading: bool = false;
    let mut i: usize = span.start;
    proof {
        assert(cuts(chars@, words@) =~= Seq::<Seq<char>>::empty());
        assert(chars@.subrange(span.start as int, i as int) =~= Seq::<char>::empty());
    }
    while i < span.end
        invariant
            span.start <= start <= i <= span.end <= chars@.len(),
            reading == (i > span.start && !is_space(chars@[i - 1])),
            reading ==> start < i,
            words_of(chars@.subrange(span.start as int, i as int)) == words_with(
                cuts(chars@, words@),
                if reading {
                    Some(chars@.subrange(start as int, i as int))
                } else {
                    None
                },
            ),
            forall|k: int|
                0 <= k < words@.len() ==> within(#[trigger] words@[k], span) && words@[k].start
                    < words@[k].end,
        decreases span.end - i,
    {
        let c = chars[i];
        let ghost upto = chars@.subrange(span.start as int, i + 1);
        let ghost done = cuts(chars@, words@);
        proof {
            assert(upto.drop_last() =~= chars@.subrange(span.start as int, i as int));
            assert(upto.last() == c);
            if i > span.start {
                assert(upto[upto.len() - 2] == chars@[i - 1]);
            }
        }
        if is_blank(c) {
            if reading {
                words.push(Span { start, end: i });
                proof {
                    assert(cuts(chars@, words@) =~= done.push(
                        chars@.subrange(start as int, i as int),
                    ));
                }
            }
            reading = false;
        } else {
            if !reading {
                start = i;
                proof {
                    assert(chars@.subrange(i as int, i + 1) =~= seq![c]);
                }
            } else {
                proof {
                    let word = chars@.subrange(start as int, i as int);
                    assert(done.push(word).drop_last() =~= done);
                    assert(word.push(c) =~= chars@.subrange(start as int, i + 1));
                }
            }
            reading = true;
        }
        i += 1;
    }
    if reading {
        let ghost done = cuts(chars@, words@);
        words.push(Span { start, end: i });
        proof {
            assert(cuts(chars@, words@) =~= done.push(chars@.subrange(start as int, i as int)));
        }
    }
    words
}

/// The characters of a span that are letters or numbers, in order.
pub fn keep_alphanumeric(chars: &Vec<char>, span: Span) -> (kept: Vec<char>)
    requires
        span.start <= span.end <= chars@.len(),
    ensures
        kept@ == cut(chars@, span).filter(|c: char| alphanumeric(c)),
{
    let ghost wanted = |c: char| alphanumeric(c);
    let mut kept: Vec<char> = Vec::new();
    let mut i: usize = span.start;
    proof {
        reveal(Seq::filter);
        assert(chars@.subrange(span.start as int, i as int) =~= Seq::<char>::empty());
    }
    while i < span.end
        invariant
            span.start <= i <= span.end <= chars@.len(),
            wanted == |c: char| alphanumeric(c),
            kept@ == chars@.subrange(span.start as int, i as int).filter(wanted),
        decreases span.end - i,
    {
        let c = chars[i];
        proof {
            reveal(Seq::filter);
            let upto = chars@.subrange(span.start as int, i + 1);
            assert(upto.drop_last() =~= chars@.subrange(span.start as int, i as int));
            assert(upto.last() == c);
        }
        if c.is_alphanumeric() {
            kept.push(c);
        }
        i += 1;
    }
    kept
}

/// The characters that are letters, numbers or white space, in order.
pub fn keep_word_chars(chars: &Vec<char>) -> (kept: Vec<char>)
    ensures
        kept@ == chars@.filter(|c: char| alphanumeric(c) || is_space(c)),
{
    let ghost wanted = |c: char| alphanumeric(c) || is_space(c);
    let mut kept: Vec<char> = Vec::new();
    let mut i: usize = 0;
    proof {
        reveal(Seq::filter);
        assert(chars@.take(0) =~= Seq::<char>::empty());
    }
    while i < chars.len()
        invariant
            i <= chars@.len(),
            wanted == |c: char| alphanumeric(c) || is_space(c),
            kept@ == chars@.take(i as int).filter(wanted),
        decreases chars@.len() - i,
    {
        let c = chars[i];
        proof {
            reveal(Seq::filter);
            let upto = chars@.take(i + 1);
            assert(upto.drop_last() =~= chars@.take(i as int));
            assert(upto.last() == c);
        }
        if c.is_alphanumeric() || is_blank(c) {
            kept.push(c);
        }
        i += 1;
    }
    proof {
        assert(chars@.take(i as int) =~= chars@);
    }
    kept
}

/// Appends the characters of a span to a string.
pub fn push_span(text: &mut String, chars: &Vec<char>, span: Span)
    requires
        span.start <= span.end <= chars@.len(),
    ensures
        final(text)@ == old(text)@ + cut(chars@, span),
{
    let mut i: usize = span.start;
    proof {
        assert(text@ + chars@.subrange(span.start as int, i as int) =~= text@);
    }
    while i < span.end
        invariant
            span.start <= i <= span.end <= chars@.len(),
            text@ == old(text)@ + chars@.subrange(span.start as int, i as int),
        decreases span.end - i,
    {
        text.push(chars[i]);
        proof {
            assert(chars@.subrange(span.start as int, i + 1) =~= chars@.subrange(
                span.start as int,
                i as int,
            ).push(chars@[i as int]));
        }
        i += 1;
    }
}

/// The characters of a span as a string.
pub fn string_of(chars: &Vec<char>, span: Span) -> (text: String)
    requires
        span.start <= span.end <= chars@.len(),
    ensures
        text@ == cut(chars@, span),
{
    let mut text = String::new();
    push_span(&mut text, chars, span);
    proof {
        assert(Seq::<char>::empty() + cut(chars@, span) =~= cut(chars@, span));
    }
    text
}

/// Whether two spans, each in its own vector, hold the same characters.
pub fn same_chars(left: &Vec<char>, a: Span, right: &Vec<char>, b: Span) -> (same: bool)
    requires
        a.start <= a.end <= left@.len(),
        b.start <= b.end <= right@.len(),
    ensures
        same == (cut(left@, a) == cut(right@, b)),
{
    if a.end - a.start != b.end - b.start {
        proof {
            assert(cut(left@, a).len() != cut(right@, b).len());
        }
        return false;
    }
    let len: usize = a.end - a.start;
    let mut k: usize = 0;
    while k < len
        invariant
            k <= len,
            len == a.end - a.start,
            len == b.end - b.start,
            a.end <= left@.len(),
            b.end <= right@.len(),
            forall|j: int| 0 <= j < k ==> #[trigger] cut(left@, a)[j] == cut(right@, b)[j],
        decreases len - k,
    {
        proof {
            assert(cut(left@, a)[k as int] == left@[a.start + k]);
            assert(cut(right@, b)[k as int] == right@[b.start + k]);
        }
        if left[a.start + k] != right[b.start + k] {
            return false;
        }
        k += 1;
    }
    proof {
        assert(cut(left@, a) =~= cut(right@, b));
    }
    true
}

/// The texts of the spans, in order, with `separator` between each two.
pub fn join_spans(chars: &Vec<char>, spans: &Vec<Span>, separator: &str) -> (text: String)
    requires
        forall|k: int|
            0 <= k < spans@.len() ==> (#[trigger] spans@[k]).start <= spans@[k].end
                <= chars@.len(),
    ensures
        text@ == joined(cuts(chars@, spans@), separator@),
{
    let mut text = String::new();
    let mut i: usize = 0;
    proof {
        assert(cuts(chars@, spans@).take(0) =~= Seq::<Seq<char>>::empty());
    }
    while i < spans.len()
        invariant
            i <= spans@.len(),
            forall|k: int|
                0 <= k < spans@.len() ==> (#[trigger] spans@[k]).start <= spans@[k].end
                    <= chars@.len(),
            text@ == joined(cuts(chars@, spans@).take(i as int), separator@),
        decreases spans@.len() - i,
    {
        proof {
            let upto = cuts(chars@, spans@).take(i + 1);
            assert(upto.drop_last() =~= cuts(chars@, spans@).take(i as int));
            assert(upto.last() == cut(chars@, spans@[i as int]));
            assert(Seq::<char>::empty() + cut(chars@, spans@[i as int]) =~= cut(
                chars@,
                spans@[i as int],
            ));
        }
        if i > 0 {
            text.append(separator);
        }
        push_span(&mut text, chars, spans[i]);
        i += 1;
    }
    proof {
        assert(cuts(chars@, spans@).take(i as int) =~= cuts(chars@, spans@));
    }
    text
}

} // verus!
