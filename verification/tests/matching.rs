use marginalia::chars::{chars_of, word_spans, Span};
use marginalia::citekey::{
    add_related_paper, bibtex_entry, find_key, generate_citekey, i32_to_text, pick_free_key,
    AddRelatedPaperRequest,
};
use marginalia::matching::{
    authors_match, auto_link_related_papers, find_vault_match, normalize_author, normalize_title,
    titles_match,
};
use marginalia::models::{Paper, PaperStatus, RelatedPaper};

#[test]
fn titles_are_normalized() {
    assert_eq!(normalize_title("Deep Learning: A Survey"), "deep learning a survey");
    assert_eq!(normalize_title("  Attention   Is\tAll\nYou Need!  "), "attention is all you need");
    assert_eq!(normalize_title("State-of-the-Art"), "stateoftheart");
    assert_eq!(normalize_title("GPT-4 & Co. (2023)"), "gpt4 co 2023");
    assert_eq!(normalize_title("\u{c9}tude N\u{b0}1"), "\u{e9}tude n1");
    assert_eq!(normalize_title("?!"), "");
    assert_eq!(normalize_title(""), "");
    // lower case is made before anything is left out
    assert_eq!(normalize_title("\u{130}"), "i");
}

#[test]
fn authors_are_normalized_to_their_last_name() {
    assert_eq!(normalize_author("Smith, John"), "smith");
    assert_eq!(normalize_author("John Smith"), "smith");
    assert_eq!(normalize_author("  van der Waals ,  J. D."), "vanderwaals");
    assert_eq!(normalize_author("Jean-Paul O'Neil"), "oneil");
    assert_eq!(normalize_author("Plato"), "plato");
    assert_eq!(normalize_author("M\u{fc}ller, K."), "m\u{fc}ller");
    assert_eq!(normalize_author(", John"), "");
    assert_eq!(normalize_author("   "), "");
    assert_eq!(normalize_author(""), "");
}

#[test]
fn words_are_found_as_the_standard_library_finds_them() {
    for text in ["", " ", "one", " one  two\tthree\n", "a b", "\u{a0}x\u{3000}y z ", "  lead", "trail  "] {
        let chars = chars_of(text);
        let words = word_spans(&chars, Span { start: 0, end: chars.len() });
        let found: Vec<String> =
            words.iter().map(|span| chars[span.start..span.end].iter().collect()).collect();
        let expected: Vec<&str> = text.split_whitespace().collect();
        assert_eq!(found, expected, "{:?}", text);
    }
}

#[test]
fn titles_match_when_equal_or_by_their_first_words() {
    assert!(titles_match("deep learning", "deep learning"));
    assert!(titles_match("", ""));
    assert!(titles_match("a", "a"));
    // the first five words agree
    assert!(titles_match(
        "attention is all you need for translation",
        "attention is all you need"
    ));
    assert!(titles_match("one two three", "one two  three"));
    // fewer than three words
    assert!(!titles_match("deep  learning", "deep learning"));
    // one of them is too short
    assert!(!titles_match("a b c", "a  b c"));
    assert!(!titles_match("a b c d e f", "a b c d"));
    // the fifth word differs
    assert!(!titles_match("one two three four five six", "one two three four fife six"));
    assert!(!titles_match("one two three four", "one two three four five"));
    // the sixth does not count
    assert!(titles_match("one two three four five six", "one two three four five seven"));
    assert!(authors_match("smith", "smith"));
    assert!(!authors_match("smith", "smyth"));
}

#[test]
fn numbers_are_written_in_decimal() {
    for number in [0, 1, 9, 10, 11, 99, 100, 2020, -1, -10, -2020, i32::MAX, i32::MIN, i32::MIN + 1] {
        assert_eq!(i32_to_text(number), number.to_string());
    }
}

#[test]
fn citekeys_are_last_name_and_year() {
    let authors = |names: &[&str]| names.iter().map(|n| n.to_string()).collect::<Vec<_>>();
    assert_eq!(generate_citekey(&authors(&["Smith, John", "Doe, Jane"]), Some(2020)), "smith2020");
    assert_eq!(generate_citekey(&authors(&["John Smith"]), Some(1999)), "smith1999");
    assert_eq!(generate_citekey(&authors(&["Jean-Paul O'Neil"]), None), "oneilnd");
    assert_eq!(generate_citekey(&authors(&[]), Some(2021)), "unknown2021");
    assert_eq!(generate_citekey(&authors(&[]), None), "unknownnd");
    assert_eq!(generate_citekey(&authors(&[""]), Some(5)), "5");
    assert_eq!(generate_citekey(&authors(&["M\u{dc}LLER, K."]), Some(-44)), "m\u{fc}ller-44");
}

fn paper(citekey: &str, title: &str, authors: &[&str], year: Option<i32>) -> Paper {
    let mut paper = Paper::new(citekey.to_string(), title.to_string(), 0);
    paper.authors = authors.iter().map(|a| a.to_string()).collect();
    paper.year = year;
    paper
}

fn vault() -> Vec<Paper> {
    vec![
        paper("vaswani2017", "Attention Is All You Need", &["Vaswani, Ashish"], Some(2017)),
        paper("lecun2015", "Deep learning", &["Yann LeCun", "Yoshua Bengio"], Some(2015)),
        paper("anon", "Untitled", &[], None),
        paper("lecun2015a", "Another Paper by LeCun", &["LeCun, Y."], Some(2015)),
    ]
}

fn related(title: &str, authors: &[&str], year: Option<i32>) -> RelatedPaper {
    RelatedPaper {
        title: title.to_string(),
        authors: authors.iter().map(|a| a.to_string()).collect(),
        year,
        why_related: "because".to_string(),
        vault_citekey: None,
    }
}

#[test]
fn related_papers_are_found_in_the_vault() {
    let vault = vault();
    // by title
    assert_eq!(
        find_vault_match(&related("attention is all you need!", &[], None), &vault),
        Some("vaswani2017".to_string())
    );
    // by first author and year; the first such record wins
    assert_eq!(
        find_vault_match(&related("Something Else", &["LeCun, Yann"], Some(2015)), &vault),
        Some("lecun2015".to_string())
    );
    // the year must agree
    assert_eq!(find_vault_match(&related("Something Else", &["LeCun, Yann"], Some(2016)), &vault), None);
    assert_eq!(find_vault_match(&related("Something Else", &["LeCun, Yann"], None), &vault), None);
    // the second author does not count
    assert_eq!(find_vault_match(&related("Something Else", &["Bengio, Y."], Some(2015)), &vault), None);
    // nothing to go by
    assert_eq!(find_vault_match(&related("", &[], None), &vault), None);
    assert_eq!(find_vault_match(&related("Untitled", &[], None), &vault), Some("anon".to_string()));
    assert_eq!(find_vault_match(&related("Untitled", &[], None), &vec![]), None);
}

#[test]
fn related_papers_are_linked() {
    let vault = vault();
    let mut linked_before = related("Unknown Work", &["Nobody"], Some(1900));
    linked_before.vault_citekey = Some("kept".to_string());
    let linked = auto_link_related_papers(
        vec![
            related("Deep Learning", &["X"], None),
            related("Unknown Work", &["Nobody"], Some(1900)),
            linked_before,
            related("Other", &["Vaswani, A."], Some(2017)),
        ],
        &vault,
    );
    let keys: Vec<Option<&str>> = linked.iter().map(|r| r.vault_citekey.as_deref()).collect();
    assert_eq!(keys, vec![Some("lecun2015"), None, Some("kept"), Some("vaswani2017")]);
    assert_eq!(linked[0].title, "Deep Learning");
    assert_eq!(linked[0].authors, vec!["X"]);
    assert_eq!(linked[3].why_related, "because");
    assert_eq!(linked[3].year, Some(2017));
}

fn request(title: &str, authors: &[&str], year: Option<i32>, source: &str) -> AddRelatedPaperRequest {
    AddRelatedPaperRequest {
        title: title.to_string(),
        authors: authors.iter().map(|a| a.to_string()).collect(),
        year,
        source_citekey: source.to_string(),
    }
}

#[test]
fn related_paper_that_exists_is_cited_once_more() {
    let mut papers = vault();
    let response = add_related_paper(&mut papers, request("Deep Learning", &[], None, "smith2020"), 9);
    assert_eq!(response.status, "exists");
    assert_eq!(response.citekey, "lecun2015");
    assert_eq!(papers.len(), 4);
    assert_eq!(papers[1].cited_by, vec!["smith2020"]);
    // a second time changes nothing
    let response = add_related_paper(&mut papers, request("Deep Learning", &[], None, "smith2020"), 9);
    assert_eq!(response.status, "exists");
    assert_eq!(papers[1].cited_by, vec!["smith2020"]);
    let response = add_related_paper(&mut papers, request("Deep Learning", &[], None, "doe2021"), 9);
    assert_eq!(response.citekey, "lecun2015");
    assert_eq!(papers[1].cited_by, vec!["smith2020", "doe2021"]);
    assert_eq!(papers[1].title, "Deep learning");
    assert!(papers[0].cited_by.is_empty());
}

#[test]
fn related_paper_that_is_new_is_added() {
    let mut papers = vault();
    let response = add_related_paper(
        &mut papers,
        request("A New Work", &["Hinton, Geoffrey", "Other, A."], Some(2006), "smith2020"),
        77,
    );
    assert_eq!(response.status, "added");
    assert_eq!(response.citekey, "hinton2006");
    assert_eq!(papers.len(), 5);
    let added = &papers[4];
    assert_eq!(added.citekey, "hinton2006");
    assert_eq!(added.title, "A New Work");
    assert_eq!(added.authors, vec!["Hinton, Geoffrey", "Other, A."]);
    assert_eq!(added.year, Some(2006));
    assert_eq!(added.status, PaperStatus::Discovered);
    assert_eq!(added.added_at, 77);
    assert_eq!(added.cited_by, vec!["smith2020"]);
    assert_eq!(added.doi, None);
    assert_eq!(added.search_attempts, 0);
}

#[test]
fn new_keys_avoid_the_keys_that_are_taken() {
    let mut papers = vault();
    // lecun2015 and lecun2015a are taken; the work itself is not in the vault
    let response = add_related_paper(
        &mut papers,
        request("Gradient-Based Learning Applied", &["LeCun, Yann"], Some(1998), "s"),
        1,
    );
    assert_eq!(response.citekey, "lecun1998");
    assert_eq!(pick_free_key(&papers, "lecun2015"), "lecun2015b");
    assert_eq!(pick_free_key(&papers, "lecun2016"), "lecun2016");
    assert_eq!(find_key(&papers, "lecun2015a"), Some(3));
    assert_eq!(find_key(&papers, "lecun2015b"), None);
}

#[test]
fn the_last_candidate_key_is_used_even_if_taken() {
    let mut papers = vec![paper("k", "zero", &[], None)];
    for letter in 'a'..='z' {
        papers.push(paper(&format!("k{}", letter), "some", &[], None));
    }
    assert_eq!(pick_free_key(&papers, "k"), "kz");
    papers.remove(5); // ke
    assert_eq!(pick_free_key(&papers, "k"), "ke");

    let mut papers = vec![paper("unknownnd", "zero", &[], Some(1))];
    for letter in 'a'..='z' {
        papers.push(paper(&format!("unknownnd{}", letter), "some", &[], Some(1)));
    }
    let response = add_related_paper(&mut papers, request("Brand New", &[], None, "src"), 5);
    assert_eq!(response.status, "added");
    assert_eq!(response.citekey, "unknownndz");
    assert_eq!(papers.len(), 27);
    assert_eq!(papers[26].title, "Brand New");
    assert_eq!(papers[26].cited_by, vec!["src"]);
}

#[test]
fn bibliography_entries() {
    assert_eq!(
        bibtex_entry(
            "hinton2006",
            "A New Work",
            &vec!["Hinton, Geoffrey".to_string(), "Other, A.".to_string()],
            Some(2006)
        ),
        "\n@article{hinton2006,\n  title = {A New Work},\n  author = {Hinton, Geoffrey and Other, A.},\n  year = {2006}\n}\n"
    );
    assert_eq!(
        bibtex_entry("k", "T", &vec![], None),
        "\n@article{k,\n  title = {T},\n  author = {},\n  year = {}\n}\n"
    );
}
