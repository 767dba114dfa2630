use marginalia::summarizer::SummarizerService;

#[test]
fn test_extract_json_pure() {
    let input = r#"{"summary": "test", "key_contributions": []}"#;
    let result = SummarizerService::extract_json(input);
    assert!(result.starts_with('{'));
    assert!(result.ends_with('}'));
}

#[test]
fn test_extract_json_with_markdown() {
    let input = r#"Here's the JSON:
```json
{"summary": "test", "key_contributions": []}
```"#;
    let result = SummarizerService::extract_json(input);
    assert!(result.starts_with('{'));
}

#[test]
fn json_object_is_cut_at_its_closing_brace() {
    assert_eq!(SummarizerService::extract_json("  {\"a\": {\"b\": 1}} and more {x}\n"), "{\"a\": {\"b\": 1}}");
    assert_eq!(SummarizerService::extract_json("{}"), "{}");
    assert_eq!(SummarizerService::extract_json("{}}"), "{}");
    // braces are counted wherever they stand, in strings too
    assert_eq!(SummarizerService::extract_json("{\"a\": \"}\"} tail"), "{\"a\": \"}");
}

#[test]
fn json_object_that_never_closes_is_not_cut() {
    assert_eq!(SummarizerService::extract_json(" {\"a\": {\"b\": 1} "), "{\"a\": {\"b\": 1}");
    assert_eq!(SummarizerService::extract_json("{"), "{");
    // an open object before a fenced block: the block is taken
    assert_eq!(SummarizerService::extract_json("{ see ```json\n{\"a\": 1}\n``` "), "{\"a\": 1}");
}

#[test]
fn json_is_taken_from_a_fenced_block() {
    assert_eq!(
        SummarizerService::extract_json("Here:\n```json\n  {\"a\": 1}\n```\nBye ```x```"),
        "{\"a\": 1}"
    );
    // the block fenced as JSON wins over an earlier plain block
    assert_eq!(
        SummarizerService::extract_json("```\nfirst\n``` then ```json {\"a\": 2} ```"),
        "{\"a\": 2}"
    );
    // a plain block, with or without a line that names a language
    assert_eq!(SummarizerService::extract_json("x ```\n{\"a\": 3}\n``` y"), "{\"a\": 3}");
    assert_eq!(SummarizerService::extract_json("x ```javascript\n {\"a\": 4} \n``` y"), "{\"a\": 4}");
    assert_eq!(SummarizerService::extract_json("x ```text\nno object\n``` y"), "text\nno object");
    assert_eq!(SummarizerService::extract_json("x ```one line``` y"), "one line");
    assert_eq!(SummarizerService::extract_json("x `````` y"), "");
}

#[test]
fn json_fence_that_is_never_closed_is_no_block() {
    assert_eq!(SummarizerService::extract_json("```json\n{\"a\": 1}"), "```json\n{\"a\": 1}");
    assert_eq!(SummarizerService::extract_json("``` only"), "``` only");
    // the opener of a JSON block that is not closed still opens a plain block
    assert_eq!(SummarizerService::extract_json("a ``` b ```json c"), "b");
}

#[test]
fn answer_without_object_or_block_is_trimmed() {
    assert_eq!(SummarizerService::extract_json("  no json here \n"), "no json here");
    assert_eq!(SummarizerService::extract_json(""), "");
    assert_eq!(SummarizerService::extract_json(" \n\t"), "");
    assert_eq!(SummarizerService::extract_json("}{"), "}{");
    assert_eq!(SummarizerService::MAX_RETRIES, 3);
}

use marginalia::adapters::filesystem::FileSystemAdapter;
use marginalia::models::Paper;
use marginalia::retry::RetryConfig;
use marginalia::summarizer::{
    ClaudeSummaryOutput, RelatedWorkEntry, SummarizationResult, SummaryAttempts, SummaryRequest,
    SummaryStage, SummaryStep,
};

fn summarized_paper() -> Paper {
    let mut paper = Paper::new("smith2020".to_string(), "Test Paper".to_string(), 0);
    paper.authors = vec!["Smith, John".to_string()];
    paper.year = Some(2020);
    paper.journal = Some("Test Journal".to_string());
    paper.doi = Some("10.1234/test".to_string());
    paper
}

#[test]
fn test_format_summary() {
    let paper = summarized_paper();

    let formatted = FileSystemAdapter::format_summary_with_frontmatter(&paper, "Summary content");
    assert!(formatted.contains("title: \"Test Paper\""));
    assert!(formatted.contains("citekey: \"smith2020\""));
    assert!(formatted.contains("Summary content"));
}

#[test]
fn summary_file_is_front_matter_and_trimmed_summary() {
    let formatted = FileSystemAdapter::format_summary_with_frontmatter(&summarized_paper(), "\n  Summary content \n");
    assert_eq!(
        formatted,
        "---\ntitle: \"Test Paper\"\nauthors: [\"Smith, John\"]\nyear: 2020\njournal: \"Test Journal\"\nciteke\
y: \"smith2020\"\ndoi: \"10.1234/test\"\nstatus: \"summarized\"\n---\n\nSummary content"
    );
    let bare = Paper::new("k".to_string(), "T".to_string(), 0);
    assert_eq!(
        SummarizerService::format_summary_with_frontmatter(&bare, ""),
        "---\ntitle: \"T\"\nauthors: []\nyear: 0\njournal: \"\"\ncitekey: \"k\"\ndoi: \"\"\nstatus: \"summarized\"\n---\n\n"
    );
}

fn full_output() -> ClaudeSummaryOutput {
    ClaudeSummaryOutput {
        summary: "An overview.".to_string(),
        key_contributions: vec!["First".to_string(), "Second".to_string()],
        methodology: Some("Survey".to_string()),
        main_results: vec!["Result".to_string()],
        limitations: Some("Small sample".to_string()),
        related_work: vec![
            RelatedWorkEntry {
                title: "Paper One".to_string(),
                authors: vec!["Smith".to_string(), "Doe".to_string()],
                year: Some(2019),
                why_related: "Foundation".to_string(),
            },
            RelatedWorkEntry {
                title: "Paper Two".to_string(),
                authors: vec![],
                year: None,
                why_related: "Extension".to_string(),
            },
        ],
    }
}

#[test]
fn structured_summary_in_markdown() {
    let markdown = SummarizerService::format_to_markdown(&summarized_paper(), &full_output());
    let front = FileSystemAdapter::format_summary_with_frontmatter(&summarized_paper(), "");
    assert_eq!(
        markdown,
        format!(
            "{}## Summary\n\nAn overview.\n\n## Key Contributions\n\n- First\n- Second\n\n## Methodology\n\nSurvey\n\n## Main Results\n\n- Result\n\n## Limitations\n\nSmall sample\n\n## Related Work\n\n- **Paper One** by Smith, Doe (2019)\n  - Foundation\n- **Paper Two**\n  - Extension\n",
            front
        )
    );
}

#[test]
fn structured_summary_leaves_out_what_is_not_given() {
    let output = ClaudeSummaryOutput {
        summary: "S".to_string(),
        key_contributions: vec![],
        methodology: None,
        main_results: vec![],
        limitations: None,
        related_work: vec![],
    };
    let markdown = SummarizerService::format_to_markdown(&summarized_paper(), &output);
    let front = FileSystemAdapter::format_summary_with_frontmatter(&summarized_paper(), "");
    assert_eq!(
        markdown,
        format!("{}## Summary\n\nS\n\n## Key Contributions\n\n\n## Main Results\n\n", front)
    );
}

#[test]
fn record_files() {
    assert_eq!(FileSystemAdapter::pdf_relative_path("smith2020"), "papers/smith2020/paper.pdf");
    assert_eq!(FileSystemAdapter::summary_relative_path("smith2020"), "papers/smith2020/summary.md");
    assert_eq!(
        FileSystemAdapter::raw_response_relative_path("smith2020"),
        "papers/smith2020/raw_response.txt"
    );
    let request = FileSystemAdapter::download_request("https://x.example/a.pdf");
    assert_eq!(request.endpoint, "");
    assert_eq!(request.url, "https://x.example/a.pdf");
    assert_eq!(request.user_agent.as_deref(), Some("Marginalia/1.0 (academic literature manager)"));
    assert_eq!(request.api_key, None);
    assert_eq!(
        request.retry,
        RetryConfig { max_retries: 3, initial_backoff: 1_000, max_backoff: 30_000, multiplier: 2 }
    );
    let _ = FileSystemAdapter::new();
}

#[test]
fn summary_that_parses_at_once() {
    let mut attempts = SummaryAttempts::new();
    assert_eq!(attempts.stage(), SummaryStage::Asking);
    let step = attempts.on_answer(&summarized_paper(), "{...}".to_string(), Ok(full_output())).unwrap();
    match step {
        SummaryStep::Finish(SummarizationResult::Success { markdown, related_papers }) => {
            assert_eq!(markdown, SummarizerService::format_to_markdown(&summarized_paper(), &full_output()));
            assert_eq!(related_papers.len(), 2);
            assert_eq!(related_papers[0].title, "Paper One");
            assert_eq!(related_papers[1].title, "Paper Two");
            assert_eq!(related_papers[0].vault_citekey, None);
        }
        other => panic!("unexpected step {:?}", other),
    }
    assert_eq!(attempts.stage(), SummaryStage::Finished);
    assert!(attempts.on_answer(&summarized_paper(), String::new(), Ok(full_output())).is_err());
    assert!(attempts.on_saved(None).is_err());
}

#[test]
fn summary_is_asked_for_three_times_then_saved() {
    let paper = summarized_paper();
    let mut attempts = SummaryAttempts::new();
    match attempts.on_answer(&paper, "one".to_string(), Err("bad 1".to_string())).unwrap() {
        SummaryStep::Ask(request) => assert_eq!(
            request,
            SummaryRequest::Retry { attempt: 2, previous_error: "bad 1".to_string() }
        ),
        other => panic!("unexpected step {:?}", other),
    }
    assert!(attempts.on_saved(Some("p".to_string())).is_err());
    match attempts.on_answer(&paper, "two".to_string(), Err("bad 2".to_string())).unwrap() {
        SummaryStep::Ask(request) => assert_eq!(
            request,
            SummaryRequest::Retry { attempt: 3, previous_error: "bad 2".to_string() }
        ),
        other => panic!("unexpected step {:?}", other),
    }
    match attempts.on_answer(&paper, "three".to_string(), Err("bad 3".to_string())).unwrap() {
        SummaryStep::SaveRaw(response) => assert_eq!(response, "three"),
        other => panic!("unexpected step {:?}", other),
    }
    assert_eq!(attempts.stage(), SummaryStage::Saving);
    assert!(attempts.on_answer(&paper, "four".to_string(), Ok(full_output())).is_err());
    match attempts.on_saved(Some("papers/smith2020/raw_response.txt".to_string())).unwrap() {
        SummarizationResult::ParseFailure { raw_response_path, error } => {
            assert_eq!(raw_response_path, "papers/smith2020/raw_response.txt");
            assert_eq!(error, "JSON parse error after 3 attempts: bad 3");
        }
        other => panic!("unexpected result {:?}", other),
    }
    assert_eq!(attempts.stage(), SummaryStage::Finished);
}

#[test]
fn summary_that_cannot_be_saved_either() {
    let paper = summarized_paper();
    let mut attempts = SummaryAttempts::new();
    for _ in 0..3 {
        attempts.on_answer(&paper, "x".to_string(), Err("still bad".to_string())).unwrap();
    }
    match attempts.on_saved(None).unwrap() {
        SummarizationResult::CliError(error) => assert_eq!(
            error,
            "Parse failed after 3 attempts and couldn't save raw response: still bad"
        ),
        other => panic!("unexpected result {:?}", other),
    }
}

#[test]
fn summary_succeeds_on_a_later_request() {
    let paper = summarized_paper();
    let mut attempts = SummaryAttempts::new();
    attempts.on_answer(&paper, "x".to_string(), Err("bad".to_string())).unwrap();
    match attempts.on_answer(&paper, "{}".to_string(), Ok(full_output())).unwrap() {
        SummaryStep::Finish(SummarizationResult::Success { .. }) => {}
        other => panic!("unexpected step {:?}", other),
    }
}

#[test]
fn assistant_failure_ends_the_summary() {
    let mut attempts = SummaryAttempts::new();
    match attempts.on_cli_error("Failed to run".to_string()) {
        SummarizationResult::CliError(error) => assert_eq!(error, "Failed to run"),
        other => panic!("unexpected result {:?}", other),
    }
    assert_eq!(attempts.stage(), SummaryStage::Finished);
}

fn cleaned_as_the_standard_library_would(text: &str) -> String {
    text.lines().filter(|line| !line.trim().is_empty()).collect::<Vec<_>>().join("\n")
}

#[test]
fn empty_lines_are_removed() {
    assert_eq!(FileSystemAdapter::remove_empty_lines("a\n\n  \nb\n"), "a\nb");
    assert_eq!(FileSystemAdapter::remove_empty_lines("  a  \r\n\r\n\tb\r"), "  a  \n\tb\r");
    for text in [
        "",
        "\n",
        "\r\n",
        "one",
        "one\n",
        "one\r\n\r\ntwo",
        "\n\n one \n \n two\n\n",
        "a\rb\r\nc\r",
        " \r",
        "x\n\r",
        "\u{a0}\nna\u{ef}ve\r\n\u{3000}",
    ] {
        assert_eq!(
            FileSystemAdapter::remove_empty_lines(text),
            cleaned_as_the_standard_library_would(text),
            "{:?}",
            text
        );
    }
}

#[test]
fn long_text_is_cut_at_a_whole_character() {
    let short = "a".repeat(100_000);
    assert_eq!(FileSystemAdapter::truncate_text(&short), short);
    let long = "a".repeat(100_001);
    assert_eq!(FileSystemAdapter::truncate_text(&long), short);
    assert_eq!(FileSystemAdapter::truncate_text(""), "");

    // a character of two bytes that straddles the limit is left out whole
    let straddling = format!("{}\u{e9}tail", "a".repeat(99_999));
    assert_eq!(FileSystemAdapter::truncate_text(&straddling), "a".repeat(99_999));
    let fitting = format!("{}\u{e9}tail", "a".repeat(99_998));
    assert_eq!(FileSystemAdapter::truncate_text(&fitting).len(), 100_000);
    // one of four bytes
    let wide = format!("{}\u{1f600}tail", "a".repeat(99_997));
    assert_eq!(FileSystemAdapter::truncate_text(&wide), "a".repeat(99_997));

    let text = format!("{}\n\n{}", "a".repeat(60_000), "b".repeat(60_000));
    let cleaned = FileSystemAdapter::clean_pdf_text(&text);
    assert_eq!(cleaned.len(), 100_000);
    assert!(cleaned.starts_with("aaa"));
    assert!(cleaned.ends_with("bbb"));
    assert_eq!(cleaned.find('\n'), Some(60_000));
    assert_eq!(FileSystemAdapter::clean_pdf_text("x\n\ny"), "x\ny");
}

use marginalia::adapters::claude_cli::ClaudeCliClient;

#[test]
fn test_retry_prompt_includes_error() {
    let mut paper = Paper::new("test2024".to_string(), "Test Paper".to_string(), 0);
    paper.authors = vec!["Author".to_string()];
    paper.year = Some(2024);

    let error = "missing field `summary`";
    let prompt = SummarizerService::build_retry_prompt(&paper, "paper text", 2, error);

    // Check that the error is included in the retry prompt
    assert!(prompt.contains(error));
    assert!(prompt.contains("CRITICAL"));
    assert!(prompt.contains("Test Paper"));
}

#[test]
fn test_retry_prompt_truncates_long_text() {
    let mut paper = Paper::new("test2024".to_string(), "Test Paper".to_string(), 0);
    paper.authors = vec!["Author".to_string()];
    paper.year = Some(2024);

    // Create a very long text
    let long_text = "a".repeat(100000);
    let prompt = SummarizerService::build_retry_prompt(&paper, &long_text, 3, "error");

    // On attempt 3, should truncate to 30000 chars + truncation message
    assert!(prompt.contains("[TEXT TRUNCATED]"));
    assert!(prompt.len() < 35000); // Some overhead for the prompt template
}

#[test]
fn retry_text_is_cut_by_the_number_of_the_request() {
    assert_eq!(SummarizerService::retry_text_limit(2), 50_000);
    assert_eq!(SummarizerService::retry_text_limit(3), 30_000);
    assert_eq!(SummarizerService::retry_text_limit(1), 30_000);
    assert_eq!(SummarizerService::text_for_retry("short", 2), "short");
    let text = "b".repeat(50_001);
    assert_eq!(
        SummarizerService::text_for_retry(&text, 2),
        format!("{}...\n[TEXT TRUNCATED]", "b".repeat(50_000))
    );
    assert_eq!(SummarizerService::text_for_retry(&"b".repeat(50_000), 2).len(), 50_000);
    assert_eq!(
        SummarizerService::text_for_retry(&text, 3),
        format!("{}...\n[TEXT TRUNCATED]", "b".repeat(30_000))
    );
    // a character is never cut in two
    let wide = format!("{}\u{20ac}{}", "c".repeat(29_999), "d".repeat(10));
    assert_eq!(
        SummarizerService::text_for_retry(&wide, 3),
        format!("{}...\n[TEXT TRUNCATED]", "c".repeat(29_999))
    );
}

#[test]
fn requests_to_the_assistant() {
    let mut paper = Paper::new("test2024".to_string(), "Test Paper".to_string(), 0);
    paper.authors = vec!["First Author".to_string(), "Second".to_string()];
    let prompt = SummarizerService::build_json_prompt(&paper, "THE TEXT");
    assert!(prompt.starts_with("You are an academic research assistant. Analyze this paper"));
    assert!(prompt.contains("\n\nPaper: \"Test Paper\" by First Author, Second (n.d.)\n\nRespond with this exact JSON structure:\n{\n  \"summary\": "));
    assert!(prompt.ends_with("Important: Return ONLY the JSON object, no other text.\n\nPaper text:\nTHE TEXT"));

    paper.year = Some(1987);
    let prompt = SummarizerService::build_retry_prompt(&paper, "THE TEXT", 2, "oops");
    assert!(prompt.starts_with("CRITICAL: Your previous response failed JSON parsing with error: \"oops\"\n\nYou MUST respond"));
    assert!(prompt.contains("Paper: \"Test Paper\" by First Author, Second (1987)\n\nREQUIRED JSON FORMAT"));
    assert!(prompt.contains("- Start your response with { and end with }\n"));
    assert!(prompt.ends_with("\n\nPaper text:\nTHE TEXT"));

    assert_eq!(
        ClaudeCliClient::build_pdf_prompt(&paper),
        "Find a direct download URL for the open-access PDF of this academic paper. Only respond with a URL that ends in .pdf, nothing else. If you cannot find one, respond with exactly 'NONE'.\n\nTitle: Test Paper\nAuthors: First Author, Second\nYear: Some(1987)\nDOI: None"
    );
    paper.year = None;
    paper.doi = Some("10.1/a\"b".to_string());
    assert!(ClaudeCliClient::build_pdf_prompt(&paper).ends_with("\nYear: None\nDOI: Some(\"10.1/a\\\"b\")"));
}

#[test]
fn request_for_a_summary_in_markdown() {
    let mut paper = Paper::new("k".to_string(), "Test Paper".to_string(), 0);
    paper.authors = vec!["A".to_string(), "B".to_string()];
    paper.year = Some(2001);
    let prompt = ClaudeCliClient::build_summary_prompt(&paper, "THE TEXT");
    assert!(prompt.starts_with("You are an academic research assistant. Summarize this paper in a structured format.\n\nPaper: \"Test Paper\" by A, B (2001)\n\nProvide your response in this exact format:\n\n## Summary\n"));
    assert!(prompt.contains("## Related Work\nFor each related paper mentioned, use this format:\n- Title: [paper title]\n  Authors: [author names]\n  Year: [year]\n  Why Related: [brief explanation]\n\n---\n\nPaper text:\n"));
    assert!(prompt.ends_with("Paper text:\nTHE TEXT"));
}

use marginalia::prompts::format_debug_year;

#[test]
fn year_of_the_pdf_request_is_written_as_the_standard_library_writes_it() {
    assert_eq!(format_debug_year(None), "None");
    assert_eq!(format_debug_year(Some(2020)), "Some(2020)");
    assert_eq!(format_debug_year(Some(-44)), "Some(-44)");
    for year in [None, Some(0), Some(7), Some(1999), Some(-1), Some(i32::MAX), Some(i32::MIN)] {
        assert_eq!(format_debug_year(year), format!("{:?}", year));
    }
}
