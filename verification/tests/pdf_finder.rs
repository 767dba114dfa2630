use marginalia::adapters::arxiv::ArxivClient;
use marginalia::adapters::filesystem::FileSystemAdapter;
use marginalia::adapters::OutOfTurn;
use marginalia::job_manager::JobManager;
use marginalia::jobs::{JobStatus, JobType};
use marginalia::models::{Paper, PaperStatus};
use marginalia::pdf_finder::{
    conclude_found, conclude_not_found, first_source, generate_search_links,
    source_after, AcquisitionOrchestrator, Action, FindPdfResult, Source, Stage,
    PROGRESS_DONE, PROGRESS_STARTED,
};
use marginalia::validation::ValidationFailure;

fn ask_until_exhausted(has_doi: bool, llm_available: bool) -> Vec<Source> {
    let mut orchestrator = AcquisitionOrchestrator::new(has_doi, llm_available);
    let mut asked = Vec::new();
    let mut progress = orchestrator.progress();
    loop {
        match orchestrator.stage() {
            Stage::Asking(source) => asked.push(source),
            stage => panic!("unexpected stage {:?}", stage),
        }
        let action = orchestrator.on_lookup(None).unwrap();
        assert!(orchestrator.progress() >= progress);
        progress = orchestrator.progress();
        match action {
            Action::Ask(source) => assert_eq!(orchestrator.stage(), Stage::Asking(source)),
            Action::GiveUp => break,
            Action::Download { .. } => panic!("nothing was found"),
        }
    }
    assert_eq!(orchestrator.stage(), Stage::NotFound);
    assert_eq!(orchestrator.progress(), 95);
    asked
}

#[test]
fn waterfall_order_with_doi_and_assistant() {
    assert_eq!(
        ask_until_exhausted(true, true),
        vec![
            Source::ArxivByDoi,
            Source::Unpaywall,
            Source::SemanticScholarByDoi,
            Source::SemanticScholarByTitle,
            Source::ArxivByTitle,
            Source::Claude,
        ]
    );
}

#[test]
fn waterfall_order_without_doi_or_assistant() {
    assert_eq!(
        ask_until_exhausted(false, false),
        vec![Source::SemanticScholarByTitle, Source::ArxivByTitle]
    );
    assert_eq!(
        ask_until_exhausted(false, true),
        vec![Source::SemanticScholarByTitle, Source::ArxivByTitle, Source::Claude]
    );
    assert_eq!(
        ask_until_exhausted(true, false),
        vec![
            Source::ArxivByDoi,
            Source::Unpaywall,
            Source::SemanticScholarByDoi,
            Source::SemanticScholarByTitle,
            Source::ArxivByTitle,
        ]
    );
}

#[test]
fn next_source_skips_what_does_not_apply() {
    assert_eq!(first_source(true), Source::ArxivByDoi);
    assert_eq!(first_source(false), Source::SemanticScholarByTitle);
    assert_eq!(source_after(Source::ArxivByDoi, true, false), Some(Source::Unpaywall));
    assert_eq!(source_after(Source::ArxivByDoi, false, false), Some(Source::SemanticScholarByTitle));
    assert_eq!(source_after(Source::Unpaywall, false, true), Some(Source::SemanticScholarByTitle));
    assert_eq!(source_after(Source::SemanticScholarByDoi, true, true), Some(Source::SemanticScholarByTitle));
    assert_eq!(source_after(Source::ArxivByTitle, true, true), Some(Source::Claude));
    assert_eq!(source_after(Source::ArxivByTitle, true, false), None);
    assert_eq!(source_after(Source::Claude, true, true), None);
}

#[test]
fn progress_follows_the_stages() {
    let mut orchestrator = AcquisitionOrchestrator::new(true, true);
    let mut seen = vec![orchestrator.progress()];
    while let Ok(Action::Ask(_)) = orchestrator.on_lookup(None) {
        seen.push(orchestrator.progress());
    }
    assert_eq!(seen, vec![10, 25, 40, 55, 70, 85]);
    assert_eq!(orchestrator.progress(), 95);

    let mut orchestrator = AcquisitionOrchestrator::new(true, true);
    orchestrator.on_lookup(Some("https://x.example/a.pdf".to_string())).unwrap();
    assert_eq!(orchestrator.progress(), 90);
    assert_eq!(orchestrator.on_payload(None, b"%PDF-1.4"), Ok(Ok(())));
    assert_eq!(orchestrator.progress(), 95);
    orchestrator.on_stored().unwrap();
    assert_eq!(orchestrator.progress(), 100);
    assert_eq!(PROGRESS_STARTED, 0);
    assert_eq!(PROGRESS_DONE, 100);
}

#[test]
fn progress_notices_name_the_source_at_work() {
    let mut orchestrator = AcquisitionOrchestrator::new(false, false);
    let notice = orchestrator.notice("job-1");
    assert_eq!(notice.job_id, "job-1");
    assert_eq!(notice.percent, 55);
    assert_eq!(notice.source.as_deref(), Some("semantic_scholar"));
    assert_eq!(notice.status, "Asking the source");
    orchestrator.on_lookup(Some("u".to_string())).unwrap();
    let notice = orchestrator.notice("job-1");
    assert_eq!((notice.percent, notice.status.as_str()), (90, "Downloading the document"));
    orchestrator.on_payload(Some("application/pdf"), b"%PDF-1.4").unwrap().unwrap();
    let notice = orchestrator.notice("job-1");
    assert_eq!((notice.percent, notice.status.as_str()), (95, "Storing the document"));
    orchestrator.on_stored().unwrap();
    let notice = orchestrator.notice("job-1");
    assert_eq!((notice.percent, notice.status.as_str()), (100, "Document stored"));
    assert_eq!(notice.source.as_deref(), Some("semantic_scholar"));

    let mut orchestrator = AcquisitionOrchestrator::new(false, false);
    orchestrator.on_lookup(None).unwrap();
    orchestrator.on_lookup(None).unwrap();
    let notice = orchestrator.notice("job-2");
    assert_eq!(notice.percent, 95);
    assert_eq!(notice.source, None);
    assert_eq!(notice.status, "No document found; manual links follow");
}

#[test]
fn a_hit_stops_the_waterfall() {
    let mut orchestrator = AcquisitionOrchestrator::new(true, true);
    assert_eq!(orchestrator.on_lookup(None), Ok(Action::Ask(Source::Unpaywall)));
    let url = "https://repo.example/a.pdf".to_string();
    assert_eq!(
        orchestrator.on_lookup(Some(url.clone())),
        Ok(Action::Download { url, source: Source::Unpaywall })
    );
    assert_eq!(orchestrator.stage(), Stage::Downloading(Source::Unpaywall));
    // no source is asked any more
    assert_eq!(orchestrator.on_lookup(None), Err(OutOfTurn));
    assert_eq!(orchestrator.on_lookup(Some("https://other.example/b.pdf".to_string())), Err(OutOfTurn));
    assert_eq!(orchestrator.stage(), Stage::Downloading(Source::Unpaywall));
    assert_eq!(orchestrator.on_stored(), Err(OutOfTurn));
    assert_eq!(orchestrator.on_payload(Some("application/pdf"), b"%PDF-1.7 ..."), Ok(Ok(())));
    assert_eq!(orchestrator.stage(), Stage::Storing(Source::Unpaywall));
    assert_eq!(orchestrator.on_lookup(None), Err(OutOfTurn));
    assert_eq!(orchestrator.on_payload(None, b"%PDF-1.7"), Err(OutOfTurn));
    assert_eq!(orchestrator.on_download_failed(), Err(OutOfTurn));
    assert_eq!(orchestrator.on_stored(), Ok(Source::Unpaywall));
    assert_eq!(orchestrator.stage(), Stage::Found(Source::Unpaywall));
    assert_eq!(orchestrator.on_lookup(None), Err(OutOfTurn));
    assert_eq!(orchestrator.on_payload(None, b"%PDF-1.7"), Err(OutOfTurn));
    assert_eq!(orchestrator.on_stored(), Err(OutOfTurn));
    assert_eq!(orchestrator.stage(), Stage::Found(Source::Unpaywall));
}

#[test]
fn a_rejected_download_ends_the_search_without_another_source() {
    let mut orchestrator = AcquisitionOrchestrator::new(true, true);
    let url = "https://publisher.example/login".to_string();
    assert_eq!(
        orchestrator.on_lookup(Some(url.clone())),
        Ok(Action::Download { url, source: Source::ArxivByDoi })
    );
    assert_eq!(
        orchestrator.on_payload(Some("text/html"), b"<html>please log in</html>"),
        Ok(Err(ValidationFailure::LoginPage))
    );
    assert_eq!(orchestrator.stage(), Stage::NotFound);
    assert_eq!(orchestrator.on_lookup(None), Err(OutOfTurn));
    assert_eq!(orchestrator.on_stored(), Err(OutOfTurn));

    let mut orchestrator = AcquisitionOrchestrator::new(true, true);
    orchestrator.on_lookup(Some("https://x.example/a".to_string())).unwrap();
    assert_eq!(
        orchestrator.on_payload(Some("application/pdf"), b"not a document"),
        Ok(Err(ValidationFailure::NotPdf))
    );
    assert_eq!(orchestrator.stage(), Stage::NotFound);
}

#[test]
fn a_failed_download_ends_the_search_without_another_source() {
    let mut orchestrator = AcquisitionOrchestrator::new(true, true);
    orchestrator.on_lookup(Some("https://gone.example/a.pdf".to_string())).unwrap();
    assert_eq!(orchestrator.on_download_failed(), Ok(()));
    assert_eq!(orchestrator.stage(), Stage::NotFound);
    assert_eq!(orchestrator.on_lookup(None), Err(OutOfTurn));
}

#[test]
fn download_report_is_out_of_turn_while_asking() {
    let mut orchestrator = AcquisitionOrchestrator::new(false, false);
    assert_eq!(orchestrator.on_payload(None, b"%PDF-1.4"), Err(OutOfTurn));
    assert_eq!(orchestrator.on_download_failed(), Err(OutOfTurn));
    assert_eq!(orchestrator.on_stored(), Err(OutOfTurn));
    assert_eq!(orchestrator.stage(), Stage::Asking(Source::SemanticScholarByTitle));
}

#[test]
fn source_names() {
    assert_eq!(Source::ArxivByDoi.name(), "arxiv");
    assert_eq!(Source::ArxivByTitle.name(), "arxiv");
    assert_eq!(Source::Unpaywall.name(), "unpaywall");
    assert_eq!(Source::SemanticScholarByDoi.name(), "semantic_scholar");
    assert_eq!(Source::SemanticScholarByTitle.name(), "semantic_scholar");
    assert_eq!(Source::Claude.name(), "claude_cli");
}

fn sample_paper() -> Paper {
    let mut paper = Paper::new("smith2020".to_string(), "Deep Learning: A Survey".to_string(), 1_000);
    paper.authors = vec!["Smith, John".to_string(), "Doe, Jane".to_string()];
    paper.year = Some(2020);
    paper
}

#[test]
fn manual_links_for_a_record_with_doi_and_author() {
    let mut paper = sample_paper();
    paper.doi = Some("10.1234/test".to_string());
    assert_eq!(
        generate_search_links(&paper),
        vec![
            "https://scholar.google.com/scholar?q=Deep%20Learning%3A%20A%20Survey",
            "https://www.semanticscholar.org/search?q=Deep%20Learning%3A%20A%20Survey",
            "https://doi.org/10.1234/test",
            "https://papers.ssrn.com/sol3/results.cfm?txtKey_Words=Deep%20Learning%3A%20A%20Survey",
            "https://scholar.google.com/scholar?q=author:Smith%2C%20John+Deep%20Learning%3A%20A%20Survey",
        ]
    );
}

#[test]
fn manual_links_without_doi_or_author() {
    let mut paper = sample_paper();
    paper.authors = vec![];
    assert_eq!(
        generate_search_links(&paper),
        vec![
            "https://scholar.google.com/scholar?q=Deep%20Learning%3A%20A%20Survey",
            "https://www.semanticscholar.org/search?q=Deep%20Learning%3A%20A%20Survey",
            "https://papers.ssrn.com/sol3/results.cfm?txtKey_Words=Deep%20Learning%3A%20A%20Survey",
        ]
    );
    // an author without a name counts as none
    paper.authors = vec!["".to_string(), "Doe, Jane".to_string()];
    assert_eq!(generate_search_links(&paper).len(), 3);
}

#[test]
fn reports() {
    let found = FindPdfResult::found("papers/k/paper.pdf".to_string(), Source::Unpaywall);
    assert!(found.success);
    assert_eq!(found.pdf_path.as_deref(), Some("papers/k/paper.pdf"));
    assert_eq!(found.source.as_deref(), Some("unpaywall"));
    assert!(found.manual_links.is_empty());
    assert_eq!(found.error, None);

    let not_found = FindPdfResult::not_found(vec!["https://a.example".to_string()]);
    assert!(!not_found.success);
    assert_eq!(not_found.pdf_path, None);
    assert_eq!(not_found.source, None);
    assert_eq!(not_found.manual_links, vec!["https://a.example"]);
    assert_eq!(not_found.error.as_deref(), Some("No open access PDF found"));

    assert_eq!(FileSystemAdapter::pdf_relative_path("smith2020"), "papers/smith2020/paper.pdf");
}

#[test]
fn record_with_arxiv_doi_is_downloaded_end_to_end() {
    let mut paper = sample_paper();
    paper.doi = Some("10.48550/arXiv.2301.12345".to_string());

    let mut jobs = JobManager::new();
    let job_id = jobs.start_job(JobType::FindPdf, Some(paper.citekey.clone()), 2_000).unwrap();
    assert_eq!(jobs.get_job(&job_id).unwrap().status, JobStatus::Pending);
    jobs.mark_running(&job_id, 2_001).unwrap();
    assert_eq!(jobs.get_job(&job_id).unwrap().status, JobStatus::Running);

    let mut orchestrator = AcquisitionOrchestrator::new(paper.doi.is_some(), false);
    assert_eq!(orchestrator.stage(), Stage::Asking(Source::ArxivByDoi));
    jobs.update_progress(&job_id, orchestrator.progress()).unwrap();

    // the adapter recognizes the identifier and the server confirms it
    let arxiv_id = ArxivClient::arxiv_id_for_doi(paper.doi.as_deref().unwrap()).unwrap();
    assert_eq!(arxiv_id, "2301.12345");
    let request = ArxivClient::id_lookup_request(&arxiv_id);
    assert_eq!(request.url, "https://export.arxiv.org/api/query?id_list=2301.12345");
    let feed = "<feed><entry><id>http://arxiv.org/abs/2301.12345v1</id></entry></feed>";
    let found = ArxivClient::pdf_url_from_lookup(&arxiv_id, feed);
    assert_eq!(found.as_deref(), Some("https://arxiv.org/pdf/2301.12345.pdf"));

    let action = orchestrator.on_lookup(found).unwrap();
    assert_eq!(
        action,
        Action::Download {
            url: "https://arxiv.org/pdf/2301.12345.pdf".to_string(),
            source: Source::ArxivByDoi
        }
    );
    jobs.update_progress(&job_id, orchestrator.progress()).unwrap();

    assert_eq!(orchestrator.on_payload(Some("application/pdf"), b"%PDF-1.5\n%..."), Ok(Ok(())));
    jobs.update_progress(&job_id, orchestrator.progress()).unwrap();
    let source = orchestrator.on_stored().unwrap();
    assert_eq!(source, Source::ArxivByDoi);
    assert_eq!(orchestrator.progress(), 100);

    let path = FileSystemAdapter::pdf_relative_path(&paper.citekey);
    let report = conclude_found(&mut paper, path, source, 2_500);
    assert!(report.success);
    assert_eq!(report.source.as_deref(), Some("arxiv"));
    assert_eq!(report.pdf_path.as_deref(), Some("papers/smith2020/paper.pdf"));
    assert_eq!(paper.status, PaperStatus::Downloaded);
    assert_eq!(paper.pdf_path.as_deref(), Some("papers/smith2020/paper.pdf"));
    assert_eq!(paper.downloaded_at, Some(2_500));
    assert_eq!(paper.search_attempts, 0);

    let update = jobs.mark_completed(&job_id, 2_501).unwrap();
    assert_eq!(update.status, "completed");
    assert_eq!(update.progress, 100);
    let job = jobs.get_job(&job_id).unwrap();
    assert_eq!(job.status, JobStatus::Completed);
    assert_eq!(job.progress, 100);
    assert_eq!(job.started_at, Some(2_001));
    assert_eq!(job.finished_at, Some(2_501));
}

#[test]
fn record_without_doi_and_without_hit_gets_manual_links() {
    let mut paper = sample_paper();
    paper.search_attempts = 4;

    let mut jobs = JobManager::new();
    let job_id = jobs.start_job(JobType::FindPdf, Some(paper.citekey.clone()), 2_000).unwrap();
    jobs.mark_running(&job_id, 2_000).unwrap();

    let mut orchestrator = AcquisitionOrchestrator::new(paper.doi.is_some(), false);
    let mut asked = 0;
    loop {
        asked += 1;
        match orchestrator.on_lookup(None).unwrap() {
            Action::Ask(_) => continue,
            Action::GiveUp => break,
            Action::Download { .. } => panic!("nothing was found"),
        }
    }
    assert_eq!(asked, 2);

    let report = conclude_not_found(&mut paper);
    assert!(!report.success);
    assert_eq!(report.pdf_path, None);
    assert_eq!(report.error.as_deref(), Some("No open access PDF found"));
    assert!(!report.manual_links.is_empty());
    assert!(report
        .manual_links
        .iter()
        .any(|link| link.starts_with("https://scholar.google.com/scholar?q=Deep")));
    assert!(report
        .manual_links
        .iter()
        .any(|link| link.starts_with("https://scholar.google.com/scholar?q=author:Smith")));
    assert_eq!(paper.search_attempts, 5);
    assert_eq!(paper.manual_download_links, report.manual_links);
    assert_eq!(paper.status, PaperStatus::Discovered);
    assert_eq!(paper.pdf_path, None);

    // not finding anything is no failure of the job
    jobs.mark_completed(&job_id, 2_100).unwrap();
    assert_eq!(jobs.get_job(&job_id).unwrap().status, JobStatus::Completed);
    assert_eq!(jobs.get_job(&job_id).unwrap().error, None);
}
