use marginalia::graph::build_graph;
use marginalia::jobs::{Job, JobInfo, JobRow, JobStatus, JobType};
use marginalia::models::{stats, Paper, PaperConnection, PaperStatus};
use marginalia::rate_limit::RateLimiter;
use marginalia::vault::{add_recent_vault, apply_scan, parse_status, search_papers, RecentVault};

fn paper(citekey: &str, title: &str, authors: &[&str], status: PaperStatus) -> Paper {
    let mut paper = Paper::new(citekey.to_string(), title.to_string(), 0);
    paper.authors = authors.iter().map(|a| a.to_string()).collect();
    paper.status = status;
    paper
}

fn papers() -> Vec<Paper> {
    vec![
        paper("vaswani2017", "Attention Is All You Need", &["Vaswani, Ashish"], PaperStatus::Downloaded),
        paper("lecun2015", "Deep learning", &["Yann LeCun", "Yoshua Bengio"], PaperStatus::Discovered),
        paper("smith2020", "Transformers in Vision", &[], PaperStatus::Downloaded),
    ]
}

#[test]
fn status_is_parsed_strictly() {
    assert_eq!(parse_status("discovered"), Some(PaperStatus::Discovered));
    assert_eq!(parse_status("wanted"), Some(PaperStatus::Wanted));
    assert_eq!(parse_status("queued"), Some(PaperStatus::Queued));
    assert_eq!(parse_status("downloaded"), Some(PaperStatus::Downloaded));
    assert_eq!(parse_status("summarized"), Some(PaperStatus::Summarized));
    assert_eq!(parse_status("failed"), Some(PaperStatus::Failed));
    assert_eq!(parse_status("Failed"), None);
    assert_eq!(parse_status(""), None);
}

#[test]
fn search_finds_by_title_key_and_author() {
    let papers = papers();
    assert_eq!(search_papers(&papers, "ATTENTION"), vec![0]);
    assert_eq!(search_papers(&papers, "lecun"), vec![1]);
    assert_eq!(search_papers(&papers, "bengio"), vec![1]);
    assert_eq!(search_papers(&papers, "20"), vec![0, 1, 2]);
    assert_eq!(search_papers(&papers, "trans"), vec![2]);
    assert_eq!(search_papers(&papers, "n"), vec![0, 1, 2]);
    assert_eq!(search_papers(&papers, ""), vec![0, 1, 2]);
    assert_eq!(search_papers(&papers, "quantum"), Vec::<usize>::new());
    assert_eq!(search_papers(&vec![], "x"), Vec::<usize>::new());
}

#[test]
fn scan_puts_found_files_on_record() {
    let mut discovered = paper("k", "T", &[], PaperStatus::Discovered);
    assert!(!apply_scan(&mut discovered, false, false));
    assert_eq!(discovered.status, PaperStatus::Discovered);
    assert!(apply_scan(&mut discovered, true, false));
    assert_eq!(discovered.pdf_path.as_deref(), Some("papers/k/paper.pdf"));
    assert_eq!(discovered.status, PaperStatus::Downloaded);
    // a second scan finds nothing new
    assert!(!apply_scan(&mut discovered, true, false));
    assert!(apply_scan(&mut discovered, true, true));
    assert_eq!(discovered.summary_path.as_deref(), Some("papers/k/summary.md"));
    assert_eq!(discovered.status, PaperStatus::Summarized);

    // a status other than discovered is kept when a document is found
    let mut wanted = paper("w", "T", &[], PaperStatus::Wanted);
    assert!(apply_scan(&mut wanted, true, false));
    assert_eq!(wanted.status, PaperStatus::Wanted);
    assert_eq!(wanted.pdf_path.as_deref(), Some("papers/w/paper.pdf"));

    // what is on record is not overwritten
    let mut known = paper("n", "T", &[], PaperStatus::Failed);
    known.pdf_path = Some("elsewhere.pdf".to_string());
    known.summary_path = Some("elsewhere.md".to_string());
    assert!(!apply_scan(&mut known, true, true));
    assert_eq!(known.pdf_path.as_deref(), Some("elsewhere.pdf"));
    assert_eq!(known.status, PaperStatus::Failed);

    let mut both = paper("b", "T", &[], PaperStatus::Discovered);
    assert!(apply_scan(&mut both, true, true));
    assert_eq!(both.status, PaperStatus::Summarized);
}

fn opened(path: &str, at: i64) -> RecentVault {
    RecentVault { path: path.to_string(), name: path.to_string(), last_opened: at, paper_count: 1 }
}

fn paths(list: &[RecentVault]) -> Vec<&str> {
    list.iter().map(|vault| vault.path.as_str()).collect()
}

#[test]
fn recent_vaults_keep_the_last_opened_first() {
    let list = add_recent_vault(vec![], opened("/a", 1));
    assert_eq!(paths(&list), vec!["/a"]);
    let list = add_recent_vault(list, opened("/b", 2));
    let list = add_recent_vault(list, opened("/c", 3));
    assert_eq!(paths(&list), vec!["/c", "/b", "/a"]);
    // opened again, a vault moves to the front with its new entry
    let list = add_recent_vault(list, opened("/b", 4));
    assert_eq!(paths(&list), vec!["/b", "/c", "/a"]);
    assert_eq!(list[0].last_opened, 4);
}

#[test]
fn recent_vaults_are_ten_at_most() {
    let mut list = Vec::new();
    for i in 0..12 {
        list = add_recent_vault(list, opened(&format!("/v{}", i), i));
    }
    assert_eq!(list.len(), 10);
    assert_eq!(list[0].path, "/v11");
    assert_eq!(list[9].path, "/v2");
    let list = add_recent_vault(list, opened("/v2", 99));
    assert_eq!(list.len(), 10);
    assert_eq!(list[0].path, "/v2");
    assert_eq!(list[9].path, "/v3");
}

#[test]
fn vault_statistics() {
    let counted = stats(&papers(), "2024-01-01T00:00:00+00:00".to_string());
    assert_eq!(counted.total, 3);
    assert_eq!(counted.by_status, [1, 0, 0, 2, 0, 0]);
    assert_eq!(counted.last_updated, "2024-01-01T00:00:00+00:00");
    let empty = stats(&vec![], String::new());
    assert_eq!(empty.total, 0);
    assert_eq!(empty.by_status, [0; 6]);
}

#[test]
fn graph_of_a_vault() {
    let connections = vec![PaperConnection {
        source: "vaswani2017".to_string(),
        target: "lecun2015".to_string(),
        reason: "builds on".to_string(),
        created_at: 5,
    }];
    let mut all = papers();
    all[0].year = Some(2017);
    let graph = build_graph(&all, &connections);
    assert_eq!(graph.nodes.len(), 3);
    assert_eq!(graph.nodes[0].id, "vaswani2017");
    assert_eq!(graph.nodes[0].label, "vaswani2017");
    assert_eq!(graph.nodes[0].title, "Attention Is All You Need");
    assert_eq!(graph.nodes[0].group, "downloaded");
    assert_eq!(graph.nodes[0].year, Some(2017));
    assert_eq!(graph.nodes[1].group, "discovered");
    assert_eq!(graph.nodes[1].year, None);
    assert_eq!(graph.edges.len(), 1);
    assert_eq!(graph.edges[0].from, "vaswani2017");
    assert_eq!(graph.edges[0].to, "lecun2015");
    assert_eq!(graph.edges[0].title, "builds on");
    let empty = build_graph(&vec![], &vec![]);
    assert!(empty.nodes.is_empty() && empty.edges.is_empty());
}

#[test]
fn limiters_of_the_sources() {
    let mut arxiv = RateLimiter::for_arxiv();
    assert!(arxiv.check_and_record("arxiv", 0));
    assert_eq!(arxiv.time_until_slot("arxiv", 0), Some(3_000));
    assert!(!arxiv.check_and_record("arxiv", 2_999));
    assert!(arxiv.check_and_record("arxiv", 3_000));

    let mut unpaywall = RateLimiter::for_unpaywall();
    for i in 0..70 {
        assert!(unpaywall.check_and_record("unpaywall", i));
    }
    assert!(!unpaywall.check_and_record("unpaywall", 70));
    assert_eq!(unpaywall.time_until_slot("unpaywall", 70), Some(59_930));
    assert!(unpaywall.check_and_record("unpaywall", 60_000));

    let mut graph = RateLimiter::for_semantic_scholar();
    for i in 0..100 {
        assert!(graph.check_and_record("semantic_scholar", i));
    }
    assert!(!graph.check_and_record("semantic_scholar", 299_999));
    assert!(graph.check_and_record("semantic_scholar", 300_000));
}

fn row(job_type: &str, status: &str, started: Option<&str>, finished: Option<&str>, created: &str) -> JobRow {
    JobRow {
        id: "j1".to_string(),
        job_type: job_type.to_string(),
        citekey: Some("smith2020".to_string()),
        status: status.to_string(),
        progress: 40,
        error: None,
        log_path: Some("log.txt".to_string()),
        started_at: started.map(|s| s.to_string()),
        finished_at: finished.map(|s| s.to_string()),
        created_at: created.to_string(),
    }
}

#[test]
fn job_is_read_from_a_stored_row() {
    let job = Job::from_row(
        row("find_pdf", "running", Some("2024-01-01T00:00:01+00:00"), None, "2024-01-01T00:00:00Z"),
        99,
    );
    assert_eq!(job.id, "j1");
    assert_eq!(job.job_type, JobType::FindPdf);
    assert_eq!(job.status, JobStatus::Running);
    assert_eq!(job.citekey.as_deref(), Some("smith2020"));
    assert_eq!(job.progress, 40);
    assert_eq!(job.log_path.as_deref(), Some("log.txt"));
    assert_eq!(job.created_at, 1_704_067_200_000);
    assert_eq!(job.started_at, Some(1_704_067_201_000));
    assert_eq!(job.finished_at, None);
    assert!(job.is_well_formed());
}

#[test]
fn stored_row_with_unknown_values_reads_with_defaults() {
    let job = Job::from_row(row("dance", "sleeping", Some("soon"), Some("later"), "once"), 99);
    assert_eq!(job.job_type, JobType::Summarize);
    assert_eq!(job.status, JobStatus::Pending);
    assert_eq!(job.started_at, None);
    assert_eq!(job.finished_at, None);
    assert_eq!(job.created_at, 99);
    // the offset of a stored instant is taken into account
    let job = Job::from_row(row("summarize", "pending", None, None, "2024-01-01T01:00:00.250+01:00"), 0);
    assert_eq!(job.created_at, 1_704_067_200_250);

    let stored = Job::from_stored(row("build_graph", "failed", None, None, ""), Some(5), Some(9), None, 3);
    assert_eq!(stored.job_type, JobType::BuildGraph);
    assert_eq!(stored.status, JobStatus::Failed);
    assert_eq!((stored.started_at, stored.finished_at, stored.created_at), (Some(5), Some(9), 3));
}

#[test]
fn job_is_shown_with_its_instants_as_text() {
    let mut job = Job::with_id("j1".to_string(), JobType::DownloadPdf, None, 1_704_067_200_000);
    job.mark_running(1_704_067_201_500).unwrap();
    job.mark_failed(1_704_067_260_000, "no luck".to_string()).unwrap();
    let info = JobInfo::from_job(job).unwrap();
    assert_eq!(info.id, "j1");
    assert_eq!(info.job_type, "download_pdf");
    assert_eq!(info.status, "failed");
    assert_eq!(info.citekey, None);
    assert_eq!(info.progress, 0);
    assert_eq!(info.error.as_deref(), Some("no luck"));
    assert_eq!(info.created_at, "2024-01-01T00:00:00+00:00");
    assert_eq!(info.started_at.as_deref(), Some("2024-01-01T00:00:01.500+00:00"));
    assert_eq!(info.finished_at.as_deref(), Some("2024-01-01T00:01:00+00:00"));

    let pending = Job::with_id("j2".to_string(), JobType::ImportBib, None, 0);
    let info = JobInfo::from_job(pending).unwrap();
    assert_eq!(info.created_at, "1970-01-01T00:00:00+00:00");
    assert_eq!(info.started_at, None);
    assert_eq!(info.finished_at, None);

    let beyond = Job::with_id("j3".to_string(), JobType::ImportBib, None, i64::MAX);
    assert!(JobInfo::from_job(beyond).is_none());
    let mut late = Job::with_id("j4".to_string(), JobType::ImportBib, None, 0);
    late.mark_running(i64::MAX).unwrap();
    assert!(JobInfo::from_job(late).is_none());

    let shown = JobInfo::with_texts(
        Job::with_id("j5".to_string(), JobType::Summarize, Some("k".to_string()), 0),
        Some("a".to_string()),
        None,
        "c".to_string(),
    );
    assert_eq!((shown.started_at.as_deref(), shown.finished_at, shown.created_at.as_str()), (Some("a"), None, "c"));
    assert_eq!(shown.citekey.as_deref(), Some("k"));
}

use marginalia::vault::get_papers;

fn dated(years: &[Option<i32>]) -> Vec<Paper> {
    years
        .iter()
        .enumerate()
        .map(|(i, year)| {
            let status = if i % 3 == 0 { PaperStatus::Downloaded } else { PaperStatus::Discovered };
            let mut p = paper(&format!("k{}", i), "T", &[], status);
            p.year = *year;
            p
        })
        .collect()
}

#[test]
fn papers_are_listed_by_year_latest_first() {
    let papers = dated(&[Some(2001), None, Some(2020), Some(2001), Some(1999), None, Some(2020)]);
    let page = get_papers(&papers, None, None, None);
    assert_eq!(page.total, 7);
    // one year in the order given, no year last
    assert_eq!(page.papers, vec![2, 6, 0, 3, 4, 1, 5]);

    // as a stable sort of the standard library lists them
    let mut expected: Vec<usize> = (0..papers.len()).collect();
    expected.sort_by(|a, b| papers[*b].year.cmp(&papers[*a].year));
    assert_eq!(page.papers, expected);
}

#[test]
fn papers_are_listed_by_status() {
    let papers = dated(&[Some(2001), None, Some(2020), Some(2001), Some(1999), None, Some(2020)]);
    let page = get_papers(&papers, Some("downloaded"), None, None);
    assert_eq!(page.total, 3);
    assert_eq!(page.papers, vec![6, 0, 3]);
    let page = get_papers(&papers, Some("discovered"), None, None);
    assert_eq!(page.total, 4);
    assert_eq!(page.papers, vec![2, 4, 1, 5]);
    let page = get_papers(&papers, Some("failed"), None, None);
    assert_eq!((page.total, page.papers.len()), (0, 0));
    let page = get_papers(&papers, Some("no such status"), None, None);
    assert_eq!((page.total, page.papers.len()), (0, 0));
}

#[test]
fn papers_are_listed_in_pages() {
    let papers = dated(&[Some(5), Some(4), Some(3), Some(2), Some(1)]);
    assert_eq!(get_papers(&papers, None, Some(2), None).papers, vec![0, 1]);
    assert_eq!(get_papers(&papers, None, Some(2), Some(2)).papers, vec![2, 3]);
    assert_eq!(get_papers(&papers, None, Some(2), Some(4)).papers, vec![4]);
    assert_eq!(get_papers(&papers, None, Some(2), Some(5)).papers, Vec::<usize>::new());
    assert_eq!(get_papers(&papers, None, Some(0), Some(1)).papers, Vec::<usize>::new());
    assert_eq!(get_papers(&papers, None, Some(usize::MAX), Some(3)).papers, vec![3, 4]);
    assert_eq!(get_papers(&papers, None, None, Some(usize::MAX)).papers, Vec::<usize>::new());
    assert_eq!(get_papers(&papers, None, Some(2), Some(2)).total, 5);

    let many = dated(&vec![Some(1); 150]);
    let page = get_papers(&many, None, None, None);
    assert_eq!(page.total, 150);
    assert_eq!(page.papers, (0..100).collect::<Vec<usize>>());
    assert_eq!(get_papers(&vec![], None, None, None).total, 0);
}

#[test]
fn listing_with_extreme_years() {
    let papers = dated(&[Some(i32::MIN), None, Some(i32::MAX), Some(0), Some(-1)]);
    assert_eq!(get_papers(&papers, None, None, None).papers, vec![2, 3, 4, 0, 1]);
}
