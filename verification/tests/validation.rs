use marginalia::validation::{
    is_likely_login_page, is_valid_pdf, validate_download, ValidationFailure,
};

#[test]
fn test_is_valid_pdf() {
    assert!(is_valid_pdf(b"%PDF-1.4"));
    assert!(is_valid_pdf(b"%PDF-2.0 some content"));
    assert!(!is_valid_pdf(b"<!DOCTYPE html>"));
    assert!(!is_valid_pdf(b"<html>"));
    assert!(!is_valid_pdf(b""));
    assert!(!is_valid_pdf(b"%PD")); // Too short
}

#[test]
fn test_is_likely_login_page() {
    assert!(is_likely_login_page(Some("text/html"), b""));
    assert!(is_likely_login_page(None, b"<!DOCTYPE html><html>"));
    assert!(is_likely_login_page(None, b"<html><head>"));
    assert!(!is_likely_login_page(Some("application/pdf"), b"%PDF-1.4"));
    assert!(!is_likely_login_page(None, b"%PDF-1.4"));
}

#[test]
fn valid_pdf_needs_exactly_the_signature() {
    assert!(is_valid_pdf(b"%PDF-"));
    assert!(!is_valid_pdf(b"%PDF"));
    assert!(!is_valid_pdf(b"%pdf-1.4"));
    assert!(!is_valid_pdf(b" %PDF-1.4"));
    assert!(!is_valid_pdf(b"%PDF+1.4"));
}

#[test]
fn login_page_content_type_is_matched_as_a_substring() {
    assert!(is_likely_login_page(Some("text/html; charset=utf-8"), b"%PDF-1.4"));
    assert!(!is_likely_login_page(Some("TEXT/HTML"), b"%PDF-1.4"));
    assert!(!is_likely_login_page(Some("text/plain"), b""));
    assert!(!is_likely_login_page(Some(""), b""));
}

#[test]
fn login_page_markup_is_matched_in_any_case() {
    assert!(is_likely_login_page(None, b"<HTML>"));
    assert!(is_likely_login_page(None, b"<!doctype html>"));
    assert!(is_likely_login_page(None, b"  <!DocType html>"));
    assert!(is_likely_login_page(Some("application/pdf"), b"\n<html lang=\"en\">"));
}

#[test]
fn login_page_markup_is_sought_in_the_first_fifteen_bytes_only() {
    // the tag ends at byte 15
    assert!(is_likely_login_page(None, b"0123456789<html>"));
    // the tag ends at byte 16
    assert!(!is_likely_login_page(None, b"01234567890<html>"));
    assert!(!is_likely_login_page(None, b"%PDF-1.4 and much later <html>"));
    assert!(!is_likely_login_page(None, b"<htm"));
}

#[test]
fn download_is_accepted_only_when_both_checks_pass() {
    assert_eq!(validate_download(Some("application/pdf"), b"%PDF-1.7\n"), Ok(()));
    assert_eq!(validate_download(None, b"%PDF-1.7\n"), Ok(()));
    assert_eq!(
        validate_download(Some("text/html"), b"%PDF-1.7\n"),
        Err(ValidationFailure::LoginPage)
    );
    assert_eq!(
        validate_download(None, b"<!DOCTYPE html><html>"),
        Err(ValidationFailure::LoginPage)
    );
    assert_eq!(
        validate_download(Some("application/pdf"), b"not a document"),
        Err(ValidationFailure::NotPdf)
    );
    assert_eq!(validate_download(None, b""), Err(ValidationFailure::NotPdf));
}
