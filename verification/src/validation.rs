//! Content validation for downloaded documents.

use crate::text::{bytes_contain, find_bytes, str_contains};
use vstd::prelude::*;
use vstd::string::*;

verus! {

/// The five signature bytes every PDF file starts with: `%PDF-`.
pub open spec fn pdf_magic() -> Seq<u8> {
    seq![0x25u8, 0x50u8, 0x44u8, 0x46u8, 0x2du8]
}

/// `bytes` begins with the PDF signature.
pub open spec fn has_pdf_signature(bytes: Seq<u8>) -> bool {
    bytes.len() >= 5 && bytes.subrange(0, 5) == pdf_magic()
}

/// Whether `bytes` is the start of a PDF file.
pub fn is_valid_pdf(bytes: &[u8]) -> (valid: bool)
    ensures
        valid == has_pdf_signature(bytes@),
{
    if bytes.len() < 5 {
        return false;
    }
    let valid = bytes[0] == 0x25 && bytes[1] == 0x50 && bytes[2] == 0x44 && bytes[3] == 0x46
        && bytes[4] == 0x2d;
    proof {
        if valid {
            assert(bytes@.subrange(0, 5) =~= pdf_magic());
        } else {
            let head = bytes@.subrange(0, 5);
            assert(head[0] == bytes@[0] && head[1] == bytes@[1] && head[2] == bytes@[2]
                && head[3] == bytes@[3] && head[4] == bytes@[4]);
        }
    }
    valid
}

/// Whatever follows the signature, a payload that begins with it is a
/// PDF; a payload of fewer than five bytes, the empty one among them, is
/// none, and neither is one that begins like markup, with `<`.
pub proof fn lemma_signature_decides(bytes: Seq<u8>, rest: Seq<u8>)
    ensures
        has_pdf_signature(pdf_magic() + rest),
        bytes.len() < 5 ==> !has_pdf_signature(bytes),
        bytes.len() > 0 && bytes[0] == 0x3c ==> !has_pdf_signature(bytes),
{
    assert((pdf_magic() + rest).subrange(0, 5) =~= pdf_magic());
    if bytes.len() >= 5 && bytes[0] == 0x3c {
        assert(bytes.subrange(0, 5)[0] == bytes[0]);
    }
}

/// How many leading bytes of a payload are inspected for markup.
pub const SNIFF_LEN: usize = 15;

/// An ASCII capital letter mapped to its small letter; any other byte unchanged.
pub open spec fn ascii_lower(b: u8) -> u8 {
    if 0x41 <= b <= 0x5a {
        (b + 0x20) as u8
    } else {
        b
    }
}

/// The inspected head of a payload: its first `SNIFF_LEN` bytes (all of
/// them if it is shorter), with ASCII letters lowered.
pub open spec fn sniffed_head(bytes: Seq<u8>) -> Seq<u8> {
    let n = if bytes.len() < SNIFF_LEN {
        bytes.len() as int
    } else {
        SNIFF_LEN as int
    };
    Seq::new(n as nat, |i: int| ascii_lower(bytes[i]))
}

/// The head of the payload holds an HTML doctype or an opening `html` tag,
/// in any letter case.
pub open spec fn looks_like_html(bytes: Seq<u8>) -> bool {
    bytes_contain(sniffed_head(bytes), "<!doctype".spec_bytes()) || bytes_contain(
        sniffed_head(bytes),
        "<html".spec_bytes(),
    )
}

/// The declared content type names HTML.
pub open spec fn declares_html(content_type: Option<&str>) -> bool {
    content_type matches Some(ct) && bytes_contain(ct.spec_bytes(), "text/html".spec_bytes())
}

/// A response is taken for a login or paywall page when its content type
/// declares HTML or its payload starts like an HTML document.
pub open spec fn login_page_like(content_type: Option<&str>, bytes: Seq<u8>) -> bool {
    declares_html(content_type) || looks_like_html(bytes)
}

/// A response whose content type declares HTML counts as a login page
/// whatever its payload, and so does one whose payload starts like an HTML
/// document whatever its content type; and no response that counts as a
/// login page is accepted as a download.
pub proof fn lemma_markup_is_a_login_page(content_type: Option<&str>, bytes: Seq<u8>)
    ensures
        declares_html(content_type) ==> login_page_like(content_type, bytes),
        looks_like_html(bytes) ==> login_page_like(content_type, bytes),
        login_page_like(content_type, bytes) ==> download_verdict(content_type, bytes) == Err::<
            (),
            ValidationFailure,
        >(ValidationFailure::LoginPage),
        download_verdict(content_type, bytes) is Ok ==> has_pdf_signature(bytes)
            && !login_page_like(content_type, bytes),
{
}

fn lower_byte(b: u8) -> (l: u8)
    ensures
        l == ascii_lower(b),
{
    if 0x41 <= b && b <= 0x5a {
        b + 0x20
    } else {
        b
    }
}

/// Whether a response looks like a login or paywall page rather than a document.
pub fn is_likely_login_page(content_type: Option<&str>, bytes: &[u8]) -> (likely: bool)
    ensures
        likely == login_page_like(content_type, bytes@),
{
    if let Some(ct) = content_type {
        if str_contains(ct, "text/html") {
            return true;
        }
    }
    let n: usize = if bytes.len() < SNIFF_LEN {
        bytes.len()
    } else {
        SNIFF_LEN
    };
    let mut head: Vec<u8> = Vec::new();
    let mut i: usize = 0;
    while i < n
        invariant
            i <= n <= bytes.len(),
            head@.len() == i,
            forall|j: int| 0 <= j < i ==> head@[j] == ascii_lower(bytes@[j]),
        decreases n - i,
    {
        head.push(lower_byte(bytes[i]));
        i += 1;
    }
    assert(head@ =~= sniffed_head(bytes@));
    find_bytes(head.as_slice(), "<!doctype".as_bytes()).is_some() || find_bytes(
        head.as_slice(),
        "<html".as_bytes(),
    ).is_some()
}

/// Why a downloaded payload was turned down.
#[derive(Clone, Copy, Debug, PartialEq, Eq, Structural)]
pub enum ValidationFailure {
    /// The response is a login or paywall page.
    LoginPage,
    /// The payload does not start with the PDF signature.
    NotPdf,
}

/// The verdict on a download: accepted only when it is no login page and
/// carries the PDF signature; the login-page check comes first.
pub open spec fn download_verdict(content_type: Option<&str>, bytes: Seq<u8>) -> Result<
    (),
    ValidationFailure,
> {
    if login_page_like(content_type, bytes) {
        Err(ValidationFailure::LoginPage)
    } else if !has_pdf_signature(bytes) {
        Err(ValidationFailure::NotPdf)
    } else {
        Ok(())
    }
}

/// Checks a downloaded payload with both validators.
pub fn validate_download(content_type: Option<&str>, bytes: &[u8]) -> (verdict: Result<
    (),
    ValidationFailure,
>)
    ensures
        verdict == download_verdict(content_type, bytes@),
{
    if is_likely_login_page(content_type, bytes) {
        Err(ValidationFailure::LoginPage)
    } else if !is_valid_pdf(bytes) {
        Err(ValidationFailure::NotPdf)
    } else {
        Ok(())
    }
}

} // verus!
