//! Local evidence about an executable Mganga does not recognize: its
//! version-resource strings and a plain phrase for where it lives. A signal
//! that is absent is never turned into a claim.

use vstd::prelude::*;
use crate::text::{
    has_infix, lowercase, opt_view, owned, str_contains, to_lowercase, trim, trim_chars,
    trim_end_char, trim_end_char_chars, chars_of, string_from,
};

verus! {

#[derive(Clone)]
pub struct FileEvidence {
    /// CompanyName from the version resource (the "publisher").
    pub company: Option<String>,
    /// FileDescription: a mystery exe often describes itself in plain words.
    pub description: Option<String>,
    /// ProductName from the version resource.
    pub product: Option<String>,
    /// Authenticode signer subject name, if the file carries a signature.
    pub signer: Option<String>,
    /// Whether that signature verifies against local trust roots.
    pub signature_valid: Option<bool>,
    /// True only when an existing file was actually inspected for a signature.
    pub checked_signature: bool,
    /// A plain phrase for a noteworthy install location.
    pub location: Option<String>,
}

impl Default for FileEvidence {
    fn default() -> (r: Self)
        ensures
            r.company is None,
            r.description is None,
            r.product is None,
            r.signer is None,
            r.signature_valid is None,
            !r.checked_signature,
            r.location is None,
    {
        FileEvidence {
            company: None,
            description: None,
            product: None,
            signer: None,
            signature_valid: None,
            checked_signature: false,
            location: None,
        }
    }
}

/// The phrase for where a file lives, decided on the lowercase path; only
/// noteworthy locations get one.
pub open spec fn location_phrase(exe_path: Seq<char>) -> Option<Seq<char>> {
    let p = lowercase(exe_path);
    if has_infix(p, "\\windows\\system32"@) || has_infix(p, "\\windows\\syswow64"@) {
        Some("in a Windows system folder"@)
    } else if has_infix(p, "\\appdata\\local\\temp\\"@) || has_infix(p, "\\temp\\"@) || has_infix(
        p,
        "\\tmp\\"@,
    ) {
        Some("in a temporary folder, which honest apps rarely run from"@)
    } else if has_infix(p, "\\program files"@) {
        Some("in Program Files, where installed software normally lives"@)
    } else if has_infix(p, "\\programdata\\"@) {
        Some("in the shared ProgramData folder"@)
    } else if has_infix(p, "\\appdata\\"@) {
        Some("in your user AppData folder"@)
    } else {
        None
    }
}

/// Turn a path into a short, honest phrase about where the file lives.
pub fn classify_location(exe_path: &str) -> (r: Option<String>)
    ensures
        opt_view(r) == location_phrase(exe_path@),
{
    let lower = to_lowercase(exe_path);
    let p = lower.as_str();
    if str_contains(p, "\\windows\\system32") || str_contains(p, "\\windows\\syswow64") {
        Some(owned("in a Windows system folder"))
    } else if str_contains(p, "\\appdata\\local\\temp\\") || str_contains(p, "\\temp\\")
        || str_contains(p, "\\tmp\\") {
        Some(owned("in a temporary folder, which honest apps rarely run from"))
    } else if str_contains(p, "\\program files") {
        Some(owned("in Program Files, where installed software normally lives"))
    } else if str_contains(p, "\\programdata\\") {
        Some(owned("in the shared ProgramData folder"))
    } else if str_contains(p, "\\appdata\\") {
        Some(owned("in your user AppData folder"))
    } else {
        None
    }
}

/// A version-resource or certificate string as Windows hands it over:
/// trailing NULs and surrounding whitespace removed; nothing left means no
/// claim.
pub open spec fn cleaned_string(raw: Seq<char>) -> Option<Seq<char>> {
    let t = trim(trim_end_char(raw, '\0'));
    if t.len() == 0 {
        None
    } else {
        Some(t)
    }
}

pub fn clean_string(raw: &str) -> (r: Option<String>)
    ensures
        opt_view(r) == cleaned_string(raw@),
{
    let v = chars_of(raw);
    let a = trim_end_char_chars(v.as_slice(), '\0');
    let t = trim_chars(a.as_slice());
    if t.len() == 0 {
        None
    } else {
        Some(string_from(t.as_slice()))
    }
}

/// The cheap evidence for a path: nothing for an empty path or a file that
/// does not exist; otherwise the version strings read from the file and the
/// location phrase.
pub fn cheap(
    exe_path: &str,
    file_exists: bool,
    company: Option<String>,
    description: Option<String>,
    product: Option<String>,
) -> (r: FileEvidence)
    ensures
        (exe_path@.len() == 0 || !file_exists) ==> (r.company is None && r.description is None
            && r.product is None && r.location is None),
        !(exe_path@.len() == 0 || !file_exists) ==> (opt_view(r.company) == opt_view(company)
            && opt_view(r.description) == opt_view(description) && opt_view(r.product)
            == opt_view(product) && opt_view(r.location) == location_phrase(exe_path@)),
        r.signer is None,
        r.signature_valid is None,
        !r.checked_signature,
{
    if exe_path.is_empty() || !file_exists {
        return FileEvidence::default();
    }
    FileEvidence {
        company,
        description,
        product,
        signer: None,
        signature_valid: None,
        checked_signature: false,
        location: classify_location(exe_path),
    }
}

/// The expensive evidence: the Authenticode signer and whether its
/// signature verifies locally. Both are absent for an empty path, a file
/// that does not exist, or a file that carries no signer; otherwise the
/// signer is reported with the verdict of the trust check.
pub fn authenticode(exe_path: &str, file_exists: bool, signer: Option<String>, trusted: bool) -> (r: (
    Option<String>,
    Option<bool>,
))
    ensures
        (exe_path@.len() == 0 || !file_exists || (signer is None)) ==> (r.0 is None && r.1 is None),
        !(exe_path@.len() == 0 || !file_exists || (signer is None)) ==> (opt_view(r.0) == opt_view(
            signer,
        ) && r.1 == Some(trusted)),
{
    if exe_path.is_empty() || !file_exists {
        return (None, None);
    }
    if signer.is_some() {
        (signer, Some(trusted))
    } else {
        (None, None)
    }
}

} // verus!
