use vstd::prelude::*;

use crate::assembler::name;
use crate::document::{name_bytes, Document};
use crate::error::AppError;
use crate::file_handler::{byte_len, has_parent_component, FileHandler, MAX_PATH_BYTES};
use crate::metadata::{extracted_from, lemma_dictionary_view, MetadataExtractor, PdfMetadata};
use crate::object::{assoc, entries_view, has_key, lemma_assoc_has_key, Obj, PdfObject};

verus! {

/// How thoroughly a document is checked.
#[derive(Debug, Clone, Copy, PartialEq, Eq, Structural)]
pub enum ValidationLevel {
    /// The document loads.
    Basic,
    /// Structure, references and linearization too.
    Full,
    /// As `Full`, and conformance flags are reported.
    Deep,
}

impl ValidationLevel {
    pub fn default() -> (r: ValidationLevel)
        ensures
            r == ValidationLevel::Full,
    {
        ValidationLevel::Full
    }
}

/// Settings of a validation.
#[derive(Debug, Clone, Copy)]
pub struct ValidationConfig {
    pub level: ValidationLevel,
    pub check_xref: bool,
    pub validate_structure: bool,
    pub detect_encryption: bool,
    pub extract_metadata: bool,
    /// Largest file, in bytes, given a deep analysis.
    pub max_size_for_deep_analysis: u64,
}

impl ValidationConfig {
    pub fn default() -> (r: ValidationConfig)
        ensures
            r.level == ValidationLevel::Full,
            r.check_xref && r.validate_structure && r.detect_encryption && r.extract_metadata,
            r.max_size_for_deep_analysis == 50 * 1024 * 1024,
    {
        ValidationConfig {
            level: ValidationLevel::Full,
            check_xref: true,
            validate_structure: true,
            detect_encryption: true,
            extract_metadata: true,
            max_size_for_deep_analysis: 50 * 1024 * 1024,
        }
    }
}

/// What the checks found.
#[derive(Debug, Clone, Copy, PartialEq, Eq, Structural)]
pub struct ValidationDetails {
    pub loaded_successfully: bool,
    pub structure_valid: bool,
    pub xref_valid: bool,
    pub no_corrupted_objects: bool,
    pub all_references_valid: bool,
    pub is_web_optimized: bool,
    pub pdfa_compliant: Option<bool>,
    pub pdfua_compliant: Option<bool>,
}

/// How serious a problem is.
#[derive(Debug, Clone, Copy, PartialEq, Eq, PartialOrd, Ord, Structural)]
pub enum IssueSeverity {
    Info,
    Warning,
    Error,
    Critical,
}

/// What kind of problem was found.
#[derive(Debug, Clone, Copy, PartialEq, Eq, Structural)]
pub enum IssueType {
    CorruptedObject,
    InvalidReference,
    InvalidStructure,
    EncryptedDocument,
    UnsupportedFormat,
    FileTooLarge,
    InvalidMetadata,
    CompatibilityIssue,
    Other,
}

/// A problem found in a document.
#[derive(Debug)]
pub struct ValidationIssue {
    pub severity: IssueSeverity,
    pub issue_type: IssueType,
    pub description: String,
    pub location: Option<String>,
    pub suggestion: Option<String>,
}

/// The outcome of a validation.
#[derive(Debug)]
pub struct ValidationResult {
    pub is_valid: bool,
    pub details: ValidationDetails,
    pub metadata: Option<PdfMetadata>,
    pub issues: Vec<ValidationIssue>,
    pub recommendations: Vec<String>,
    pub validation_time_ms: u64,
}

/// A request to validate one file.
#[derive(Debug)]
pub struct ValidateRequest {
    pub file_path: String,
    pub config: ValidationConfig,
    /// Also extract metadata.
    pub extract_metadata: bool,
}

impl ValidateRequest {
    /// Checks what the file system reported of the file (see `FileHandler::check_file`).
    pub fn validate_basic(&self, file_handler: &FileHandler, is_file: bool, size: u64) -> (r: Result<
        (),
        AppError,
    >)
        ensures
            r is Ok <==> (self.file_path@.len() > 0 && !has_parent_component(self.file_path@)
                && byte_len(self.file_path@) <= MAX_PATH_BYTES && is_file && size
                <= file_handler.config.max_file_size),
    {
        file_handler.check_file(self.file_path.as_str(), is_file, size)
    }
}

/// A request for one file's metadata.
#[derive(Debug)]
pub struct MetadataRequest {
    pub file_path: String,
    pub include_detailed_analysis: bool,
}

/// The details that a loaded document gets at the basic level.
pub open spec fn basic_details() -> ValidationDetails {
    ValidationDetails {
        loaded_successfully: true,
        structure_valid: true,
        xref_valid: true,
        no_corrupted_objects: true,
        all_references_valid: true,
        is_web_optimized: false,
        pdfa_compliant: None,
        pdfua_compliant: None,
    }
}

/// The details of a document that failed to load.
pub open spec fn failed_details() -> ValidationDetails {
    ValidationDetails {
        loaded_successfully: false,
        structure_valid: false,
        xref_valid: false,
        no_corrupted_objects: false,
        all_references_valid: false,
        is_web_optimized: false,
        pdfa_compliant: None,
        pdfua_compliant: None,
    }
}

/// The trailer has a `Root` and the document has pages.
pub open spec fn structure_ok(d: &Document) -> bool {
    assoc(d.trailer_view(), name("Root")) is Some && d.pages.len() > 0
}

/// Every object of the table that is itself a reference points at an object present.
pub open spec fn references_ok(d: &Document) -> bool {
    forall|i: int|
        0 <= i < d.table().len() ==> match #[trigger] d.table()[i].1 {
            Obj::Reference(id) => has_key(d.table(), id),
            _ => true,
        }
}

/// The catalog that `Root` refers to has a `Linearized` entry.
pub open spec fn linearized(d: &Document) -> bool {
    match assoc(d.trailer_view(), name("Root")) {
        Some(Obj::Reference(id)) => match d.object(id) {
            Some(Obj::Dictionary(e)) => has_key(e, name("Linearized")),
            _ => false,
        },
        _ => false,
    }
}

/// The details at each level.
pub open spec fn details_for(d: &Document, config: ValidationConfig) -> ValidationDetails {
    let full = ValidationDetails {
        structure_valid: structure_ok(d),
        all_references_valid: references_ok(d),
        is_web_optimized: linearized(d),
        ..basic_details()
    };
    match config.level {
        ValidationLevel::Basic => basic_details(),
        ValidationLevel::Full => full,
        ValidationLevel::Deep => ValidationDetails {
            pdfa_compliant: Some(false),
            pdfua_compliant: Some(false),
            ..full
        },
    }
}

/// The severity and kind of each problem reported for `details`.
pub open spec fn issue_kinds(details: ValidationDetails, encrypted: bool) -> Seq<(IssueSeverity, IssueType)> {
    let a = if !details.loaded_successfully {
        seq![(IssueSeverity::Critical, IssueType::CorruptedObject)]
    } else {
        Seq::empty()
    };
    let b = if !details.structure_valid {
        a.push((IssueSeverity::Error, IssueType::InvalidStructure))
    } else {
        a
    };
    let c = if !details.xref_valid {
        b.push((IssueSeverity::Warning, IssueType::InvalidReference))
    } else {
        b
    };
    let d = if !details.no_corrupted_objects {
        c.push((IssueSeverity::Error, IssueType::CorruptedObject))
    } else {
        c
    };
    if encrypted {
        d.push((IssueSeverity::Warning, IssueType::EncryptedDocument))
    } else {
        d
    }
}

pub open spec fn kinds_of(issues: Seq<ValidationIssue>) -> Seq<(IssueSeverity, IssueType)> {
    issues.map_values(|i: ValidationIssue| (i.severity, i.issue_type))
}

pub open spec fn repair_advice() -> Seq<char> {
    "Consider repairing or recreating the PDF"@
}

pub open spec fn decrypt_advice() -> Seq<char> {
    "Remove encryption for full functionality"@
}

/// The advice that the problems call for: repairing once for any error or
/// critical problem, removing encryption for each encryption warning.
pub open spec fn issue_advice(kinds: Seq<(IssueSeverity, IssueType)>) -> Seq<Seq<char>>
    decreases kinds.len(),
{
    if kinds.len() == 0 {
        Seq::empty()
    } else {
        let r = issue_advice(kinds.drop_last());
        let (s, t) = kinds.last();
        if s == IssueSeverity::Critical || s == IssueSeverity::Error {
            if r.contains(repair_advice()) {
                r
            } else {
                r.push(repair_advice())
            }
        } else if s == IssueSeverity::Warning && t == IssueType::EncryptedDocument {
            r.push(decrypt_advice())
        } else {
            r
        }
    }
}

/// The advice that the metadata calls for.
pub open spec fn metadata_advice(
    advice: Seq<Seq<char>>,
    file_size: u64,
    encrypted: bool,
    has_forms: bool,
    page_count: usize,
) -> Seq<Seq<char>> {
    let a = if file_size > 10 * 1024 * 1024 {
        advice.push("Consider compressing the PDF to reduce file size"@)
    } else {
        advice
    };
    let b = if !encrypted && has_forms {
        a.push("Consider adding form field validation"@)
    } else {
        a
    };
    if page_count > 100 {
        b.push("Large document - consider splitting into smaller files"@)
    } else {
        b
    }
}

/// Checks documents' structure and reports problems and advice.
#[derive(Debug)]
pub struct PdfValidator {
    pub file_handler: FileHandler,
}

fn push_issue(
    issues: &mut Vec<ValidationIssue>,
    severity: IssueSeverity,
    issue_type: IssueType,
    description: &str,
    suggestion: &str,
)
    ensures
        kinds_of(final(issues)@) == kinds_of(old(issues)@).push((severity, issue_type)),
{
    let ghost before = issues@;
    issues.push(
        ValidationIssue {
            severity,
            issue_type,
            description: description.to_string(),
            location: None,
            suggestion: Some(suggestion.to_string()),
        },
    );
    assert(kinds_of(issues@) =~= kinds_of(before).push((severity, issue_type)));
}

impl PdfValidator {
    pub fn new() -> (r: PdfValidator)
        ensures
            r.file_handler.config.max_file_size == 100 * 1024 * 1024,
    {
        PdfValidator { file_handler: FileHandler::new() }
    }

    pub fn with_file_handler(file_handler: FileHandler) -> (r: PdfValidator)
        ensures
            r.file_handler == file_handler,
    {
        PdfValidator { file_handler }
    }

    /// Whether the trailer has a `Root` and the document has pages.
    pub fn validate_structure(doc: &Document) -> (r: bool)
        ensures
            r == structure_ok(doc),
    {
        doc.get_trailer(&name_bytes("Root")).is_some() && doc.pages.len() > 0
    }

    /// Whether every table object that is a reference points at an object present.
    pub fn validate_references(doc: &Document) -> (r: bool)
        requires
            doc.wf(),
        ensures
            r == references_ok(doc),
    {
        let mut i: usize = 0;
        while i < doc.objects.len()
            invariant
                doc.wf(),
                i <= doc.objects.len(),
                forall|k: int|
                    0 <= k < i ==> match #[trigger] doc.table()[k].1 {
                        Obj::Reference(id) => has_key(doc.table(), id),
                        _ => true,
                    },
            decreases doc.objects.len() - i,
        {
            match &doc.objects[i].1 {
                PdfObject::Reference(id) => {
                    let found = doc.find_object(*id);
                    proof {
                        lemma_assoc_has_key(doc.table(), *id);
                    }
                    if found.is_none() {
                        assert(!(match doc.table()[i as int].1 {
                            Obj::Reference(id) => has_key(doc.table(), id),
                            _ => true,
                        }));
                        return false;
                    }
                },
                _ => {},
            }
            i = i + 1;
        }
        true
    }

    /// Whether the catalog that `Root` refers to has a `Linearized` entry.
    pub fn check_web_optimized(doc: &Document) -> (r: bool)
        requires
            doc.wf(),
        ensures
            r == linearized(doc),
    {
        match doc.get_trailer(&name_bytes("Root")) {
            Some(PdfObject::Reference(id)) => match doc.get_object(*id) {
                Some(PdfObject::Dictionary(e)) => {
                    proof {
                        lemma_dictionary_view(*e);
                        lemma_assoc_has_key(entries_view(e@), name("Linearized"));
                    }
                    MetadataExtractor::entry(e, &name_bytes("Linearized")).is_some()
                },
                _ => false,
            },
            _ => false,
        }
    }

    /// The checks that `config.level` asks for, on a loaded document.
    pub fn validate_details(doc: &Document, config: &ValidationConfig) -> (r: ValidationDetails)
        requires
            doc.wf(),
        ensures
            r == details_for(doc, *config),
    {
        let mut details = ValidationDetails {
            loaded_successfully: true,
            structure_valid: true,
            xref_valid: true,
            no_corrupted_objects: true,
            all_references_valid: true,
            is_web_optimized: false,
            pdfa_compliant: None,
            pdfua_compliant: None,
        };
        match config.level {
            ValidationLevel::Basic => {},
            _ => {
                details.structure_valid = PdfValidator::validate_structure(doc);
                details.all_references_valid = PdfValidator::validate_references(doc);
                details.is_web_optimized = PdfValidator::check_web_optimized(doc);
                if config.level == ValidationLevel::Deep {
                    details.pdfa_compliant = Some(false);
                    details.pdfua_compliant = Some(false);
                }
            },
        }
        details
    }

    /// One problem for each failed check, and one for encryption.
    pub fn collect_issues(doc: &Document, details: &ValidationDetails) -> (r: Vec<ValidationIssue>)
        ensures
            kinds_of(r@) == issue_kinds(*details, assoc(doc.trailer_view(), name("Encrypt")) is Some),
    {
        let mut issues: Vec<ValidationIssue> = Vec::new();
        assert(kinds_of(issues@) =~= Seq::empty());
        if !details.loaded_successfully {
            push_issue(
                &mut issues,
                IssueSeverity::Critical,
                IssueType::CorruptedObject,
                "Failed to load PDF document",
                "Verify file integrity and format",
            );
        }
        if !details.structure_valid {
            push_issue(
                &mut issues,
                IssueSeverity::Error,
                IssueType::InvalidStructure,
                "PDF structure is invalid",
                "The document may be corrupted or malformed",
            );
        }
        if !details.xref_valid {
            push_issue(
                &mut issues,
                IssueSeverity::Warning,
                IssueType::InvalidReference,
                "Cross-reference table issues detected",
                "Consider rebuilding the PDF",
            );
        }
        if !details.no_corrupted_objects {
            push_issue(
                &mut issues,
                IssueSeverity::Error,
                IssueType::CorruptedObject,
                "Corrupted objects found in PDF",
                "The document may need to be repaired",
            );
        }
        if doc.get_trailer(&name_bytes("Encrypt")).is_some() {
            push_issue(
                &mut issues,
                IssueSeverity::Warning,
                IssueType::EncryptedDocument,
                "PDF is encrypted or password protected",
                "Encrypted PDFs may have limited functionality",
            );
        }
        issues
    }

    /// Advice for the problems found, then for the metadata when there is some.
    pub fn generate_recommendations(issues: &Vec<ValidationIssue>, metadata: Option<&PdfMetadata>) -> (r:
        Vec<String>)
        ensures
            r@.map_values(|s: String| s@) == match metadata {
                Some(m) => metadata_advice(
                    issue_advice(kinds_of(issues@)),
                    m.file_size,
                    m.is_encrypted,
                    m.has_forms,
                    m.page_count,
                ),
                None => issue_advice(kinds_of(issues@)),
            },
    {
        let mut r: Vec<String> = Vec::new();
        let mut i: usize = 0;
        while i < issues.len()
            invariant
                i <= issues.len(),
                r@.map_values(|s: String| s@) == issue_advice(kinds_of(issues@.subrange(0, i as int))),
            decreases issues.len() - i,
        {
            let ghost prev = r@.map_values(|s: String| s@);
            let ghost ks = kinds_of(issues@.subrange(0, i + 1));
            assert(ks.drop_last() =~= kinds_of(issues@.subrange(0, i as int)));
            assert(ks.last() == (issues@[i as int].severity, issues@[i as int].issue_type));
            let sev = issues[i].severity;
            if sev == IssueSeverity::Critical || sev == IssueSeverity::Error {
                let advice = "Consider repairing or recreating the PDF".to_string();
                let mut present = false;
                let mut j: usize = 0;
                while j < r.len()
                    invariant
                        j <= r.len(),
                        advice@ == repair_advice(),
                        present == exists|k: int| 0 <= k < j && r@[k]@ == advice@,
                    decreases r.len() - j,
                {
                    if r[j] == advice {
                        present = true;
                    }
                    j = j + 1;
                }
                proof {
                    if present {
                        let k = choose|k: int| 0 <= k < j && r@[k]@ == advice@;
                        assert(prev[k] == repair_advice());
                    } else {
                        assert forall|k: int| 0 <= k < prev.len() implies prev[k] != repair_advice() by {
                            assert(prev[k] == r@[k]@);
                        }
                    }
                }
                if !present {
                    r.push(advice);
                }
            } else if sev == IssueSeverity::Warning && issues[i].issue_type == IssueType::EncryptedDocument {
                r.push("Remove encryption for full functionality".to_string());
            }
            i = i + 1;
            assert(r@.map_values(|s: String| s@) =~= issue_advice(ks));
        }
        assert(issues@.subrange(0, i as int) =~= issues@);
        match metadata {
            Some(m) => {
                let ghost base = r@.map_values(|s: String| s@);
                if m.file_size > 10 * 1024 * 1024 {
                    r.push("Consider compressing the PDF to reduce file size".to_string());
                }
                if !m.is_encrypted && m.has_forms {
                    r.push("Consider adding form field validation".to_string());
                }
                if m.page_count > 100 {
                    r.push("Large document - consider splitting into smaller files".to_string());
                }
                assert(r@.map_values(|s: String| s@) =~= metadata_advice(
                    base,
                    m.file_size,
                    m.is_encrypted,
                    m.has_forms,
                    m.page_count,
                ));
            },
            None => {},
        }
        r
    }

    /// Validates `doc`, the loaded `request.file_path`, or reports the file
    /// as unloadable when `doc` is `None`. The document is valid when it
    /// loaded, its structure holds and no object is corrupted.
    pub fn validate_document(request: &ValidateRequest, doc: Option<&Document>) -> (r: ValidationResult)
        requires
            doc matches Some(d) ==> d.wf(),
        ensures
            r.validation_time_ms == 0,
            doc is None ==> !r.is_valid && r.details == failed_details() && r.metadata is None
                && kinds_of(r.issues@) == seq![(IssueSeverity::Critical, IssueType::CorruptedObject)]
                && r.recommendations@.map_values(|s: String| s@) == seq![
                    "Verify file integrity"@,
                    "Check if file is a valid PDF"@,
                ],
            doc matches Some(d) ==> {
                &&& r.details == details_for(d, request.config)
                &&& r.is_valid == (r.details.loaded_successfully && r.details.structure_valid
                    && r.details.no_corrupted_objects)
                &&& kinds_of(r.issues@) == issue_kinds(
                    r.details,
                    assoc(d.trailer_view(), name("Encrypt")) is Some,
                )
                &&& r.metadata is Some <==> (request.extract_metadata
                    || request.config.extract_metadata)
                &&& r.metadata matches Some(m) ==> extracted_from(d, request.file_path@, m)
                    && m.file_size == 0
                &&& r.recommendations@.map_values(|s: String| s@) == match r.metadata {
                    Some(m) => metadata_advice(
                        issue_advice(kinds_of(r.issues@)),
                        m.file_size,
                        m.is_encrypted,
                        m.has_forms,
                        m.page_count,
                    ),
                    None => issue_advice(kinds_of(r.issues@)),
                }
            },
    {
        match doc {
            None => {
                let mut issues: Vec<ValidationIssue> = Vec::new();
                assert(kinds_of(issues@) =~= Seq::empty());
                push_issue(
                    &mut issues,
                    IssueSeverity::Critical,
                    IssueType::CorruptedObject,
                    "Failed to load PDF",
                    "Verify that the file is a valid PDF and not corrupted",
                );
                let mut recommendations: Vec<String> = Vec::new();
                recommendations.push("Verify file integrity".to_string());
                recommendations.push("Check if file is a valid PDF".to_string());
                assert(recommendations@.map_values(|s: String| s@) =~= seq![
                    "Verify file integrity"@,
                    "Check if file is a valid PDF"@,
                ]);
                ValidationResult {
                    is_valid: false,
                    details: ValidationDetails {
                        loaded_successfully: false,
                        structure_valid: false,
                        xref_valid: false,
                        no_corrupted_objects: false,
                        all_references_valid: false,
                        is_web_optimized: false,
                        pdfa_compliant: None,
                        pdfua_compliant: None,
                    },
                    metadata: None,
                    issues,
                    recommendations,
                    validation_time_ms: 0,
                }
            },
            Some(d) => {
                let details = PdfValidator::validate_details(d, &request.config);
                let metadata = if request.extract_metadata || request.config.extract_metadata {
                    Some(MetadataExtractor::extract(d, &request.file_path))
                } else {
                    None
                };
                let issues = PdfValidator::collect_issues(d, &details);
                let meta_ref: Option<&PdfMetadata> = match &metadata {
                    Some(m) => Some(m),
                    None => None,
                };
                let recommendations = PdfValidator::generate_recommendations(&issues, meta_ref);
                ValidationResult {
                    is_valid: details.loaded_successfully && details.structure_valid
                        && details.no_corrupted_objects,
                    details,
                    metadata,
                    issues,
                    recommendations,
                    validation_time_ms: 0,
                }
            },
        }
    }
}

} // verus!
