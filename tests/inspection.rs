use dochub_core::document::Document;
use dochub_core::file_handler::FileHandler;
use dochub_core::metadata::MetadataExtractor;
use dochub_core::object::{ObjectId, PdfObject};
use dochub_core::validator::{
    IssueSeverity, IssueType, PdfValidator, ValidateRequest, ValidationConfig, ValidationDetails,
    ValidationLevel,
};

fn key(s: &str) -> Vec<u8> {
    s.as_bytes().to_vec()
}

fn id(number: u32) -> ObjectId {
    ObjectId { number, generation: 0 }
}

/// Two pages, an Info dictionary (a title inline, an author behind a
/// reference, keywords), a catalog, and optionally an `Encrypt` entry.
fn sample(encrypted: bool) -> Document {
    let page1 = PdfObject::Dictionary(vec![
        (key("Type"), PdfObject::Name(key("Page"))),
        (key("Annots"), PdfObject::Array(vec![])),
    ]);
    let page2 = PdfObject::Dictionary(vec![(key("Type"), PdfObject::Name(key("Page")))]);
    let info = PdfObject::Dictionary(vec![
        (key("Title"), PdfObject::Str(key("Report"), false)),
        (key("Author"), PdfObject::Reference(id(5))),
        (key("Keywords"), PdfObject::Str(key("pdf, merge ,split"), false)),
        (key("Subject"), PdfObject::Str(vec![0xff, 0xfe], false)),
    ]);
    let catalog = PdfObject::Dictionary(vec![(key("Type"), PdfObject::Name(key("Catalog")))]);
    let mut trailer = vec![
        (key("Root"), PdfObject::Reference(id(6))),
        (key("Info"), PdfObject::Reference(id(3))),
    ];
    if encrypted {
        trailer.push((key("Encrypt"), PdfObject::Reference(id(7))));
    }
    Document {
        version: "1.7".to_string(),
        objects: vec![
            (id(1), page1),
            (id(2), page2),
            (id(3), info),
            (id(4), PdfObject::Reference(id(2))),
            (id(5), PdfObject::Str(key("Ana"), false)),
            (id(6), catalog),
        ],
        trailer,
        pages: vec![id(1), id(2)],
        max_id: 6,
    }
}

#[test]
fn metadata_reads_info_and_counts() {
    let doc = sample(true);
    let m = MetadataExtractor::extract(&doc, &"report.pdf".to_string());
    assert_eq!(m.page_count, 2);
    assert_eq!(m.pdf_version, "1.7");
    assert!(m.is_encrypted);
    assert_eq!(m.title.as_deref(), Some("Report"));
    assert_eq!(m.author.as_deref(), Some("Ana"));
    assert_eq!(m.subject, None);
    assert_eq!(m.creator, None);
    assert_eq!(
        m.keywords,
        Some(vec!["pdf".to_string(), "merge".to_string(), "split".to_string()])
    );
    assert!(m.has_forms);
    assert_eq!(m.object_counts.dictionary, 4);
    assert_eq!(m.object_counts.reference, 1);
    assert_eq!(m.object_counts.string, 1);
    assert_eq!(m.object_counts.null, 0);
    assert!(!MetadataExtractor::extract(&sample(false), &"r.pdf".to_string()).is_encrypted);
}

#[test]
fn validation_of_a_sound_document() {
    let doc = sample(false);
    let request = ValidateRequest {
        file_path: "report.pdf".to_string(),
        config: ValidationConfig::default(),
        extract_metadata: false,
    };
    let r = PdfValidator::validate_document(&request, Some(&doc));
    assert!(r.is_valid);
    assert!(r.details.structure_valid);
    assert!(r.details.all_references_valid);
    assert!(!r.details.is_web_optimized);
    assert!(r.issues.is_empty());
    assert!(r.metadata.is_some());
}

#[test]
fn validation_reports_encryption_and_unloadable_files() {
    let doc = sample(true);
    let mut config = ValidationConfig::default();
    config.level = ValidationLevel::Deep;
    let request = ValidateRequest { file_path: "r.pdf".to_string(), config, extract_metadata: false };
    let r = PdfValidator::validate_document(&request, Some(&doc));
    assert_eq!(r.details.pdfa_compliant, Some(false));
    assert_eq!(r.issues.len(), 1);
    assert_eq!(r.issues[0].severity, IssueSeverity::Warning);
    assert_eq!(r.issues[0].issue_type, IssueType::EncryptedDocument);
    assert!(r.recommendations.contains(&"Remove encryption for full functionality".to_string()));

    let failed = PdfValidator::validate_document(&request, None);
    assert!(!failed.is_valid);
    assert_eq!(failed.issues[0].severity, IssueSeverity::Critical);
}

#[test]
fn dangling_reference_and_missing_root_are_found() {
    let mut doc = sample(false);
    doc.objects[3].1 = PdfObject::Reference(id(42));
    doc.trailer.remove(0);
    assert!(!PdfValidator::validate_references(&doc));
    assert!(!PdfValidator::validate_structure(&doc));
    let details = PdfValidator::validate_details(&doc, &ValidationConfig::default());
    let issues = PdfValidator::collect_issues(&doc, &details);
    assert_eq!(issues[0].issue_type, IssueType::InvalidStructure);
    let advice = PdfValidator::generate_recommendations(&issues, None);
    assert_eq!(advice, vec!["Consider repairing or recreating the PDF".to_string()]);
}

#[test]
fn validate_basic_checks_the_file_facts() {
    let request = ValidateRequest {
        file_path: "docs/a.pdf".to_string(),
        config: ValidationConfig::default(),
        extract_metadata: true,
    };
    let handler = FileHandler::new();
    assert!(request.validate_basic(&handler, true, 1024).is_ok());
    assert!(request.validate_basic(&handler, false, 1024).is_err());
}

#[test]
fn test_validation_level_default() {
    assert_eq!(ValidationLevel::default(), ValidationLevel::Full);
}

#[test]
fn test_validation_config_default() {
    let config = ValidationConfig::default();
    assert_eq!(config.level, ValidationLevel::Full);
    assert!(config.check_xref);
    assert!(config.validate_structure);
    assert!(config.detect_encryption);
    assert!(config.extract_metadata);
    assert_eq!(config.max_size_for_deep_analysis, 50 * 1024 * 1024);
}

#[test]
fn test_issue_severity_ordering() {
    assert!(IssueSeverity::Critical > IssueSeverity::Error);
    assert!(IssueSeverity::Error > IssueSeverity::Warning);
    assert!(IssueSeverity::Warning > IssueSeverity::Info);
}

#[test]
fn test_validation_details_default() {
    let details = ValidationDetails {
        loaded_successfully: false,
        structure_valid: false,
        xref_valid: false,
        no_corrupted_objects: false,
        all_references_valid: false,
        is_web_optimized: false,
        pdfa_compliant: None,
        pdfua_compliant: None,
    };
    assert!(!details.loaded_successfully);
    assert!(!details.structure_valid);
}

#[test]
fn test_pdf_validator_creation() {
    let validator = PdfValidator::new();
    assert!(validator.file_handler.config.max_file_size > 0);
    let file_handler = FileHandler::new();
    let validator = PdfValidator::with_file_handler(file_handler);
    assert!(validator.file_handler.config.max_file_size > 0);
}
