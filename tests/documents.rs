use dochub_core::copier::{ObjectGraphCopier, RemapTable};
use dochub_core::document::Document;
use dochub_core::error::{AppError, PdfError, ValidationError};
use dochub_core::file_handler::FileHandler;
use dochub_core::merger::{MergeConfig, MergeRequest, PdfMerger};
use dochub_core::object::{ObjectId, PdfObject};
use dochub_core::page_range::{PageRange, PageRangeParser};
use dochub_core::splitter::{PdfSplitter, SplitConfig, SplitRequest};

fn key(s: &str) -> Vec<u8> {
    s.as_bytes().to_vec()
}

fn id(number: u32) -> ObjectId {
    ObjectId { number, generation: 0 }
}

fn page(content: i64, refs: &[ObjectId]) -> PdfObject {
    let mut entries = vec![
        (key("Type"), PdfObject::Name(key("Page"))),
        (key("Contents"), PdfObject::Integer(content)),
    ];
    if !refs.is_empty() {
        entries.push((
            key("Annots"),
            PdfObject::Array(refs.iter().map(|r| PdfObject::Reference(*r)).collect()),
        ));
    }
    PdfObject::Dictionary(entries)
}

/// A document of `count` pages numbered from 1, page `i` holding content `tag * 100 + i`.
fn document(count: u32, tag: i64) -> Document {
    let mut objects = Vec::new();
    let mut pages = Vec::new();
    for i in 0..count {
        objects.push((id(i + 1), page(tag * 100 + i as i64, &[])));
        pages.push(id(i + 1));
    }
    Document {
        version: "1.4".to_string(),
        objects,
        trailer: vec![(key("Info"), PdfObject::Reference(id(900)))],
        pages,
        max_id: count,
    }
}

fn lookup<'a>(d: &'a Document, target: ObjectId) -> Option<&'a PdfObject> {
    d.objects.iter().rev().find(|(k, _)| *k == target).map(|(_, v)| v)
}

fn entry<'a>(o: &'a PdfObject, name: &str) -> Option<&'a PdfObject> {
    match o {
        PdfObject::Dictionary(e) => e.iter().rev().find(|(k, _)| k == name.as_bytes()).map(|(_, v)| v),
        _ => None,
    }
}

fn contents(d: &Document) -> Vec<i64> {
    d.pages
        .iter()
        .map(|p| match entry(lookup(d, *p).unwrap(), "Contents") {
            Some(PdfObject::Integer(n)) => *n,
            _ => panic!("page without contents"),
        })
        .collect()
}

fn merge_request(count: usize, page_order: Option<Vec<usize>>) -> MergeRequest {
    MergeRequest {
        files: (0..count).map(|i| format!("file{}.pdf", i)).collect(),
        output_path: "out/merged.pdf".to_string(),
        config: MergeConfig::default(),
        page_order,
    }
}

fn split_request(ranges: Vec<PageRange>) -> SplitRequest {
    SplitRequest {
        file_path: "input.pdf".to_string(),
        page_ranges: ranges,
        output_dir: "./output".to_string(),
        config: SplitConfig::default(),
    }
}

#[test]
fn merging_three_and_five_pages_gives_eight() {
    let sources = vec![document(3, 1), document(5, 2)];
    let out = PdfMerger::new().merge_documents(&merge_request(2, None), &sources).unwrap();
    assert_eq!(out.pages.len(), 8);
    assert_eq!(contents(&out), vec![100, 101, 102, 200, 201, 202, 203, 204]);
    assert_eq!(out.version, "1.5");
}

#[test]
fn merge_output_has_catalog_and_page_tree() {
    let sources = vec![document(2, 1), document(1, 2)];
    let out = PdfMerger::new().merge_documents(&merge_request(2, None), &sources).unwrap();
    let root = out.trailer.iter().rev().find(|(k, _)| k == b"Root").map(|(_, v)| v).unwrap();
    let catalog_id = match root {
        PdfObject::Reference(r) => *r,
        _ => panic!("root is not a reference"),
    };
    assert_eq!(catalog_id, id(5));
    let catalog = lookup(&out, catalog_id).unwrap();
    let pages_id = match entry(catalog, "Pages") {
        Some(PdfObject::Reference(r)) => *r,
        _ => panic!("catalog without pages"),
    };
    let tree = lookup(&out, pages_id).unwrap();
    match entry(tree, "Count") {
        Some(PdfObject::Integer(n)) => assert_eq!(*n, 3),
        _ => panic!("no count"),
    }
    match entry(tree, "Kids") {
        Some(PdfObject::Array(kids)) => {
            let ids: Vec<ObjectId> = kids
                .iter()
                .map(|k| match k {
                    PdfObject::Reference(r) => *r,
                    _ => panic!("kid is not a reference"),
                })
                .collect();
            assert_eq!(ids, out.pages);
        }
        _ => panic!("no kids"),
    }
    let info = out.trailer.iter().find(|(k, _)| k == b"Info").map(|(_, v)| v);
    assert!(matches!(info, Some(PdfObject::Reference(r)) if *r == id(900)));
}

#[test]
fn page_order_puts_the_named_file_first() {
    let sources = vec![document(1, 1), document(2, 2), document(1, 3)];
    let out = PdfMerger::new()
        .merge_documents(&merge_request(3, Some(vec![2, 0, 1])), &sources)
        .unwrap();
    assert_eq!(contents(&out), vec![300, 100, 200, 201]);
}

#[test]
fn page_order_with_index_out_of_range_is_rejected() {
    let sources = vec![document(1, 1), document(1, 2)];
    let r = PdfMerger::new().merge_documents(&merge_request(2, Some(vec![0, 3])), &sources);
    assert!(matches!(r, Err(AppError::Validation(ValidationError::InvalidInput { .. }))));
    assert!(merge_request(2, Some(vec![0, 0])).validate().is_err());
    assert!(merge_request(3, Some(vec![0, 1])).validate().is_err());
    assert!(merge_request(0, None).validate().is_err());
    assert!(merge_request(3, Some(vec![1, 2, 0])).validate().is_ok());
}

#[test]
fn merge_fails_on_a_missing_page_object() {
    let mut broken = document(2, 1);
    broken.objects.remove(1);
    let r = PdfMerger::new().merge_documents(&merge_request(1, None), &vec![broken]);
    assert!(matches!(r, Err(AppError::Pdf(PdfError::PageNotFound { page: 2, .. }))));
}

#[test]
fn splitting_ten_pages_with_eleven_fails() {
    let doc = document(10, 1);
    let ranges = PageRangeParser::parse_ranges("11").unwrap();
    let r = PdfSplitter::new().split_document(&split_request(ranges), &doc);
    assert!(matches!(r, Err(AppError::Validation(ValidationError::InvalidPageRange { .. }))));
}

#[test]
fn splitting_ten_pages_with_full_range_gives_one_file() {
    let doc = document(10, 1);
    let ranges = PageRangeParser::parse_ranges("1-10").unwrap();
    let parts = PdfSplitter::new().split_document(&split_request(ranges), &doc).unwrap();
    assert_eq!(parts.len(), 1);
    assert_eq!(parts[0].pages.len(), 10);
    assert_eq!(contents(&parts[0]), contents(&doc));
}

#[test]
fn split_with_no_ranges_is_a_validation_error() {
    let doc = document(3, 1);
    let r = PdfSplitter::new().split_document(&split_request(vec![]), &doc);
    assert!(matches!(r, Err(AppError::Validation(ValidationError::InvalidInput { .. }))));
}

#[test]
fn split_parts_keep_ascending_page_order() {
    let doc = document(10, 4);
    let ranges = PageRangeParser::parse_ranges("7-9,2").unwrap();
    let parts = PdfSplitter::new().split_document(&split_request(ranges), &doc).unwrap();
    assert_eq!(contents(&parts[0]), vec![406, 407, 408]);
    assert_eq!(contents(&parts[1]), vec![401]);
}

#[test]
fn split_into_single_pages_then_merge_restores_the_document() {
    let doc = document(6, 5);
    let ranges: Vec<PageRange> = (1..=6).map(|p| PageRange { start: p, end: p }).collect();
    let parts = PdfSplitter::new().split_document(&split_request(ranges), &doc).unwrap();
    assert_eq!(parts.len(), 6);
    let merged = PdfMerger::new().merge_documents(&merge_request(6, None), &parts).unwrap();
    assert_eq!(merged.pages.len(), 6);
    assert_eq!(contents(&merged), contents(&doc));
}

#[test]
fn split_by_partition_then_merge_gives_page_count() {
    let doc = document(10, 6);
    let ranges = PageRangeParser::parse_ranges("1-3,4-7,8-10").unwrap();
    let parts = PdfSplitter::new().split_document(&split_request(ranges), &doc).unwrap();
    let merged = PdfMerger::new().merge_documents(&merge_request(3, None), &parts).unwrap();
    assert_eq!(merged.pages.len(), 10);
    assert_eq!(contents(&merged), contents(&doc));
}

#[test]
fn copied_references_between_copied_pages_resolve() {
    let mut src = document(3, 7);
    src.objects[0].1 = page(700, &[id(2)]);
    src.objects[1].1 = page(701, &[id(1), id(3)]);
    let mut dest = Document::with_version("1.5");
    dest.objects.push((id(1), PdfObject::Null));
    dest.objects.push((id(2), PdfObject::Null));
    dest.max_id = 2;
    let ids = ObjectGraphCopier::copy_pages(&src, &vec![1, 2, 3], "in.pdf", &mut dest).unwrap();
    assert_eq!(ids, vec![id(3), id(4), id(5)]);
    for o in &dest.objects[2..] {
        if let Some(PdfObject::Array(refs)) = entry(&o.1, "Annots") {
            for r in refs {
                match r {
                    PdfObject::Reference(t) => assert!(ids.contains(t)),
                    _ => panic!("not a reference"),
                }
            }
        }
    }
    match entry(lookup(&dest, id(3)).unwrap(), "Annots") {
        Some(PdfObject::Array(refs)) => assert!(matches!(refs[0], PdfObject::Reference(r) if r == id(4))),
        _ => panic!("annotations lost"),
    }
}

#[test]
fn references_to_objects_not_copied_stay_as_they_were() {
    let mut src = document(2, 8);
    src.objects[0].1 = page(800, &[id(2)]);
    let mut dest = Document::with_version("1.5");
    let ids = ObjectGraphCopier::copy_pages(&src, &vec![1], "in.pdf", &mut dest).unwrap();
    match entry(lookup(&dest, ids[0]).unwrap(), "Annots") {
        Some(PdfObject::Array(refs)) => assert!(matches!(refs[0], PdfObject::Reference(r) if r == id(2))),
        _ => panic!("annotations lost"),
    }
}

#[test]
fn copy_page_reports_missing_page() {
    let src = document(2, 1);
    let mut dest = Document::with_version("1.5");
    let mut remap = RemapTable::new();
    let r = ObjectGraphCopier::copy_page(&src, id(9), "a.pdf", 4, &mut dest, &mut remap);
    match r {
        Err(AppError::Pdf(PdfError::PageNotFound { path, page })) => {
            assert_eq!(path, "a.pdf");
            assert_eq!(page, 4);
        }
        _ => panic!("expected PageNotFound"),
    }
    assert!(dest.objects.is_empty());
    let r = ObjectGraphCopier::copy_pages(&src, &vec![3], "a.pdf", &mut dest);
    assert!(matches!(r, Err(AppError::Pdf(PdfError::PageNotFound { page: 3, .. }))));
}

#[test]
fn adding_objects_past_the_largest_number_fails() {
    let mut d = Document::with_version("1.5");
    d.max_id = u32::MAX;
    assert!(matches!(
        d.add_object(PdfObject::Null),
        Err(AppError::Pdf(PdfError::ProcessingFailed { .. }))
    ));
}

#[test]
fn test_split_request_generate_output_path() -> Result<(), AppError> {
    let request = SplitRequest {
        file_path: "input.pdf".to_string(),
        page_ranges: vec![PageRange::new(1, 3)?, PageRange::single(5)?],
        output_dir: "./output".to_string(),
        config: SplitConfig::default(),
    };
    let path1 = request.generate_output_path(0);
    assert!(path1.contains("split_1"));
    let path2 = request.generate_output_path(1);
    assert!(path2.contains("split_2"));
    Ok(())
}

#[test]
fn output_names_fill_every_placeholder() {
    let mut request = split_request(vec![PageRange { start: 4, end: 9 }]);
    request.config.naming_pattern = "part{index}_{range}_{start}to{end}".to_string();
    assert_eq!(request.generate_output_path(0), "./output/part1_4-9_4to9.pdf");
    request.output_dir = "out/".to_string();
    assert_eq!(request.generate_output_path(0), "out/part1_4-9_4to9.pdf");
}

#[test]
fn pdf_splitter_test_split_config_default() {
    let config = SplitConfig::default();
    assert!(config.preserve_metadata);
    assert_eq!(config.naming_pattern, "split_{index}");
    assert!(config.create_output_dir);
    assert!(config.preserve_page_order);
}

#[test]
fn api_types_test_split_config_default() {
    let config = SplitConfig::default();
    assert!(config.preserve_metadata);
    assert_eq!(config.naming_pattern, "split_{index}");
    assert!(config.create_output_dir);
}

#[test]
fn test_pdf_splitter_creation() {
    let splitter = PdfSplitter::new();
    assert!(splitter.file_handler.config.max_file_size > 0);
    let file_handler = FileHandler::new();
    let splitter = PdfSplitter::with_file_handler(file_handler);
    assert!(splitter.file_handler.config.max_file_size > 0);
}

#[test]
fn pdf_merger_test_merge_config_default() {
    let config = MergeConfig::default();
    assert!(config.preserve_metadata);
    assert!(!config.optimize_size);
    assert!(config.keep_bookmarks);
    assert_eq!(config.compression_level, 6);
}

#[test]
fn api_types_test_merge_config_default() {
    let config = MergeConfig::default();
    assert!(config.preserve_metadata);
    assert!(!config.optimize_size);
    assert!(config.keep_bookmarks);
    assert_eq!(config.compression_level, 6);
}

#[test]
fn test_pdf_merger_creation() {
    let merger = PdfMerger::new();
    assert!(merger.file_handler.config.max_file_size > 0);
    let file_handler = FileHandler::new();
    let merger = PdfMerger::with_file_handler(file_handler);
    assert!(merger.file_handler.config.max_file_size > 0);
}

#[test]
fn each_merged_source_is_remapped_on_its_own() {
    let mut a = document(2, 1);
    a.objects[0].1 = page(100, &[id(2)]);
    let mut b = document(2, 2);
    b.objects[0].1 = page(200, &[id(2)]);
    let out = PdfMerger::new().merge_documents(&merge_request(2, None), &vec![a, b]).unwrap();
    assert_eq!(out.pages, vec![id(1), id(2), id(3), id(4)]);
    let first = entry(lookup(&out, id(1)).unwrap(), "Annots");
    assert!(matches!(first, Some(PdfObject::Array(r)) if matches!(r[0], PdfObject::Reference(t) if t == id(2))));
    let third = entry(lookup(&out, id(3)).unwrap(), "Annots");
    assert!(matches!(third, Some(PdfObject::Array(r)) if matches!(r[0], PdfObject::Reference(t) if t == id(4))));
}

#[test]
fn split_part_references_stay_inside_the_part() {
    let mut doc = document(4, 3);
    doc.objects[2].1 = page(302, &[id(4)]);
    let parts = PdfSplitter::new()
        .split_document(&split_request(vec![PageRange { start: 3, end: 4 }]), &doc)
        .unwrap();
    assert_eq!(parts[0].pages, vec![id(1), id(2)]);
    let annots = entry(lookup(&parts[0], id(1)).unwrap(), "Annots");
    assert!(matches!(annots, Some(PdfObject::Array(r)) if matches!(r[0], PdfObject::Reference(t) if t == id(2))));
}

#[test]
fn outputs_hold_only_pages_tree_and_catalog() {
    let doc = document(5, 9);
    let parts = PdfSplitter::new()
        .split_document(&split_request(vec![PageRange { start: 2, end: 3 }]), &doc)
        .unwrap();
    assert_eq!(parts[0].objects.len(), 4);
    let merged = PdfMerger::new().merge_documents(&merge_request(2, None), &vec![document(2, 1), document(3, 2)]).unwrap();
    assert_eq!(merged.objects.len(), 7);
}
