use vstd::prelude::*;

use crate::assembler::{name, page_tree_sound, DocumentAssembler};
use crate::copier::{
    fresh_ids, lemma_copy_leaves_no_dangling_reference, lemma_refs_within_grow, pages_resolve,
    remap_of, source_ids, source_page, ObjectGraphCopier,
};
use crate::document::{duplicate, name_bytes, Document};
use crate::error::{is_invalid_input, is_invalid_page_range, AppError, PdfError, ValidationError};
use crate::file_handler::FileHandler;
use crate::merger::{
    merge_succeeds_when, merged_page_shapes, merged_pages_are, ordered_sources, page_shapes,
    pages_present, total_pages, MergeRequest,
};
use crate::object::{
    assoc, has_key, lemma_assoc_index, lemma_remap_keeps_shape, refs_within, remap_obj, Obj,
    ObjectId, PdfObject,
};
use crate::page_range::PageRange;
use crate::text::{decimal, decimal_string, push_char, replace_all, replace_str};

verus! {

/// Settings of a split.
#[derive(Debug)]
pub struct SplitConfig {
    /// Copy the source's `Info` entry into each output's trailer.
    pub preserve_metadata: bool,
    /// Output name, with placeholders `{index}` (one-based), `{range}`, `{start}` and `{end}`.
    pub naming_pattern: String,
    pub create_output_dir: bool,
    pub preserve_page_order: bool,
}

impl SplitConfig {
    pub fn default() -> (r: SplitConfig)
        ensures
            r.preserve_metadata,
            r.naming_pattern@ == "split_{index}"@,
            r.create_output_dir,
            r.preserve_page_order,
    {
        SplitConfig {
            preserve_metadata: true,
            naming_pattern: "split_{index}".to_string(),
            create_output_dir: true,
            preserve_page_order: true,
        }
    }
}

/// `name` under directory `dir`, as `Path::join` forms it on Unix.
pub open spec fn join_path(dir: Seq<char>, name: Seq<char>) -> Seq<char> {
    if name.len() > 0 && name[0] == '/' {
        name
    } else if dir.len() == 0 || dir.last() == '/' {
        dir + name
    } else {
        dir + seq!['/'] + name
    }
}

/// The file name of output `index` (zero-based) for `range`: the pattern with
/// its placeholders filled, then `.pdf`.
pub open spec fn output_name(pattern: Seq<char>, index: nat, range: PageRange) -> Seq<char> {
    let a = replace_all(pattern, "{index}"@, decimal(index + 1));
    let b = replace_all(a, "{range}"@, range.text());
    let c = replace_all(b, "{start}"@, decimal(range.start as nat));
    let d = replace_all(c, "{end}"@, decimal(range.end as nat));
    d + ".pdf"@
}

/// A split: one source file, the ranges to cut it into, and where the parts go.
#[derive(Debug)]
pub struct SplitRequest {
    pub file_path: String,
    pub page_ranges: Vec<PageRange>,
    pub output_dir: String,
    pub config: SplitConfig,
}

impl SplitRequest {
    /// Every range is well formed and ends within `total_pages`.
    pub open spec fn ranges_within(&self, total_pages: nat) -> bool {
        forall|i: int|
            0 <= i < self.page_ranges.len() ==> (#[trigger] self.page_ranges@[i]).wf()
                && self.page_ranges@[i].end <= total_pages
    }

    /// Checks the ranges against the document's real page count: fails with
    /// an invalid-input error when there is no range, and with
    /// `InvalidPageRange` when a range is malformed or ends past `total_pages`.
    pub fn validate(&self, total_pages: u32) -> (r: Result<(), AppError>)
        ensures
            r is Ok <==> (self.page_ranges.len() > 0 && self.ranges_within(total_pages as nat)),
            self.page_ranges.len() == 0 ==> r is Err && is_invalid_input(r->Err_0),
            self.page_ranges.len() > 0 && !self.ranges_within(total_pages as nat) ==> r is Err
                && is_invalid_page_range(r->Err_0),
    {
        if self.page_ranges.len() == 0 {
            return Err(AppError::validation("No page ranges provided for split"));
        }
        let mut i: usize = 0;
        while i < self.page_ranges.len()
            invariant
                i <= self.page_ranges.len(),
                forall|k: int|
                    0 <= k < i ==> (#[trigger] self.page_ranges@[k]).wf() && self.page_ranges@[k].end
                        <= total_pages,
            decreases self.page_ranges.len() - i,
        {
            let r = self.page_ranges[i];
            if r.start < 1 || r.end < r.start || r.start > total_pages || r.end > total_pages {
                let mut text = r.to_string();
                text.append(" exceeds ");
                let count = decimal_string(total_pages as u64);
                text.append(count.as_str());
                return Err(AppError::Validation(ValidationError::InvalidPageRange { range: text }));
            }
            i = i + 1;
        }
        Ok(())
    }

    /// The output path of part `index` (zero-based).
    pub fn generate_output_path(&self, index: usize) -> (r: String)
        requires
            index < self.page_ranges.len(),
        ensures
            r@ == join_path(
                self.output_dir@,
                output_name(self.config.naming_pattern@, index as nat, self.page_ranges@[index as int]),
            ),
    {
        let range = self.page_ranges[index];
        proof {
            reveal_strlit("{index}");
            reveal_strlit("{range}");
            reveal_strlit("{start}");
            reveal_strlit("{end}");
        }
        let number = decimal_string(index as u64 + 1);
        let a = replace_str(self.config.naming_pattern.as_str(), "{index}", number.as_str());
        let text = range.to_string();
        let b = replace_str(a.as_str(), "{range}", text.as_str());
        let start = decimal_string(range.start as u64);
        let c = replace_str(b.as_str(), "{start}", start.as_str());
        let end = decimal_string(range.end as u64);
        let mut file = replace_str(c.as_str(), "{end}", end.as_str());
        file.append(".pdf");
        let ghost name = file@;
        assert(name == output_name(self.config.naming_pattern@, index as nat, range));
        let dir_len = self.output_dir.as_str().unicode_len();
        let file_len = file.as_str().unicode_len();
        if file_len > 0 && file.as_str().get_char(0) == '/' {
            return file;
        }
        let mut out = self.output_dir.clone();
        if dir_len > 0 && self.output_dir.as_str().get_char(dir_len - 1) != '/' {
            push_char(&mut out, '/');
        }
        out.append(file.as_str());
        out
    }
}

/// What a split reports for one range.
#[derive(Debug)]
pub struct RangeStat {
    pub range: PageRange,
    pub output_file: String,
    pub file_size: u64,
    pub page_count: u32,
}

/// What a split reports.
#[derive(Debug)]
pub struct SplitResult {
    pub output_files: Vec<String>,
    pub total_pages_processed: u32,
    pub total_output_size: u64,
    pub processing_time_ms: u64,
    pub files_created: usize,
    pub metadata_preserved: bool,
    pub range_stats: Vec<RangeStat>,
}

/// `out` has the pages of `range`, in ascending order, up to where their
/// references point.
pub open spec fn part_pages_match(doc: Document, range: PageRange, out: Document) -> bool {
    &&& out.pages.len() == range.end - range.start + 1
    &&& page_shapes(out) == page_shapes(doc).subrange(range.start - 1, range.end as int)
}

/// The identifiers of the pages of `range`, in ascending order.
pub open spec fn range_ids(doc: Document, range: PageRange) -> Seq<ObjectId> {
    Seq::new((range.end - range.start + 1) as nat, |k: int| doc.pages@[range.start - 1 + k])
}

/// `out` is a part cut from `doc` for `range`: a version-1.5 document whose
/// objects are the range's pages in ascending order, numbered from 1, and
/// the page-tree node and catalog that list them; each page is
/// rewritten through the part's own remap table; a page whose references all
/// point at pages of the range keeps no reference to an absent object.
pub open spec fn split_part(doc: Document, range: PageRange, out: Document) -> bool {
    let from = range_ids(doc, range);
    &&& out.wf()
    &&& out.version@ == "1.5"@
    &&& part_pages_match(doc, range, out)
    &&& out.table().len() == out.pages.len() + 2
    &&& out.pages@ == fresh_ids(0, out.pages.len() as nat)
    &&& forall|k: int|
        0 <= k < out.pages.len() ==> #[trigger] out.object(out.pages@[k]) == Some(
            remap_obj(doc.object(from[k])->0, remap_of(from, out.pages@)),
        )
    &&& forall|k: int|
        0 <= k < out.pages.len() && refs_within(doc.object(from[k])->0, from.to_set()) ==> refs_within(
            #[trigger] out.object(out.pages@[k])->0,
            out.ids(),
        )
    &&& page_tree_sound(
        &out,
        ObjectId { number: (out.pages.len() + 2) as u32, generation: 0 },
        ObjectId { number: (out.pages.len() + 1) as u32, generation: 0 },
    )
}

/// Every page of `range` has its object present.
pub open spec fn range_present(doc: Document, range: PageRange) -> bool {
    forall|p: int| range.start <= p <= range.end ==> (#[trigger] doc.object(doc.pages@[p - 1])) is Some
}

/// Every page that some range names has its object present.
pub open spec fn range_pages_present(doc: Document, ranges: Seq<PageRange>) -> bool {
    forall|i: int| 0 <= i < ranges.len() ==> range_present(doc, #[trigger] ranges[i])
}

/// Cuts one document into several.
#[derive(Debug)]
pub struct PdfSplitter {
    pub file_handler: FileHandler,
}

impl PdfSplitter {
    pub fn new() -> (r: PdfSplitter)
        ensures
            r.file_handler.config.max_file_size == 100 * 1024 * 1024,
    {
        PdfSplitter { file_handler: FileHandler::new() }
    }

    pub fn with_file_handler(file_handler: FileHandler) -> (r: PdfSplitter)
        ensures
            r.file_handler == file_handler,
    {
        PdfSplitter { file_handler }
    }

    /// Cuts `doc`, the loaded `request.file_path`, into one fresh document per
    /// range, in the request's order, after checking the ranges against its
    /// page count (see `SplitRequest::validate`). Fails with `PageNotFound`
    /// when a page's object is absent; any failure aborts the whole split.
    pub fn split_document(&self, request: &SplitRequest, doc: &Document) -> (r: Result<
        Vec<Document>,
        AppError,
    >)
        requires
            doc.wf(),
            doc.pages.len() + 2 <= u32::MAX,
        ensures
            r is Ok <==> (request.page_ranges.len() > 0 && request.ranges_within(doc.pages.len() as nat)
                && range_pages_present(*doc, request.page_ranges@)),
            request.page_ranges.len() == 0 ==> r is Err && is_invalid_input(r->Err_0),
            request.page_ranges.len() > 0 && !request.ranges_within(doc.pages.len() as nat) ==> r is Err
                && is_invalid_page_range(r->Err_0),
            request.page_ranges.len() > 0 && request.ranges_within(doc.pages.len() as nat)
                && !range_pages_present(*doc, request.page_ranges@) ==> r is Err && r->Err_0 matches AppError::Pdf(
                PdfError::PageNotFound { .. },
            ),
            r is Ok ==> {
                let outs = r->Ok_0;
                let info = assoc(doc.trailer_view(), name("Info"));
                &&& outs.len() == request.page_ranges.len()
                &&& forall|i: int|
                    0 <= i < outs.len() ==> split_part(*doc, request.page_ranges@[i], #[trigger] outs[i])
                &&& forall|i: int|
                    0 <= i < outs.len() ==> (#[trigger] outs[i]).trailer_view() == if request.config.preserve_metadata
                        && info is Some {
                        seq![(name("Info"), info->0)]
                    } else {
                        Seq::empty()
                    }.push(
                        (
                            name("Root"),
                            Obj::Reference(
                                ObjectId { number: (outs[i].pages.len() + 2) as u32, generation: 0 },
                            ),
                        ),
                    )
            },
    {
        match request.validate(doc.pages.len() as u32) {
            Ok(()) => {},
            Err(e) => {
                return Err(e);
            },
        }
        let mut outs: Vec<Document> = Vec::new();
        let mut i: usize = 0;
        while i < request.page_ranges.len()
            invariant
                doc.wf(),
                doc.pages.len() + 2 <= u32::MAX,
                request.page_ranges.len() > 0,
                request.ranges_within(doc.pages.len() as nat),
                i <= request.page_ranges.len(),
                outs.len() == i,
                range_pages_present(*doc, request.page_ranges@.subrange(0, i as int)),
                forall|k: int| 0 <= k < i ==> split_part(*doc, request.page_ranges@[k], #[trigger] outs@[k]),
                forall|k: int|
                    0 <= k < i ==> (#[trigger] outs@[k]).trailer_view() == if request.config.preserve_metadata
                        && assoc(doc.trailer_view(), name("Info")) is Some {
                        seq![(name("Info"), assoc(doc.trailer_view(), name("Info"))->0)]
                    } else {
                        Seq::empty()
                    }.push(
                        (
                            name("Root"),
                            Obj::Reference(
                                ObjectId { number: (outs@[k].pages.len() + 2) as u32, generation: 0 },
                            ),
                        ),
                    ),
            decreases request.page_ranges.len() - i,
        {
            let range = request.page_ranges[i];
            match PdfSplitter::split_range(doc, range, &request.file_path, request.config.preserve_metadata) {
                Ok(part) => {
                    outs.push(part);
                },
                Err(e) => {
                    proof {
                        assert(!range_pages_present(*doc, request.page_ranges@)) by {
                            assert(request.page_ranges@[i as int] == range);
                        }
                    }
                    return Err(e);
                },
            }
            i = i + 1;
            proof {
                assert forall|a: int| 0 <= a < i implies range_present(
                    *doc,
                    #[trigger] request.page_ranges@.subrange(0, i as int)[a],
                ) by {
                    if a < i - 1 {
                        assert(request.page_ranges@.subrange(0, i as int)[a]
                            == request.page_ranges@.subrange(0, i - 1)[a]);
                    }
                }
            }
        }
        assert(request.page_ranges@.subrange(0, i as int) =~= request.page_ranges@);
        Ok(outs)
    }

    /// The part of `doc` for one range: its pages copied in ascending order
    /// into a fresh version-1.5 document, then assembled.
    pub fn split_range(doc: &Document, range: PageRange, path: &String, preserve_metadata: bool) -> (r:
        Result<Document, AppError>)
        requires
            doc.wf(),
            doc.pages.len() + 2 <= u32::MAX,
            range.wf(),
            range.end <= doc.pages.len(),
        ensures
            r is Ok <==> range_present(*doc, range),
            r is Err ==> r->Err_0 matches AppError::Pdf(PdfError::PageNotFound { .. }),
            r is Ok ==> split_part(*doc, range, r->Ok_0),
            r is Ok ==> {
                let info = assoc(doc.trailer_view(), name("Info"));
                r->Ok_0.trailer_view() == if preserve_metadata && info is Some {
                    seq![(name("Info"), info->0)]
                } else {
                    Seq::empty()
                }.push(
                    (
                        name("Root"),
                        Obj::Reference(
                            ObjectId { number: (r->Ok_0.pages.len() + 2) as u32, generation: 0 },
                        ),
                    ),
                )
            },
    {
        let mut dest = Document::with_version("1.5");
        let mut info: Option<PdfObject> = None;
        if preserve_metadata {
            match doc.get_trailer(&name_bytes("Info")) {
                Some(i) => {
                    info = Some(duplicate(i));
                },
                None => {},
            }
        }
        let nums = range.expand();
        let ghost before = dest;
        proof {
            let ns = nums@;
            assert forall|k: int| 0 <= k < ns.len() implies source_page(doc, ns[k]) == doc.pages@[range.start - 1 + k] by {}
            if range_present(*doc, range) {
                assert forall|k: int| 0 <= k < ns.len() implies 1 <= #[trigger] ns[k] <= doc.pages.len()
                    && doc.object(source_page(doc, ns[k])) is Some by {
                    assert(ns[k] == range.start + k);
                }
            }
        }
        let ids = match ObjectGraphCopier::copy_pages(doc, &nums, path.as_str(), &mut dest) {
            Ok(ids) => ids,
            Err(e) => {
                proof {
                    let ns = nums@;
                    if range_present(*doc, range) {
                        assert(pages_resolve(doc, ns));
                    }
                }
                return Err(e);
            },
        };
        proof {
            let ns = nums@;
            assert forall|p: int| range.start <= p <= range.end implies (#[trigger] doc.object(
                doc.pages@[p - 1],
            )) is Some by {
                let k = p - range.start;
                assert(ns[k] == p);
            }
        }
        let ghost mid = dest;
        let info_ref: Option<&PdfObject> = match &info {
            Some(o) => Some(o),
            None => None,
        };
        match DocumentAssembler::assemble(&mut dest, &ids, info_ref) {
            Ok(_) => {},
            Err(e) => {
                assert(false);
                return Err(e);
            },
        }
        proof {
            let from = source_ids(doc, nums@);
            let t = dest.table();
            assert forall|k: int| 0 <= k < ids.len() implies mid.ids().contains(#[trigger] ids@[k]) by {
                assert(mid.table()[k].0 == ids@[k]);
                assert(has_key(mid.table(), ids@[k]));
            }
            assert forall|p: int| 0 <= p < dest.pages.len() implies #[trigger] page_shapes(dest)[p]
                == page_shapes(*doc).subrange(range.start - 1, range.end as int)[p] by {
                lemma_assoc_index(t, p);
                assert(t[p] == mid.table()[p]);
                lemma_remap_keeps_shape(doc.object(from[p])->0, crate::copier::remap_of(from, ids@));
                assert(from[p] == doc.pages@[range.start - 1 + p]);
            }
            assert(page_shapes(dest) =~= page_shapes(*doc).subrange(range.start - 1, range.end as int));
            assert(from =~= range_ids(*doc, range));
            assert(dest.pages@ =~= fresh_ids(0, dest.pages.len() as nat));
            assert forall|k: int| 0 <= k < dest.pages.len() implies #[trigger] dest.object(dest.pages@[k])
                == Some(remap_obj(doc.object(from[k])->0, remap_of(from, dest.pages@))) by {
                lemma_assoc_index(t, k);
                assert(t[k] == mid.table()[k]);
            }
            assert(mid.ids().subset_of(dest.ids())) by {
                assert forall|x: ObjectId| mid.ids().contains(x) implies dest.ids().contains(x) by {
                    let j = choose|j: int| 0 <= j < mid.table().len() && mid.table()[j].0 == x;
                    assert(t[j] == mid.table()[j]);
                }
            }
            assert forall|k: int|
                0 <= k < dest.pages.len() && refs_within(doc.object(from[k])->0, from.to_set()) implies refs_within(
                #[trigger] dest.object(dest.pages@[k])->0,
                dest.ids(),
            ) by {
                assert(nums@[k] == range.start + k);
                assert(source_page(doc, nums@[k]) == from[k]);
                lemma_copy_leaves_no_dangling_reference(doc, nums@, &before, &mid, ids@, k);
                lemma_assoc_index(t, k);
                lemma_assoc_index(mid.table(), k);
                assert(t[k] == mid.table()[k]);
                lemma_refs_within_grow(mid.object(ids@[k])->0, mid.ids(), dest.ids());
            }
        }
        Ok(dest)
    }
}

/// The ranges cover pages `1..=n` exactly, in ascending order, one after the other.
pub open spec fn ranges_partition(ranges: Seq<PageRange>, n: nat) -> bool {
    &&& ranges.len() > 0
    &&& ranges[0].start == 1
    &&& ranges.last().end == n
    &&& forall|i: int| 0 <= i < ranges.len() ==> (#[trigger] ranges[i]).wf()
    &&& forall|i: int| 1 <= i < ranges.len() ==> (#[trigger] ranges[i]).start == ranges[i - 1].end + 1
}

/// Splitting a document into ranges that partition its pages, in order, and
/// merging the parts back in range order with no file order succeeds, and
/// gives a document with the same number of pages, holding the same content
/// page by page, in the same order.
pub proof fn lemma_split_then_merge_restores_pages(
    doc: Document,
    ranges: Seq<PageRange>,
    parts: Seq<Document>,
    request: &MergeRequest,
    merged: Result<Document, AppError>,
)
    requires
        doc.pages.len() + 2 <= u32::MAX,
        ranges_partition(ranges, doc.pages.len() as nat),
        parts.len() == ranges.len(),
        forall|i: int| 0 <= i < parts.len() ==> split_part(doc, ranges[i], #[trigger] parts[i]),
        request.valid(),
        request.page_order is None,
        request.files.len() == parts.len(),
        merge_succeeds_when(request, parts, merged),
        merged_pages_are(request, parts, merged),
    ensures
        merged is Ok,
        merged->Ok_0.pages.len() == doc.pages.len(),
        page_shapes(merged->Ok_0) == page_shapes(doc),
{
    assert forall|j: int| 0 <= j < parts.len() implies part_pages_match(doc, ranges[j], #[trigger] parts[j]) by {
        assert(split_part(doc, ranges[j], parts[j]));
    }
    lemma_split_prefix(doc, ranges, parts, parts.len() as int);
    assert(parts.subrange(0, parts.len() as int) =~= parts);
    assert(page_shapes(doc).subrange(0, doc.pages.len() as int) =~= page_shapes(doc));
    assert(ordered_sources(parts, request.order()) =~= parts);
    assert forall|i: int| 0 <= i < parts.len() implies pages_present(#[trigger] parts[i]) by {
        assert(split_part(doc, ranges[i], parts[i]));
        assert forall|p: int| 0 <= p < parts[i].pages.len() implies (#[trigger] parts[i].object(
            parts[i].pages@[p],
        )) is Some by {}
    }
}

proof fn lemma_split_prefix(doc: Document, ranges: Seq<PageRange>, parts: Seq<Document>, i: int)
    requires
        ranges_partition(ranges, doc.pages.len() as nat),
        parts.len() == ranges.len(),
        forall|j: int| 0 <= j < parts.len() ==> part_pages_match(doc, ranges[j], #[trigger] parts[j]),
        1 <= i <= parts.len(),
    ensures
        ranges[i - 1].end <= doc.pages.len(),
        total_pages(parts.subrange(0, i)) == ranges[i - 1].end,
        merged_page_shapes(parts.subrange(0, i)) == page_shapes(doc).subrange(0, ranges[i - 1].end as int),
    decreases i,
{
    lemma_range_ends_bounded(ranges, doc.pages.len() as nat, i - 1);
    let pre = parts.subrange(0, i);
    assert(pre.drop_last() =~= parts.subrange(0, i - 1));
    assert(pre.last() == parts[i - 1]);
    assert(part_pages_match(doc, ranges[i - 1], parts[i - 1]));
    if i == 1 {
        assert(parts.subrange(0, 0) =~= Seq::<Document>::empty());
        assert(merged_page_shapes(parts.subrange(0, 0)) == Seq::<Obj>::empty());
        assert(total_pages(parts.subrange(0, 0)) == 0);
        assert(merged_page_shapes(pre) =~= page_shapes(parts[0]));
    } else {
        lemma_split_prefix(doc, ranges, parts, i - 1);
        assert(ranges[i - 1].start == ranges[(i - 1) - 1].end + 1);
        assert(merged_page_shapes(pre) =~= page_shapes(doc).subrange(0, ranges[i - 1].end as int));
    }
}

proof fn lemma_range_ends_bounded(ranges: Seq<PageRange>, n: nat, i: int)
    requires
        ranges_partition(ranges, n),
        0 <= i < ranges.len(),
    ensures
        ranges[i].end <= n,
    decreases ranges.len() - i,
{
    if i < ranges.len() - 1 {
        lemma_range_ends_bounded(ranges, n, i + 1);
        assert(ranges[i + 1].start == ranges[i].end + 1);
    }
}

} // verus!
