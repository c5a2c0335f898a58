use vstd::prelude::*;

use crate::assembler::{name, page_tree_sound, DocumentAssembler};
use crate::copier::{fresh_ids, pages_resolve, remap_of, source_ids, source_page, ObjectGraphCopier};
use crate::document::{duplicate, name_bytes, Document};
use crate::error::{is_invalid_input, AppError, PdfError};
use crate::file_handler::FileHandler;
use crate::object::{
    assoc, has_key, lemma_assoc_index, lemma_remap_keeps_shape, remap_obj, shape, Obj, ObjectId,
    PdfObject,
};

verus! {

/// Every page of `d` has its object in the table.
pub open spec fn pages_present(d: Document) -> bool {
    forall|p: int| 0 <= p < d.pages.len() ==> (#[trigger] d.object(d.pages@[p])) is Some
}

/// The shapes of `d`'s pages, in page order: what each page holds, up to
/// where its references point.
pub open spec fn page_shapes(d: Document) -> Seq<Obj> {
    Seq::new(d.pages.len() as nat, |p: int| shape(d.object(d.pages@[p])->0))
}

/// The page shapes of `docs`, one document after the other.
pub open spec fn merged_page_shapes(docs: Seq<Document>) -> Seq<Obj>
    decreases docs.len(),
{
    if docs.len() == 0 {
        Seq::empty()
    } else {
        merged_page_shapes(docs.drop_last()) + page_shapes(docs.last())
    }
}

/// The copies of `d`'s pages when they take the identifiers numbered after
/// `offset`: each page's object with its references rewritten through the
/// remap table of this document alone.
pub open spec fn page_copies(d: Document, offset: nat) -> Seq<Obj> {
    let ids = fresh_ids(offset as u32, d.pages.len() as nat);
    Seq::new(
        d.pages.len() as nat,
        |p: int| remap_obj(d.object(d.pages@[p])->0, remap_of(d.pages@, ids)),
    )
}

/// The objects of the merged pages of `docs`, one document after the other,
/// each document copied with a remap table of its own.
pub open spec fn merged_page_objects(docs: Seq<Document>) -> Seq<Obj>
    decreases docs.len(),
{
    if docs.len() == 0 {
        Seq::empty()
    } else {
        merged_page_objects(docs.drop_last()) + page_copies(
            docs.last(),
            total_pages(docs.drop_last()),
        )
    }
}

/// The number of pages of `docs` together.
pub open spec fn total_pages(docs: Seq<Document>) -> nat
    decreases docs.len(),
{
    if docs.len() == 0 {
        0
    } else {
        total_pages(docs.drop_last()) + docs.last().pages.len() as nat
    }
}

pub open spec fn all_pages_present(docs: Seq<Document>) -> bool {
    forall|i: int| 0 <= i < docs.len() ==> pages_present(#[trigger] docs[i])
}

/// `p` lists each of `0..n` exactly once.
pub open spec fn is_permutation(p: Seq<usize>, n: nat) -> bool {
    &&& p.len() == n
    &&& forall|i: int| 0 <= i < p.len() ==> #[trigger] p[i] < n
    &&& forall|i: int, j: int| 0 <= i < j < p.len() ==> p[i] != p[j]
}

/// Settings of a merge.
#[derive(Debug, Clone, Copy)]
pub struct MergeConfig {
    /// Copy the first source's `Info` entry into the output's trailer.
    pub preserve_metadata: bool,
    pub optimize_size: bool,
    pub keep_bookmarks: bool,
    /// From 1 to 9.
    pub compression_level: u8,
}

impl MergeConfig {
    pub fn default() -> (r: MergeConfig)
        ensures
            r.preserve_metadata,
            !r.optimize_size,
            r.keep_bookmarks,
            r.compression_level == 6,
    {
        MergeConfig {
            preserve_metadata: true,
            optimize_size: false,
            keep_bookmarks: true,
            compression_level: 6,
        }
    }
}

/// A merge: the source files in order, the output, and optionally an order
/// of the files (a permutation of their indices).
#[derive(Debug)]
pub struct MergeRequest {
    pub files: Vec<String>,
    pub output_path: String,
    pub config: MergeConfig,
    pub page_order: Option<Vec<usize>>,
}

impl MergeRequest {
    /// The file list is not empty and the order, when given, is a permutation of its indices.
    pub open spec fn valid(&self) -> bool {
        &&& self.files.len() > 0
        &&& match self.page_order {
            Some(p) => is_permutation(p@, self.files.len() as nat),
            None => true,
        }
    }

    /// The indices of the files in the order in which they are merged.
    pub open spec fn order(&self) -> Seq<usize> {
        match self.page_order {
            Some(p) => p@,
            None => Seq::new(self.files.len() as nat, |i: int| i as usize),
        }
    }

    /// Fails with an invalid-input error exactly when the request is not `valid`.
    pub fn validate(&self) -> (r: Result<(), AppError>)
        ensures
            r is Ok <==> self.valid(),
            r is Err ==> is_invalid_input(r->Err_0),
    {
        if self.files.len() == 0 {
            return Err(AppError::validation("File list cannot be empty"));
        }
        match &self.page_order {
            None => Ok(()),
            Some(order) => {
                let n = self.files.len();
                if order.len() != n {
                    return Err(AppError::validation("Page order length must match file count"));
                }
                let mut i: usize = 0;
                while i < n
                    invariant
                        self.page_order == Some(*order),
                        n == self.files.len(),
                        order.len() == n,
                        i <= n,
                        forall|k: int| 0 <= k < i ==> #[trigger] order@[k] < n,
                    decreases n - i,
                {
                    if order[i] > n - 1 {
                        return Err(AppError::validation("Invalid page order index"));
                    }
                    i = i + 1;
                }
                let mut i: usize = 0;
                while i < n
                    invariant
                        self.page_order == Some(*order),
                        n == self.files.len(),
                        order.len() == n,
                        i <= n,
                        forall|k: int| 0 <= k < n ==> #[trigger] order@[k] < n,
                        forall|a: int, b: int| 0 <= a < i && a < b < n ==> order@[a] != order@[b],
                    decreases n - i,
                {
                    let mut j: usize = i + 1;
                    while j < n
                        invariant
                            self.page_order == Some(*order),
                            n == self.files.len(),
                            order.len() == n,
                            i < j <= n,
                            forall|a: int, b: int| 0 <= a < i && a < b < n ==> order@[a] != order@[b],
                            forall|b: int| i < b < j ==> order@[i as int] != order@[b],
                        decreases n - j,
                    {
                        if order[i] == order[j] {
                            return Err(AppError::validation("Page order contains duplicate indices"));
                        }
                        j = j + 1;
                    }
                    i = i + 1;
                }
                Ok(())
            },
        }
    }
}

/// What a merge reports.
#[derive(Debug)]
pub struct MergeResult {
    pub output_path: String,
    pub total_pages: usize,
    pub file_size: u64,
    pub processing_time_ms: u64,
    pub files_merged: usize,
    pub metadata_preserved: bool,
}

/// The sources in merge order.
pub open spec fn ordered_sources(sources: Seq<Document>, order: Seq<usize>) -> Seq<Document> {
    Seq::new(order.len(), |i: int| sources[order[i] as int])
}

/// The numbers `1..=n`.
pub open spec fn all_numbers(n: nat) -> Seq<u32> {
    Seq::new(n, |k: int| (k + 1) as u32)
}

/// The page numbers `1..=n`.
pub fn all_page_numbers(n: usize) -> (r: Vec<u32>)
    requires
        n <= u32::MAX,
    ensures
        r@ == all_numbers(n as nat),
{
    let mut r: Vec<u32> = Vec::new();
    let mut k: usize = 0;
    while k < n
        invariant
            k <= n <= u32::MAX,
            r@ == all_numbers(k as nat),
        decreases n - k,
    {
        r.push((k + 1) as u32);
        k = k + 1;
        assert(r@ =~= all_numbers(k as nat));
    }
    r
}

proof fn lemma_all_numbers_resolve(d: Document)
    requires
        d.pages.len() <= u32::MAX,
    ensures
        pages_resolve(&d, all_numbers(d.pages.len() as nat)) <==> pages_present(d),
        source_ids(&d, all_numbers(d.pages.len() as nat)) == d.pages@,
{
    let ns = all_numbers(d.pages.len() as nat);
    assert(source_ids(&d, ns) =~= d.pages@);
    if pages_present(d) {
        assert forall|k: int| 0 <= k < ns.len() implies 1 <= #[trigger] ns[k] <= d.pages.len()
            && d.object(source_page(&d, ns[k])) is Some by {
            assert(source_page(&d, ns[k]) == d.pages@[k]);
        }
    }
    if pages_resolve(&d, ns) {
        assert forall|p: int| 0 <= p < d.pages.len() implies (#[trigger] d.object(
            d.pages@[p],
        )) is Some by {
            assert(ns[p] == p + 1);
            assert(source_page(&d, ns[p]) == d.pages@[p]);
        }
    }
}

proof fn lemma_total_pages_prefix(docs: Seq<Document>, i: int)
    requires
        0 <= i <= docs.len(),
    ensures
        total_pages(docs.subrange(0, i)) <= total_pages(docs),
    decreases docs.len() - i,
{
    if i < docs.len() {
        lemma_total_pages_prefix(docs, i + 1);
        assert(docs.subrange(0, i + 1).drop_last() =~= docs.subrange(0, i));
    } else {
        assert(docs.subrange(0, i) =~= docs);
    }
}

/// When a merge of `sources` for `request` succeeds (see `merge_documents`).
pub open spec fn merge_succeeds_when(
    request: &MergeRequest,
    sources: Seq<Document>,
    r: Result<Document, AppError>,
) -> bool {
    let docs = ordered_sources(sources, request.order());
    request.valid() ==> (r is Ok <==> (all_pages_present(docs) && total_pages(docs) + 2 <= u32::MAX))
}

/// The pages of a successful merge of `sources` for `request` (see `merge_documents`).
pub open spec fn merged_pages_are(
    request: &MergeRequest,
    sources: Seq<Document>,
    r: Result<Document, AppError>,
) -> bool {
    let docs = ordered_sources(sources, request.order());
    (request.valid() && r is Ok) ==> {
        &&& r->Ok_0.pages.len() == total_pages(docs)
        &&& page_shapes(r->Ok_0) == merged_page_shapes(docs)
    }
}

/// Combines several documents into one.
#[derive(Debug)]
pub struct PdfMerger {
    pub file_handler: FileHandler,
}

impl PdfMerger {
    pub fn new() -> (r: PdfMerger)
        ensures
            r.file_handler.config.max_file_size == 100 * 1024 * 1024,
    {
        PdfMerger { file_handler: FileHandler::new() }
    }

    pub fn with_file_handler(file_handler: FileHandler) -> (r: PdfMerger)
        ensures
            r.file_handler == file_handler,
    {
        PdfMerger { file_handler }
    }

    /// Merges `sources`, where `sources[i]` is the loaded `request.files[i]`:
    /// each source's pages, in its own page order, one source after the other
    /// in the request's order, into a fresh version-1.5 document whose page
    /// tree lists them. Fails with an invalid-input error on an invalid
    /// request, with `PageNotFound` when a page's object is absent, and with
    /// `ProcessingFailed` when object numbers run out.
    pub fn merge_documents(&self, request: &MergeRequest, sources: &Vec<Document>) -> (r: Result<
        Document,
        AppError,
    >)
        requires
            sources.len() == request.files.len(),
            forall|i: int| 0 <= i < sources.len() ==> (#[trigger] sources[i]).wf(),
            forall|i: int| 0 <= i < sources.len() ==> (#[trigger] sources[i]).pages.len() <= u32::MAX,
        ensures
            !request.valid() ==> r is Err && is_invalid_input(r->Err_0),
            r is Ok && request.page_order is None ==> r->Ok_0.pages.len() == total_pages(sources@),
            request.valid() ==> {
                let docs = ordered_sources(sources@, request.order());
                &&& r is Ok <==> (all_pages_present(docs) && total_pages(docs) + 2 <= u32::MAX)
                &&& (total_pages(docs) + 2 <= u32::MAX && !all_pages_present(docs)) ==> (r is Err
                    && r->Err_0 matches AppError::Pdf(PdfError::PageNotFound { .. }))
                &&& r is Ok ==> {
                    let out = r->Ok_0;
                    let info = assoc(docs[0].trailer_view(), name("Info"));
                    &&& out.wf()
                    &&& out.version@ == "1.5"@
                    &&& out.pages.len() == total_pages(docs)
                    &&& out.table().len() == total_pages(docs) + 2
                    &&& out.pages@ == fresh_ids(0, total_pages(docs))
                    &&& forall|k: int|
                        0 <= k < out.pages.len() ==> #[trigger] out.object(out.pages@[k]) == Some(
                            merged_page_objects(docs)[k],
                        )
                    &&& page_shapes(out) == merged_page_shapes(docs)
                    &&& page_tree_sound(
                        &out,
                        ObjectId { number: (total_pages(docs) + 2) as u32, generation: 0 },
                        ObjectId { number: (total_pages(docs) + 1) as u32, generation: 0 },
                    )
                    &&& out.trailer_view() == if request.config.preserve_metadata && info is Some {
                        seq![(name("Info"), info->0)]
                    } else {
                        Seq::empty()
                    }.push(
                        (
                            name("Root"),
                            Obj::Reference(
                                ObjectId { number: (total_pages(docs) + 2) as u32, generation: 0 },
                            ),
                        ),
                    )
                }
            },
            merge_succeeds_when(request, sources@, r),
            merged_pages_are(request, sources@, r),
    {
        match request.validate() {
            Ok(()) => {},
            Err(e) => {
                return Err(e);
            },
        }
        let mut order: Vec<usize> = Vec::new();
        match &request.page_order {
            Some(p) => {
                let mut i: usize = 0;
                while i < p.len()
                    invariant
                        i <= p.len(),
                        order@ == p@.subrange(0, i as int),
                    decreases p.len() - i,
                {
                    order.push(p[i]);
                    i = i + 1;
                }
                assert(order@ =~= p@);
            },
            None => {
                let mut i: usize = 0;
                while i < request.files.len()
                    invariant
                        i <= request.files.len(),
                        order@ == Seq::new(i as nat, |k: int| k as usize),
                    decreases request.files.len() - i,
                {
                    order.push(i);
                    i = i + 1;
                    assert(order@ =~= Seq::new(i as nat, |k: int| k as usize));
                }
            },
        }
        assert(order@ == request.order());
        let ghost docs = ordered_sources(sources@, order@);
        let mut dest = Document::with_version("1.5");
        let mut info: Option<PdfObject> = None;
        if request.config.preserve_metadata {
            match sources[order[0]].get_trailer(&name_bytes("Info")) {
                Some(i) => {
                    info = Some(duplicate(i));
                },
                None => {},
            }
        }
        let mut all_ids: Vec<ObjectId> = Vec::new();
        let ghost mut pos: Seq<int> = Seq::empty();
        let mut i: usize = 0;
        while i < order.len()
            invariant
                request.valid(),
                order@ == request.order(),
                docs == ordered_sources(sources@, order@),
                sources.len() == request.files.len(),
                forall|j: int| 0 <= j < sources.len() ==> (#[trigger] sources[j]).wf(),
                forall|j: int| 0 <= j < sources.len() ==> (#[trigger] sources[j]).pages.len() <= u32::MAX,
                i <= order.len(),
                dest.wf(),
                dest.pages@.len() == 0,
                dest.trailer@.len() == 0,
                dest.version@ == "1.5"@,
                dest.max_id == total_pages(docs.subrange(0, i as int)),
                all_ids.len() == pos.len(),
                pos.len() == total_pages(docs.subrange(0, i as int)),
                merged_page_shapes(docs.subrange(0, i as int)).len() == pos.len(),
                merged_page_objects(docs.subrange(0, i as int)).len() == pos.len(),
                all_ids@ == fresh_ids(0, total_pages(docs.subrange(0, i as int))),
                dest.table().len() == total_pages(docs.subrange(0, i as int)),
                forall|k: int|
                    0 <= k < pos.len() ==> #[trigger] dest.table()[pos[k]].1
                        == merged_page_objects(docs.subrange(0, i as int))[k],
                forall|k: int|
                    0 <= k < pos.len() ==> 0 <= #[trigger] pos[k] < dest.table().len()
                        && dest.table()[pos[k]].0 == all_ids@[k] && shape(dest.table()[pos[k]].1)
                        == merged_page_shapes(docs.subrange(0, i as int))[k],
                all_pages_present(docs.subrange(0, i as int)),
            decreases order.len() - i,
        {
            let src = &sources[order[i]];
            proof {
                assert(order@[i as int] < request.files.len());
            }
            let nums = all_page_numbers(src.pages.len());
            let ghost before = dest;
            proof {
                lemma_all_numbers_resolve(*src);
                lemma_total_pages_prefix(docs, i as int);
                lemma_total_pages_prefix(docs, i + 1);
                assert(docs.subrange(0, i + 1).drop_last() =~= docs.subrange(0, i as int));
                assert(docs[i as int] == *src);
            }
            let ids = match ObjectGraphCopier::copy_pages(src, &nums, &request.files[order[i]], &mut dest) {
                Ok(ids) => ids,
                Err(e) => {
                    proof {
                        if !pages_present(*src) {
                            assert(!all_pages_present(docs));
                        }
                    }
                    return Err(e);
                },
            };
            proof {
                let from = source_ids(src, nums@);
                assert(from == src.pages@);
                let n0 = before.table().len();
                assert forall|k: int| 0 <= k < ids.len() implies shape(dest.table()[n0 + k].1)
                    == page_shapes(*src)[k] by {
                    lemma_remap_keeps_shape(src.object(from[k])->0, crate::copier::remap_of(from, ids@));
                }
                let off = total_pages(docs.subrange(0, i as int));
                assert(ids@ == fresh_ids(off as u32, src.pages.len() as nat));
                assert forall|k: int| 0 <= k < ids.len() implies dest.table()[n0 + k].1
                    == page_copies(*src, off)[k] by {}
                pos = pos + Seq::new(ids.len() as nat, |k: int| n0 + k);
                assert(all_pages_present(docs.subrange(0, i + 1))) by {
                    assert forall|j: int| 0 <= j < i + 1 implies pages_present(
                        #[trigger] docs.subrange(0, i + 1)[j],
                    ) by {
                        if j < i {
                            assert(docs.subrange(0, i + 1)[j] == docs.subrange(0, i as int)[j]);
                        }
                    }
                }
            }
            let ghost old_ids = all_ids@;
            let mut k: usize = 0;
            while k < ids.len()
                invariant
                    k <= ids.len(),
                    all_ids@ == old_ids + ids@.subrange(0, k as int),
                decreases ids.len() - k,
            {
                all_ids.push(ids[k]);
                k = k + 1;
                assert(all_ids@ =~= old_ids + ids@.subrange(0, k as int));
            }
            assert(ids@.subrange(0, k as int) =~= ids@);
            i = i + 1;
            proof {
                let m = merged_page_shapes(docs.subrange(0, i as int));
                assert(m =~= merged_page_shapes(docs.subrange(0, i - 1)) + page_shapes(*src));
                let o = merged_page_objects(docs.subrange(0, i as int));
                let off = total_pages(docs.subrange(0, i - 1));
                assert(o =~= merged_page_objects(docs.subrange(0, i - 1)) + page_copies(*src, off));
                assert(all_ids@ =~= fresh_ids(0, total_pages(docs.subrange(0, i as int))));
            }
        }
        assert(docs.subrange(0, i as int) =~= docs);
        proof {
            if request.page_order is None {
                assert(docs =~= sources@);
            }
        }
        let ghost before = dest;
        let info_ref: Option<&PdfObject> = match &info {
            Some(o) => Some(o),
            None => None,
        };
        match DocumentAssembler::assemble(&mut dest, &all_ids, info_ref) {
            Ok(_) => {},
            Err(e) => {
                return Err(e);
            },
        }
        proof {
            let t = dest.table();
            assert forall|k: int| 0 <= k < all_ids.len() implies before.ids().contains(
                #[trigger] all_ids@[k],
            ) by {
                assert(has_key(before.table(), before.table()[pos[k]].0));
            }
            assert forall|k: int| 0 <= k < pos.len() implies t[pos[k]] == before.table()[pos[k]] by {}
            assert forall|p: int| 0 <= p < dest.pages.len() implies #[trigger] page_shapes(dest)[p]
                == merged_page_shapes(docs)[p] by {
                lemma_assoc_index(t, pos[p]);
            }
            assert(page_shapes(dest) =~= merged_page_shapes(docs));
            assert forall|k: int| 0 <= k < dest.pages.len() implies #[trigger] dest.object(
                dest.pages@[k],
            ) == Some(merged_page_objects(docs)[k]) by {
                lemma_assoc_index(t, pos[k]);
            }
        }
        Ok(dest)
    }
}

/// Merging valid sources whose pages are all present, with no file order,
/// succeeds and gives as many pages as the sources have together.
pub proof fn lemma_merge_counts_pages(
    request: &MergeRequest,
    sources: Seq<Document>,
    r: Result<Document, AppError>,
)
    requires
        merge_succeeds_when(request, sources, r),
        merged_pages_are(request, sources, r),
        request.valid(),
        request.page_order is None,
        sources.len() == request.files.len(),
        all_pages_present(sources),
        total_pages(sources) + 2 <= u32::MAX,
    ensures
        r is Ok,
        r->Ok_0.pages.len() == total_pages(sources),
        page_shapes(r->Ok_0) == merged_page_shapes(sources),
{
    assert(ordered_sources(sources, request.order()) =~= sources);
}

} // verus!
