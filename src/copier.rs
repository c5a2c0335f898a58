use vstd::prelude::*;

use crate::document::{remap_object, Document};
use crate::error::{AppError, PdfError};
use crate::object::{
    assoc, has_key, lemma_assoc_has_key, lemma_assoc_index, lemma_remap_resolves, refs_within,
    remap_domain, remap_obj, Obj, ObjectId,
};

verus! {

/// The mapping from source identifiers to destination identifiers made
/// during one copy operation; the last entry for an identifier wins.
pub struct RemapTable {
    pub entries: Vec<(ObjectId, ObjectId)>,
}

impl RemapTable {
    pub fn new() -> (r: RemapTable)
        ensures
            r.entries@.len() == 0,
    {
        RemapTable { entries: Vec::new() }
    }

    pub fn insert(&mut self, from: ObjectId, to: ObjectId)
        ensures
            final(self).entries@ == old(self).entries@.push((from, to)),
    {
        self.entries.push((from, to));
    }
}

/// The identifier of page `p` (one-based) of `src`.
pub open spec fn source_page(src: &Document, p: u32) -> ObjectId {
    src.pages@[p - 1]
}

/// Every page number names a page of `src` whose object is present.
pub open spec fn pages_resolve(src: &Document, ps: Seq<u32>) -> bool {
    forall|k: int|
        0 <= k < ps.len() ==> 1 <= #[trigger] ps[k] <= src.pages.len() && src.object(
            source_page(src, ps[k]),
        ) is Some
}

/// The identifiers of the pages numbered `ps`.
pub open spec fn source_ids(src: &Document, ps: Seq<u32>) -> Seq<ObjectId> {
    Seq::new(ps.len(), |k: int| source_page(src, ps[k]))
}

/// The remap table pairing each of `from` with the identifier at the same place in `to`.
pub open spec fn remap_of(from: Seq<ObjectId>, to: Seq<ObjectId>) -> Seq<(ObjectId, ObjectId)> {
    Seq::new(from.len(), |k: int| (from[k], to[k]))
}

/// The `n` identifiers numbered after `max_id`, generation 0.
pub open spec fn fresh_ids(max_id: u32, n: nat) -> Seq<ObjectId> {
    Seq::new(n, |k: int| ObjectId { number: (max_id + 1 + k) as u32, generation: 0 })
}

/// `after` is `before` with the pages numbered `ps` of `src` appended under
/// the identifiers `ids`, their references rewritten through this copy's remap table.
pub open spec fn copied_as(
    src: &Document,
    ps: Seq<u32>,
    before: &Document,
    after: &Document,
    ids: Seq<ObjectId>,
) -> bool {
    let from = source_ids(src, ps);
    &&& ids == fresh_ids(before.max_id, ps.len())
    &&& after.table() == before.table() + Seq::new(
        ps.len(),
        |k: int| (ids[k], remap_obj(src.object(from[k])->0, remap_of(from, ids))),
    )
    &&& after.max_id == before.max_id + ps.len()
    &&& after.trailer == before.trailer
    &&& after.pages == before.pages
    &&& after.version == before.version
}

/// Copies page objects from one document's table into another's, with fresh
/// identifiers and references rewritten so that the copies are consistent.
///
/// Only the page objects themselves are copied. An object that a page refers
/// to is not copied along with it: a reference to a page copied in the same
/// operation is rewritten to the copy, and any other reference is left as it
/// was. Callers that need a page's resources in the output copy them as pages
/// of the same operation; `lemma_copy_leaves_no_dangling_reference` states
/// what then holds.
pub struct ObjectGraphCopier;

impl ObjectGraphCopier {
    /// Inserts the value of `page_id` verbatim under a fresh identifier and
    /// records the pair in `remap`. Fails with `PageNotFound(path, page_number)`
    /// when the source holds no such object, and with `ProcessingFailed` when
    /// object numbers are exhausted; on failure nothing changes.
    pub fn copy_page(
        src: &Document,
        page_id: ObjectId,
        path: &str,
        page_number: u32,
        dest: &mut Document,
        remap: &mut RemapTable,
    ) -> (r: Result<ObjectId, AppError>)
        requires
            src.wf(),
            old(dest).wf(),
        ensures
            final(dest).wf(),
            r is Ok <==> (src.object(page_id) is Some && old(dest).max_id < u32::MAX),
            src.object(page_id) is None ==> (r matches Err(
                AppError::Pdf(PdfError::PageNotFound { path: p, page }),
            ) && p@ == path@ && page == page_number),
            r is Err ==> *final(dest) == *old(dest) && final(remap).entries@ == old(
                remap,
            ).entries@,
            r is Ok ==> {
                &&& r->Ok_0 == ObjectId { number: (old(dest).max_id + 1) as u32, generation: 0 }
                &&& final(dest).table() == old(dest).table().push(
                    (r->Ok_0, src.object(page_id)->0),
                )
                &&& final(dest).max_id == old(dest).max_id + 1
                &&& final(dest).trailer == old(dest).trailer
                &&& final(dest).pages == old(dest).pages
                &&& final(dest).version == old(dest).version
                &&& final(remap).entries@ == old(remap).entries@.push((page_id, r->Ok_0))
            },
    {
        let value = match src.get_object(page_id) {
            Some(o) => crate::document::duplicate(o),
            None => {
                return Err(
                    AppError::Pdf(PdfError::PageNotFound { path: path.to_string(), page: page_number }),
                );
            },
        };
        match dest.add_object(value) {
            Ok(new_id) => {
                remap.insert(page_id, new_id);
                Ok(new_id)
            },
            Err(e) => Err(e),
        }
    }

    /// Rewrites, through `remap`, every reference inside the objects that
    /// stand at `from` or later in the destination table.
    pub fn rewrite_references(dest: &mut Document, remap: &RemapTable, from: usize)
        requires
            old(dest).wf(),
            from <= old(dest).objects.len(),
        ensures
            final(dest).wf(),
            final(dest).table().len() == old(dest).table().len(),
            forall|i: int| 0 <= i < from ==> final(dest).table()[i] == old(dest).table()[i],
            forall|i: int|
                from <= i < old(dest).table().len() ==> final(dest).table()[i] == (
                    old(dest).table()[i].0,
                    remap_obj(old(dest).table()[i].1, remap.entries@),
                ),
            final(dest).max_id == old(dest).max_id,
            final(dest).trailer == old(dest).trailer,
            final(dest).pages == old(dest).pages,
            final(dest).version == old(dest).version,
    {
        let ghost before = dest.table();
        let mut i: usize = from;
        while i < dest.objects.len()
            invariant
                from <= i <= dest.objects.len(),
                dest.table().len() == before.len(),
                forall|k: int| 0 <= k < dest.objects.len() ==> (#[trigger] dest.table()[k]).0 == before[k].0,
                forall|k: int| 0 <= k < from ==> dest.table()[k] == before[k],
                forall|k: int| i <= k < before.len() ==> dest.table()[k] == before[k],
                forall|k: int|
                    from <= k < i ==> dest.table()[k] == (
                        before[k].0,
                        remap_obj(before[k].1, remap.entries@),
                    ),
                dest.max_id == old(dest).max_id,
                dest.trailer == old(dest).trailer,
                dest.pages == old(dest).pages,
                dest.version == old(dest).version,
                before == old(dest).table(),
                old(dest).wf(),
            decreases before.len() - i,
        {
            let ghost prev = dest.table();
            let id = dest.objects[i].0;
            let rewritten = remap_object(&dest.objects[i].1, &remap.entries);
            assert(prev[i as int] == before[i as int]);
            dest.objects.set(i, (id, rewritten));
            assert(dest.table() =~= prev.update(
                i as int,
                (before[i as int].0, remap_obj(before[i as int].1, remap.entries@)),
            ));
            i = i + 1;
        }
        assert forall|a: int, b: int| 0 <= a < b < dest.table().len() implies dest.table()[a].0
            != dest.table()[b].0 by {
            assert(dest.table()[a].0 == before[a].0);
            assert(dest.table()[b].0 == before[b].0);
        }
        assert forall|k: int| 0 <= k < dest.objects.len() implies (
        #[trigger] dest.objects[k]).0.number <= dest.max_id by {
            assert(dest.table()[k].0 == before[k].0);
            assert(old(dest).objects[k].0 == before[k].0);
        }
    }

    /// One copy operation: copies the pages numbered `page_numbers` (one-based)
    /// of `src`, in that order, under fresh identifiers, with a remap table of
    /// its own, then rewrites the copies' references through it. Returns the
    /// new identifiers. Fails with `PageNotFound` when a number names no page,
    /// or a page whose object is absent, and with `ProcessingFailed` when
    /// object numbers run out.
    pub fn copy_pages(src: &Document, page_numbers: &Vec<u32>, path: &str, dest: &mut Document) -> (r:
        Result<Vec<ObjectId>, AppError>)
        requires
            src.wf(),
            old(dest).wf(),
        ensures
            final(dest).wf(),
            r is Ok <==> (pages_resolve(src, page_numbers@) && old(dest).max_id + page_numbers.len()
                <= u32::MAX),
            !pages_resolve(src, page_numbers@) ==> (r matches Err(
                AppError::Pdf(PdfError::PageNotFound { path: p, .. }),
            ) && p@ == path@),
            r is Ok ==> copied_as(src, page_numbers@, old(dest), final(dest), r->Ok_0@),
    {
        let mut k: usize = 0;
        while k < page_numbers.len()
            invariant
                k <= page_numbers.len(),
                src.wf(),
                *dest == *old(dest),
                dest.wf(),
                forall|j: int|
                    0 <= j < k ==> 1 <= #[trigger] page_numbers@[j] <= src.pages.len() && src.object(
                        source_page(src, page_numbers@[j]),
                    ) is Some,
            decreases page_numbers.len() - k,
        {
            let p = page_numbers[k];
            if p < 1 || p as usize > src.pages.len() || src.get_object(src.pages[p as usize - 1]).is_none() {
                return Err(AppError::Pdf(PdfError::PageNotFound { path: path.to_string(), page: p }));
            }
            k = k + 1;
        }
        if page_numbers.len() as u64 > (u32::MAX - dest.max_id) as u64 {
            return Err(AppError::processing("object numbers exhausted"));
        }
        let ghost before = *dest;
        let ghost from = source_ids(src, page_numbers@);
        let start = dest.objects.len();
        let mut remap = RemapTable::new();
        let mut ids: Vec<ObjectId> = Vec::new();
        let mut k: usize = 0;
        while k < page_numbers.len()
            invariant
                src.wf(),
                dest.wf(),
                pages_resolve(src, page_numbers@),
                from == source_ids(src, page_numbers@),
                start == before.objects.len(),
                k <= page_numbers.len(),
                before.max_id + page_numbers.len() <= u32::MAX,
                dest.max_id == before.max_id + k,
                ids@ == fresh_ids(before.max_id, k as nat),
                remap.entries@ == remap_of(from.subrange(0, k as int), ids@),
                dest.table() == before.table() + Seq::new(
                    k as nat,
                    |j: int| (ids@[j], src.object(from[j])->0),
                ),
                dest.trailer == before.trailer,
                dest.pages == before.pages,
                dest.version == before.version,
            decreases page_numbers.len() - k,
        {
            let p = page_numbers[k];
            let page_id = src.pages[p as usize - 1];
            match ObjectGraphCopier::copy_page(src, page_id, path, p, dest, &mut remap) {
                Ok(new_id) => {
                    ids.push(new_id);
                },
                Err(e) => {
                    assert(false);
                    return Err(e);
                },
            }
            k = k + 1;
            assert(ids@ =~= fresh_ids(before.max_id, k as nat));
            assert(remap.entries@ =~= remap_of(from.subrange(0, k as int), ids@));
            assert(dest.table() =~= before.table() + Seq::new(
                k as nat,
                |j: int| (ids@[j], src.object(from[j])->0),
            ));
        }
        assert(from.subrange(0, k as int) =~= from);
        ObjectGraphCopier::rewrite_references(dest, &remap, start);
        assert(dest.table() =~= before.table() + Seq::new(
            page_numbers.len() as nat,
            |j: int| (ids@[j], remap_obj(src.object(from[j])->0, remap_of(from, ids@))),
        ));
        Ok(ids)
    }
}

/// A copied page whose references all point at pages copied in the same
/// operation refers, once copied, only to objects present in the destination
/// document: the copier leaves no dangling reference behind.
pub proof fn lemma_copy_leaves_no_dangling_reference(
    src: &Document,
    ps: Seq<u32>,
    before: &Document,
    after: &Document,
    ids: Seq<ObjectId>,
    k: int,
)
    requires
        after.wf(),
        copied_as(src, ps, before, after, ids),
        0 <= k < ps.len(),
        src.object(source_page(src, ps[k])) is Some,
        refs_within(src.object(source_page(src, ps[k]))->0, source_ids(src, ps).to_set()),
    ensures
        after.object(ids[k]) is Some,
        refs_within(after.object(ids[k])->0, after.ids()),
{
    let from = source_ids(src, ps);
    let remap = remap_of(from, ids);
    let n = before.table().len();
    assert(after.table()[n + k] == (ids[k], remap_obj(src.object(from[k])->0, remap)));
    lemma_assoc_index(after.table(), n + k);
    assert forall|id: ObjectId| from.to_set().contains(id) implies remap_domain(remap).contains(id) by {
        let j = choose|j: int| 0 <= j < from.len() && from[j] == id;
        assert(remap[j].0 == id);
        lemma_assoc_has_key(remap, id);
    }
    lemma_refs_within_grow(src.object(from[k])->0, from.to_set(), remap_domain(remap));
    assert forall|id: ObjectId| #[trigger] assoc(remap, id) is Some implies after.ids().contains(
        assoc(remap, id)->0,
    ) by {
        lemma_assoc_has_key(remap, id);
        let j = choose|j: int| 0 <= j < remap.len() && remap[j].0 == id && remap[j].1 == assoc(remap, id)->0;
        assert(after.table()[n + j].0 == ids[j]);
        assert(has_key(after.table(), ids[j]));
    }
    lemma_remap_resolves(src.object(from[k])->0, remap, after.ids());
}

/// `refs_within` keeps holding when the set of targets grows.
pub proof fn lemma_refs_within_grow(o: Obj, a: Set<ObjectId>, b: Set<ObjectId>)
    requires
        refs_within(o, a),
        a.subset_of(b),
    ensures
        refs_within(o, b),
    decreases o,
{
    match o {
        Obj::Array(v) => {
            assert forall|i: int| 0 <= i < v.len() implies refs_within(v[i], b) by {
                lemma_refs_within_grow(v[i], a, b);
            }
        },
        Obj::Dictionary(d) => {
            assert forall|i: int| 0 <= i < d.len() implies refs_within(d[i].1, b) by {
                lemma_refs_within_grow(d[i].1, a, b);
            }
        },
        Obj::Stream(d, _) => {
            assert forall|i: int| 0 <= i < d.len() implies refs_within(d[i].1, b) by {
                lemma_refs_within_grow(d[i].1, a, b);
            }
        },
        _ => {},
    }
}

} // verus!
