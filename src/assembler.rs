use vstd::prelude::*;

use crate::document::{ascii_bytes, duplicate, name_bytes, Document};
use crate::error::AppError;
use crate::object::{assoc, has_key, lemma_assoc_index, obj_view, Obj, ObjectId, PdfObject};

verus! {

/// The bytes of the name `s`.
pub open spec fn name(s: &str) -> Seq<u8> {
    ascii_bytes(s@)
}

pub open spec fn ref_list(ids: Seq<ObjectId>) -> Seq<Obj> {
    Seq::new(ids.len(), |k: int| Obj::Reference(ids[k]))
}

/// The page-tree node: `Type=Pages`, `Kids` the page references, `Count` their number.
pub open spec fn pages_dict(ids: Seq<ObjectId>) -> Obj {
    Obj::Dictionary(
        seq![
            (name("Type"), Obj::Name(name("Pages"))),
            (name("Kids"), Obj::Array(ref_list(ids))),
            (name("Count"), Obj::Integer(ids.len() as int)),
        ],
    )
}

/// The catalog: `Type=Catalog`, `Pages` the page-tree node.
pub open spec fn catalog_dict(pages_id: ObjectId) -> Obj {
    Obj::Dictionary(
        seq![(name("Type"), Obj::Name(name("Catalog"))), (name("Pages"), Obj::Reference(pages_id))],
    )
}

/// The trailer's `Root` names a catalog whose `Pages` node lists exactly the
/// document's pages, and every page is present in the object table.
pub open spec fn page_tree_sound(d: &Document, catalog_id: ObjectId, pages_id: ObjectId) -> bool {
    &&& assoc(d.trailer_view(), name("Root")) == Some(Obj::Reference(catalog_id))
    &&& d.object(catalog_id) == Some(catalog_dict(pages_id))
    &&& d.object(pages_id) == Some(pages_dict(d.pages@))
    &&& forall|k: int| 0 <= k < d.pages.len() ==> d.ids().contains(#[trigger] d.pages@[k])
}

/// Builds the minimal structure around already-copied pages.
pub struct DocumentAssembler;

impl DocumentAssembler {
    /// Adds the page-tree node over `page_ids` (in that order) and the catalog
    /// as two new objects, makes `page_ids` the document's page list, sets the
    /// trailer's `Info` to `info` when given and its `Root` to the catalog.
    /// Returns the catalog's identifier; fails with `ProcessingFailed` when
    /// object numbers run out.
    pub fn assemble(dest: &mut Document, page_ids: &Vec<ObjectId>, info: Option<&PdfObject>) -> (r:
        Result<ObjectId, AppError>)
        requires
            old(dest).wf(),
            page_ids.len() <= i64::MAX,
        ensures
            final(dest).wf(),
            r is Ok <==> old(dest).max_id + 2 <= u32::MAX,
            r is Ok ==> {
                let pages_id = ObjectId { number: (old(dest).max_id + 1) as u32, generation: 0 };
                let catalog_id = ObjectId { number: (old(dest).max_id + 2) as u32, generation: 0 };
                &&& r->Ok_0 == catalog_id
                &&& final(dest).table() == old(dest).table().push(
                    (pages_id, pages_dict(page_ids@)),
                ).push((catalog_id, catalog_dict(pages_id)))
                &&& final(dest).pages@ == page_ids@
                &&& final(dest).max_id == old(dest).max_id + 2
                &&& final(dest).version == old(dest).version
                &&& final(dest).trailer_view() == match info {
                    Some(i) => old(dest).trailer_view().push((name("Info"), i@)),
                    None => old(dest).trailer_view(),
                }.push((name("Root"), Obj::Reference(catalog_id)))
                &&& (forall|k: int|
                    0 <= k < page_ids.len() ==> old(dest).ids().contains(#[trigger] page_ids@[k]))
                    ==> page_tree_sound(final(dest), catalog_id, pages_id)
            },
    {
        if dest.max_id > u32::MAX - 2 {
            return Err(AppError::processing("object numbers exhausted"));
        }
        let ghost before = *dest;
        let mut kids: Vec<PdfObject> = Vec::new();
        let mut k: usize = 0;
        while k < page_ids.len()
            invariant
                k <= page_ids.len(),
                kids.len() == k,
                forall|j: int| 0 <= j < k ==> (#[trigger] kids[j])@ == Obj::Reference(page_ids@[j]),
            decreases page_ids.len() - k,
        {
            kids.push(PdfObject::Reference(page_ids[k]));
            k = k + 1;
        }
        let kids_obj = PdfObject::Array(kids);
        proof {
            if let Obj::Array(a) = kids_obj@ {
                assert(a =~= ref_list(page_ids@));
            }
        }
        let mut entries: Vec<(Vec<u8>, PdfObject)> = Vec::new();
        entries.push((name_bytes("Type"), PdfObject::Name(name_bytes("Pages"))));
        entries.push((name_bytes("Kids"), kids_obj));
        entries.push((name_bytes("Count"), PdfObject::Integer(page_ids.len() as i64)));
        let pages_obj = PdfObject::Dictionary(entries);
        proof {
            reveal_with_fuel(obj_view, 2);
            if let Obj::Dictionary(e) = pages_obj@ {
                assert(e =~= seq![
                    (name("Type"), Obj::Name(name("Pages"))),
                    (name("Kids"), Obj::Array(ref_list(page_ids@))),
                    (name("Count"), Obj::Integer(page_ids.len() as int)),
                ]);
            }
        }
        let pages_id = match dest.add_object(pages_obj) {
            Ok(id) => id,
            Err(e) => {
                return Err(e);
            },
        };
        let mut cat: Vec<(Vec<u8>, PdfObject)> = Vec::new();
        cat.push((name_bytes("Type"), PdfObject::Name(name_bytes("Catalog"))));
        cat.push((name_bytes("Pages"), PdfObject::Reference(pages_id)));
        let catalog_obj = PdfObject::Dictionary(cat);
        proof {
            reveal_with_fuel(obj_view, 2);
            if let Obj::Dictionary(e) = catalog_obj@ {
                assert(e =~= seq![
                    (name("Type"), Obj::Name(name("Catalog"))),
                    (name("Pages"), Obj::Reference(pages_id)),
                ]);
            }
        }
        let catalog_id = match dest.add_object(catalog_obj) {
            Ok(id) => id,
            Err(e) => {
                return Err(e);
            },
        };
        let mut pages: Vec<ObjectId> = Vec::new();
        let mut k: usize = 0;
        while k < page_ids.len()
            invariant
                k <= page_ids.len(),
                pages@ == page_ids@.subrange(0, k as int),
            decreases page_ids.len() - k,
        {
            pages.push(page_ids[k]);
            k = k + 1;
        }
        assert(pages@ =~= page_ids@);
        dest.pages = pages;
        match info {
            Some(i) => {
                dest.set_trailer(name_bytes("Info"), duplicate(i));
            },
            None => {},
        }
        dest.set_trailer(name_bytes("Root"), PdfObject::Reference(catalog_id));
        proof {
            let t = dest.table();
            let n = before.table().len();
            lemma_assoc_index(t, n as int);
            lemma_assoc_index(t, (n + 1) as int);
            assert forall|j: int| 0 <= j < page_ids.len() && before.ids().contains(page_ids@[j])
                implies dest.ids().contains(#[trigger] page_ids@[j]) by {
                let x = choose|x: int| 0 <= x < before.table().len() && before.table()[x].0 == page_ids@[j];
                assert(t[x] == before.table()[x]);
                assert(has_key(t, page_ids@[j]));
            }
        }
        Ok(catalog_id)
    }
}

} // verus!
