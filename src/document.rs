use vstd::prelude::*;

use crate::error::AppError;
use crate::object::{
    assoc, entries_view, has_key, keys_unique, lemma_assoc_has_key, lemma_assoc_index, remap_obj,
    Obj, ObjectId, PdfObject,
};

verus! {

broadcast use vstd::std_specs::vec::axiom_vec_index_decreases;

/// The bytes of an ASCII name.
pub open spec fn ascii_bytes(s: Seq<char>) -> Seq<u8> {
    s.map_values(|c: char| c as u8)
}

/// The bytes of the name `s`, one per character.
pub fn name_bytes(s: &str) -> (r: Vec<u8>)
    ensures
        r@ == ascii_bytes(s@),
{
    let n = s.unicode_len();
    let mut r: Vec<u8> = Vec::new();
    let mut i: usize = 0;
    while i < n
        invariant
            n == s@.len(),
            i <= n,
            r@ == ascii_bytes(s@.subrange(0, i as int)),
        decreases n - i,
    {
        let c = s.get_char(i);
        r.push(c as u8);
        i = i + 1;
        assert(r@ =~= ascii_bytes(s@.subrange(0, i as int)));
    }
    assert(s@.subrange(0, n as int) =~= s@);
    r
}

pub fn bytes_eq(a: &Vec<u8>, b: &Vec<u8>) -> (r: bool)
    ensures
        r == (a@ == b@),
{
    if a.len() != b.len() {
        return false;
    }
    let mut i: usize = 0;
    while i < a.len()
        invariant
            a.len() == b.len(),
            i <= a.len(),
            forall|k: int| 0 <= k < i ==> a@[k] == b@[k],
        decreases a.len() - i,
    {
        if a[i] != b[i] {
            return false;
        }
        i = i + 1;
    }
    assert(a@ =~= b@);
    true
}

/// An exact copy of `o`.
pub fn duplicate(o: &PdfObject) -> (r: PdfObject)
    ensures
        r@ == o@,
    decreases o,
{
    match o {
        PdfObject::Null => PdfObject::Null,
        PdfObject::Boolean(b) => PdfObject::Boolean(*b),
        PdfObject::Integer(n) => PdfObject::Integer(*n),
        PdfObject::Real(bits) => PdfObject::Real(*bits),
        PdfObject::Str(s, h) => PdfObject::Str(s.clone(), *h),
        PdfObject::Name(s) => PdfObject::Name(s.clone()),
        PdfObject::Array(v) => {
            let out = duplicate_items(v);
            let r = PdfObject::Array(out);
            proof {
                if let Obj::Array(a) = r@ {
                    if let Obj::Array(b) = o@ {
                        assert(a =~= b);
                    }
                }
            }
            r
        },
        PdfObject::Dictionary(d) => {
            let out = duplicate_entries(d);
            let r = PdfObject::Dictionary(out);
            proof {
                if let Obj::Dictionary(a) = r@ {
                    if let Obj::Dictionary(b) = o@ {
                        assert(a =~= b);
                    }
                }
            }
            r
        },
        PdfObject::Stream(d, data) => {
            let out = duplicate_entries(d);
            let r = PdfObject::Stream(out, data.clone());
            proof {
                if let Obj::Stream(a, _) = r@ {
                    if let Obj::Stream(b, _) = o@ {
                        assert(a =~= b);
                    }
                }
            }
            r
        },
        PdfObject::Reference(id) => PdfObject::Reference(*id),
    }
}

/// An exact copy of an array's items.
pub fn duplicate_items(v: &Vec<PdfObject>) -> (r: Vec<PdfObject>)
    ensures
        r.len() == v.len(),
        forall|k: int| 0 <= k < v.len() ==> (#[trigger] r[k])@ == v[k]@,
    decreases v,
{
    let mut out: Vec<PdfObject> = Vec::new();
    let mut i: usize = 0;
    while i < v.len()
        invariant
            i <= v.len(),
            out.len() == i,
            forall|k: int| 0 <= k < i ==> (#[trigger] out[k])@ == v[k]@,
        decreases v.len() - i,
    {
        assert(decreases_to!(v => v[i as int]));
        out.push(duplicate(&v[i]));
        i = i + 1;
    }
    out
}

/// An exact copy of a dictionary's entries.
pub fn duplicate_entries(d: &Vec<(Vec<u8>, PdfObject)>) -> (r: Vec<(Vec<u8>, PdfObject)>)
    ensures
        r.len() == d.len(),
        forall|k: int| 0 <= k < d.len() ==> (#[trigger] r[k]).0@ == d[k].0@ && r[k].1@ == d[k].1@,
    decreases d,
{
    let mut out: Vec<(Vec<u8>, PdfObject)> = Vec::new();
    let mut i: usize = 0;
    while i < d.len()
        invariant
            i <= d.len(),
            out.len() == i,
            forall|k: int| 0 <= k < i ==> (#[trigger] out[k]).0@ == d[k].0@ && out[k].1@ == d[k].1@,
        decreases d.len() - i,
    {
        assert(decreases_to!(d => d[i as int]));
        out.push((d[i].0.clone(), duplicate(&d[i].1)));
        i = i + 1;
    }
    out
}

/// The new identifier that `remap` gives `id`, if it holds one.
pub fn lookup_remap(remap: &Vec<(ObjectId, ObjectId)>, id: ObjectId) -> (r: Option<ObjectId>)
    ensures
        r == assoc(remap@, id),
{
    let mut i: usize = remap.len();
    assert(remap@.subrange(0, i as int) =~= remap@);
    while i > 0
        invariant
            i <= remap.len(),
            assoc(remap@, id) == assoc(remap@.subrange(0, i as int), id),
        decreases i,
    {
        let ghost sub = remap@.subrange(0, i as int);
        assert(sub.drop_last() =~= remap@.subrange(0, i - 1));
        if remap[i - 1].0 == id {
            return Some(remap[i - 1].1);
        }
        i = i - 1;
    }
    None
}

/// `o` with its references rewritten through `remap`.
pub fn remap_object(o: &PdfObject, remap: &Vec<(ObjectId, ObjectId)>) -> (r: PdfObject)
    ensures
        r@ == remap_obj(o@, remap@),
    decreases o,
{
    match o {
        PdfObject::Array(v) => {
            let out = remap_items(v, remap);
            let r = PdfObject::Array(out);
            proof {
                if let Obj::Array(a) = r@ {
                    if let Obj::Array(b) = remap_obj(o@, remap@) {
                        assert(a =~= b);
                    }
                }
            }
            r
        },
        PdfObject::Dictionary(d) => {
            let out = remap_entries(d, remap);
            let r = PdfObject::Dictionary(out);
            proof {
                if let Obj::Dictionary(a) = r@ {
                    if let Obj::Dictionary(b) = remap_obj(o@, remap@) {
                        assert(a =~= b);
                    }
                }
            }
            r
        },
        PdfObject::Stream(d, data) => {
            let out = remap_entries(d, remap);
            let r = PdfObject::Stream(out, data.clone());
            proof {
                if let Obj::Stream(a, _) = r@ {
                    if let Obj::Stream(b, _) = remap_obj(o@, remap@) {
                        assert(a =~= b);
                    }
                }
            }
            r
        },
        PdfObject::Reference(id) => match lookup_remap(remap, *id) {
            Some(new_id) => PdfObject::Reference(new_id),
            None => PdfObject::Reference(*id),
        },
        _ => duplicate(o),
    }
}

/// An array's items with their references rewritten through `remap`.
pub fn remap_items(v: &Vec<PdfObject>, remap: &Vec<(ObjectId, ObjectId)>) -> (r: Vec<PdfObject>)
    ensures
        r.len() == v.len(),
        forall|k: int| 0 <= k < v.len() ==> (#[trigger] r[k])@ == remap_obj(v[k]@, remap@),
    decreases v,
{
    let mut out: Vec<PdfObject> = Vec::new();
    let mut i: usize = 0;
    while i < v.len()
        invariant
            i <= v.len(),
            out.len() == i,
            forall|k: int| 0 <= k < i ==> (#[trigger] out[k])@ == remap_obj(v[k]@, remap@),
        decreases v.len() - i,
    {
        assert(decreases_to!(v => v[i as int]));
        out.push(remap_object(&v[i], remap));
        i = i + 1;
    }
    out
}

/// A dictionary's entries with their references rewritten through `remap`.
pub fn remap_entries(d: &Vec<(Vec<u8>, PdfObject)>, remap: &Vec<(ObjectId, ObjectId)>) -> (r: Vec<
    (Vec<u8>, PdfObject),
>)
    ensures
        r.len() == d.len(),
        forall|k: int|
            0 <= k < d.len() ==> (#[trigger] r[k]).0@ == d[k].0@ && r[k].1@ == remap_obj(
                d[k].1@,
                remap@,
            ),
    decreases d,
{
    let mut out: Vec<(Vec<u8>, PdfObject)> = Vec::new();
    let mut i: usize = 0;
    while i < d.len()
        invariant
            i <= d.len(),
            out.len() == i,
            forall|k: int|
                0 <= k < i ==> (#[trigger] out[k]).0@ == d[k].0@ && out[k].1@ == remap_obj(
                    d[k].1@,
                    remap@,
                ),
        decreases d.len() - i,
    {
        assert(decreases_to!(d => d[i as int]));
        out.push((d[i].0.clone(), remap_object(&d[i].1, remap)));
        i = i + 1;
    }
    out
}

/// A document: its object table, its trailer dictionary, its page list and
/// its declared version.
pub struct Document {
    pub version: String,
    /// The object table: each identifier with its value.
    pub objects: Vec<(ObjectId, PdfObject)>,
    /// The trailer dictionary (holds `Root`, and optionally `Info` and `Encrypt`).
    pub trailer: Vec<(Vec<u8>, PdfObject)>,
    /// The identifiers of the document's pages, in page order.
    pub pages: Vec<ObjectId>,
    /// The largest object number in use; fresh objects are numbered above it.
    pub max_id: u32,
}

impl Document {
    /// The object table as identifiers and values.
    pub open spec fn table(&self) -> Seq<(ObjectId, Obj)> {
        Seq::new(self.objects.len() as nat, |i: int| (self.objects[i].0, self.objects[i].1@))
    }

    pub open spec fn trailer_view(&self) -> Seq<(Seq<u8>, Obj)> {
        entries_view(self.trailer@)
    }

    /// The value stored under `id`.
    pub open spec fn object(&self, id: ObjectId) -> Option<Obj> {
        assoc(self.table(), id)
    }

    /// The identifiers present in the object table.
    pub open spec fn ids(&self) -> Set<ObjectId> {
        Set::new(|id: ObjectId| has_key(self.table(), id))
    }

    /// Identifiers are unique and none is numbered above `max_id`.
    pub open spec fn wf(&self) -> bool {
        &&& keys_unique(self.table())
        &&& forall|i: int| 0 <= i < self.objects.len() ==> (#[trigger] self.objects[i]).0.number <= self.max_id
    }

    /// An empty document declaring `version`.
    pub fn with_version(version: &str) -> (r: Document)
        ensures
            r.wf(),
            r.version@ == version@,
            r.objects@.len() == 0,
            r.trailer@.len() == 0,
            r.pages@.len() == 0,
            r.max_id == 0,
    {
        Document {
            version: version.to_string(),
            objects: Vec::new(),
            trailer: Vec::new(),
            pages: Vec::new(),
            max_id: 0,
        }
    }

    /// Where `id` stands in the object table.
    pub fn find_object(&self, id: ObjectId) -> (r: Option<usize>)
        requires
            self.wf(),
        ensures
            r is None <==> self.object(id) is None,
            r matches Some(i) ==> i < self.objects.len() && self.objects[i as int].0 == id
                && self.object(id) == Some(self.objects[i as int].1@),
    {
        let mut i: usize = 0;
        while i < self.objects.len()
            invariant
                self.wf(),
                i <= self.objects.len(),
                forall|k: int| 0 <= k < i ==> self.objects[k].0 != id,
            decreases self.objects.len() - i,
        {
            if self.objects[i].0 == id {
                proof {
                    lemma_assoc_index(self.table(), i as int);
                }
                return Some(i);
            }
            i = i + 1;
        }
        proof {
            lemma_assoc_has_key(self.table(), id);
            if has_key(self.table(), id) {
                let k = choose|k: int| 0 <= k < self.table().len() && self.table()[k].0 == id;
                assert(self.objects[k].0 == id);
            }
        }
        None
    }

    /// The value stored under `id`.
    pub fn get_object(&self, id: ObjectId) -> (r: Option<&PdfObject>)
        requires
            self.wf(),
        ensures
            r is None <==> self.object(id) is None,
            r matches Some(o) ==> self.object(id) == Some(o@),
    {
        match self.find_object(id) {
            Some(i) => Some(&self.objects[i].1),
            None => None,
        }
    }

    /// Stores `o` under a fresh identifier: number `max_id + 1`, generation 0.
    /// Fails with `ProcessingFailed` when object numbers are exhausted.
    pub fn add_object(&mut self, o: PdfObject) -> (r: Result<ObjectId, AppError>)
        requires
            old(self).wf(),
        ensures
            final(self).wf(),
            r is Ok <==> old(self).max_id < u32::MAX,
            r is Err ==> *final(self) == *old(self) && r->Err_0 is Pdf,
            r is Ok ==> {
                &&& r->Ok_0 == ObjectId { number: (old(self).max_id + 1) as u32, generation: 0 }
                &&& final(self).table() == old(self).table().push((r->Ok_0, o@))
                &&& final(self).max_id == old(self).max_id + 1
                &&& final(self).trailer == old(self).trailer
                &&& final(self).pages == old(self).pages
                &&& final(self).version == old(self).version
            },
    {
        if self.max_id == u32::MAX {
            return Err(AppError::processing("object numbers exhausted"));
        }
        let id = ObjectId { number: self.max_id + 1, generation: 0 };
        let ghost before = self.table();
        self.objects.push((id, o));
        self.max_id = self.max_id + 1;
        assert(self.table() =~= before.push((id, self.objects@.last().1@)));
        Ok(id)
    }

    /// The trailer's value under `key`.
    pub fn get_trailer(&self, key: &Vec<u8>) -> (r: Option<&PdfObject>)
        ensures
            r is None <==> assoc(self.trailer_view(), key@) is None,
            r matches Some(o) ==> assoc(self.trailer_view(), key@) == Some(o@),
    {
        let mut i: usize = self.trailer.len();
        let ghost t = self.trailer_view();
        assert(t.subrange(0, i as int) =~= t);
        while i > 0
            invariant
                t == self.trailer_view(),
                i <= self.trailer.len(),
                assoc(t, key@) == assoc(t.subrange(0, i as int), key@),
            decreases i,
        {
            assert(t.subrange(0, i as int).drop_last() =~= t.subrange(0, i - 1));
            if bytes_eq(&self.trailer[i - 1].0, key) {
                return Some(&self.trailer[i - 1].1);
            }
            i = i - 1;
        }
        None
    }

    /// Sets the trailer's `key` to `value`; other keys keep their values.
    pub fn set_trailer(&mut self, key: Vec<u8>, value: PdfObject)
        ensures
            final(self).trailer_view() == old(self).trailer_view().push((key@, value@)),
            final(self).objects == old(self).objects,
            final(self).pages == old(self).pages,
            final(self).version == old(self).version,
            final(self).max_id == old(self).max_id,
    {
        let ghost before = self.trailer_view();
        self.trailer.push((key, value));
        assert(self.trailer_view() =~= before.push((key@, value@)));
    }

    /// How many pages the document has.
    pub fn page_count(&self) -> (r: usize)
        ensures
            r == self.pages.len(),
    {
        self.pages.len()
    }
}

} // verus!
