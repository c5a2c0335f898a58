use vstd::prelude::*;

verus! {

broadcast use vstd::std_specs::vec::axiom_vec_index_decreases;

/// Identifies one object within one document's object table: its number and
/// its generation.
#[derive(Clone, Copy, Debug, PartialEq, Eq, Structural)]
pub struct ObjectId {
    pub number: u32,
    pub generation: u16,
}

/// A value stored in a document's object table.
#[derive(Debug)]
pub enum PdfObject {
    Null,
    Boolean(bool),
    Integer(i64),
    /// A real number, held as the bit pattern of its single-precision value.
    Real(u32),
    /// A string's bytes, and whether it is written in hexadecimal form.
    Str(Vec<u8>, bool),
    Name(Vec<u8>),
    Array(Vec<PdfObject>),
    /// An ordered mapping from names to values.
    Dictionary(Vec<(Vec<u8>, PdfObject)>),
    /// A stream dictionary and the stream's raw bytes.
    Stream(Vec<(Vec<u8>, PdfObject)>, Vec<u8>),
    Reference(ObjectId),
}

/// The mathematical value of a `PdfObject`.
pub ghost enum Obj {
    Null,
    Boolean(bool),
    Integer(int),
    Real(u32),
    Str(Seq<u8>, bool),
    Name(Seq<u8>),
    Array(Seq<Obj>),
    Dictionary(Seq<(Seq<u8>, Obj)>),
    Stream(Seq<(Seq<u8>, Obj)>, Seq<u8>),
    Reference(ObjectId),
}

pub open spec fn obj_view(o: PdfObject) -> Obj
    decreases o,
{
    match o {
        PdfObject::Null => Obj::Null,
        PdfObject::Boolean(b) => Obj::Boolean(b),
        PdfObject::Integer(n) => Obj::Integer(n as int),
        PdfObject::Real(bits) => Obj::Real(bits),
        PdfObject::Str(s, h) => Obj::Str(s@, h),
        PdfObject::Name(s) => Obj::Name(s@),
        PdfObject::Array(v) => Obj::Array(
            Seq::new(
                v.len() as nat,
                |i: int|
                    if 0 <= i < v.len() {
                        obj_view(v[i])
                    } else {
                        Obj::Null
                    },
            ),
        ),
        PdfObject::Dictionary(d) => Obj::Dictionary(
            Seq::new(
                d.len() as nat,
                |i: int|
                    if 0 <= i < d.len() {
                        (d[i].0@, obj_view(d[i].1))
                    } else {
                        (Seq::empty(), Obj::Null)
                    },
            ),
        ),
        PdfObject::Stream(d, data) => Obj::Stream(
            Seq::new(
                d.len() as nat,
                |i: int|
                    if 0 <= i < d.len() {
                        (d[i].0@, obj_view(d[i].1))
                    } else {
                        (Seq::empty(), Obj::Null)
                    },
            ),
            data@,
        ),
        PdfObject::Reference(id) => Obj::Reference(id),
    }
}

impl View for PdfObject {
    type V = Obj;

    open spec fn view(&self) -> Obj {
        obj_view(*self)
    }
}

/// The view of a list of dictionary entries.
pub open spec fn entries_view(d: Seq<(Vec<u8>, PdfObject)>) -> Seq<(Seq<u8>, Obj)> {
    Seq::new(d.len(), |i: int| (d[i].0@, obj_view(d[i].1)))
}

/// The value that an association list gives a key: the last entry with that key.
pub open spec fn assoc<K, V>(s: Seq<(K, V)>, k: K) -> Option<V>
    decreases s.len(),
{
    if s.len() == 0 {
        None
    } else if s.last().0 == k {
        Some(s.last().1)
    } else {
        assoc(s.drop_last(), k)
    }
}

/// No key occurs twice.
pub open spec fn keys_unique<K, V>(s: Seq<(K, V)>) -> bool {
    forall|i: int, j: int| 0 <= i < j < s.len() ==> s[i].0 != s[j].0
}

pub open spec fn has_key<K, V>(s: Seq<(K, V)>, k: K) -> bool {
    exists|i: int| 0 <= i < s.len() && s[i].0 == k
}

/// With unique keys, the entry at an index is the one that `assoc` finds.
pub proof fn lemma_assoc_index<K, V>(s: Seq<(K, V)>, i: int)
    requires
        keys_unique(s),
        0 <= i < s.len(),
    ensures
        assoc(s, s[i].0) == Some(s[i].1),
    decreases s.len(),
{
    if i < s.len() - 1 {
        assert(s.drop_last()[i] == s[i]);
        lemma_assoc_index(s.drop_last(), i);
    }
}

/// `assoc` finds a key exactly when some entry has it.
pub proof fn lemma_assoc_has_key<K, V>(s: Seq<(K, V)>, k: K)
    ensures
        assoc(s, k) is Some <==> has_key(s, k),
        assoc(s, k) is Some ==> exists|i: int|
            0 <= i < s.len() && s[i].0 == k && s[i].1 == assoc(s, k)->0,
    decreases s.len(),
{
    if s.len() > 0 {
        lemma_assoc_has_key(s.drop_last(), k);
        if s.last().0 == k {
            assert(s[s.len() - 1].0 == k);
        } else {
            if has_key(s, k) {
                let i = choose|i: int| 0 <= i < s.len() && s[i].0 == k;
                assert(s.drop_last()[i].0 == k);
            }
            if assoc(s, k) is Some {
                let i = choose|i: int|
                    0 <= i < s.drop_last().len() && s.drop_last()[i].0 == k && s.drop_last()[i].1
                        == assoc(s, k)->0;
                assert(s[i] == s.drop_last()[i]);
            }
        }
    }
}

/// Every reference inside `o` targets an object in `ids`.
pub open spec fn refs_within(o: Obj, ids: Set<ObjectId>) -> bool
    decreases o,
{
    match o {
        Obj::Array(v) => forall|i: int| 0 <= i < v.len() ==> refs_within(#[trigger] v[i], ids),
        Obj::Dictionary(d) => forall|i: int|
            0 <= i < d.len() ==> refs_within(#[trigger] d[i].1, ids),
        Obj::Stream(d, _) => forall|i: int| 0 <= i < d.len() ==> refs_within(#[trigger] d[i].1, ids),
        Obj::Reference(id) => ids.contains(id),
        _ => true,
    }
}

/// `o` with every reference whose target the remap table holds rewritten to
/// the target's new identifier; other references stay as they are.
pub open spec fn remap_obj(o: Obj, remap: Seq<(ObjectId, ObjectId)>) -> Obj
    decreases o,
{
    match o {
        Obj::Array(v) => Obj::Array(
            Seq::new(
                v.len(),
                |i: int|
                    if 0 <= i < v.len() {
                        remap_obj(v[i], remap)
                    } else {
                        Obj::Null
                    },
            ),
        ),
        Obj::Dictionary(d) => Obj::Dictionary(
            Seq::new(
                d.len(),
                |i: int|
                    if 0 <= i < d.len() {
                        (d[i].0, remap_obj(d[i].1, remap))
                    } else {
                        (Seq::empty(), Obj::Null)
                    },
            ),
        ),
        Obj::Stream(d, data) => Obj::Stream(
            Seq::new(
                d.len(),
                |i: int|
                    if 0 <= i < d.len() {
                        (d[i].0, remap_obj(d[i].1, remap))
                    } else {
                        (Seq::empty(), Obj::Null)
                    },
            ),
            data,
        ),
        Obj::Reference(id) => match assoc(remap, id) {
            Some(new_id) => Obj::Reference(new_id),
            None => Obj::Reference(id),
        },
        _ => o,
    }
}

/// `o` with every reference target blanked: two objects agree on this exactly
/// when they hold the same content up to where their references point.
pub open spec fn shape(o: Obj) -> Obj
    decreases o,
{
    match o {
        Obj::Array(v) => Obj::Array(
            Seq::new(
                v.len(),
                |i: int|
                    if 0 <= i < v.len() {
                        shape(v[i])
                    } else {
                        Obj::Null
                    },
            ),
        ),
        Obj::Dictionary(d) => Obj::Dictionary(
            Seq::new(
                d.len(),
                |i: int|
                    if 0 <= i < d.len() {
                        (d[i].0, shape(d[i].1))
                    } else {
                        (Seq::empty(), Obj::Null)
                    },
            ),
        ),
        Obj::Stream(d, data) => Obj::Stream(
            Seq::new(
                d.len(),
                |i: int|
                    if 0 <= i < d.len() {
                        (d[i].0, shape(d[i].1))
                    } else {
                        (Seq::empty(), Obj::Null)
                    },
            ),
            data,
        ),
        Obj::Reference(_) => Obj::Reference(ObjectId { number: 0, generation: 0 }),
        _ => o,
    }
}

/// Rewriting references keeps an object's shape.
pub proof fn lemma_remap_keeps_shape(o: Obj, remap: Seq<(ObjectId, ObjectId)>)
    ensures
        shape(remap_obj(o, remap)) == shape(o),
    decreases o,
{
    match o {
        Obj::Array(v) => {
            assert forall|i: int| 0 <= i < v.len() implies shape(remap_obj(v[i], remap)) == shape(
                v[i],
            ) by {
                lemma_remap_keeps_shape(v[i], remap);
            }
            if let Obj::Array(a) = shape(remap_obj(o, remap)) {
                if let Obj::Array(b) = shape(o) {
                    assert(a =~= b);
                }
            }
        },
        Obj::Dictionary(d) => {
            assert forall|i: int| 0 <= i < d.len() implies shape(remap_obj(d[i].1, remap)) == shape(
                d[i].1,
            ) by {
                lemma_remap_keeps_shape(d[i].1, remap);
            }
            if let Obj::Dictionary(a) = shape(remap_obj(o, remap)) {
                if let Obj::Dictionary(b) = shape(o) {
                    assert(a =~= b);
                }
            }
        },
        Obj::Stream(d, data) => {
            assert forall|i: int| 0 <= i < d.len() implies shape(remap_obj(d[i].1, remap)) == shape(
                d[i].1,
            ) by {
                lemma_remap_keeps_shape(d[i].1, remap);
            }
            if let Obj::Stream(a, _) = shape(remap_obj(o, remap)) {
                if let Obj::Stream(b, _) = shape(o) {
                    assert(a =~= b);
                }
            }
        },
        _ => {},
    }
}

/// The identifiers that a remap table maps.
pub open spec fn remap_domain(remap: Seq<(ObjectId, ObjectId)>) -> Set<ObjectId> {
    Set::new(|id: ObjectId| assoc(remap, id) is Some)
}

/// Every identifier that a remap table maps to lies in `ids`.
pub open spec fn remap_targets_within(remap: Seq<(ObjectId, ObjectId)>, ids: Set<ObjectId>) -> bool {
    forall|id: ObjectId| #[trigger] assoc(remap, id) is Some ==> ids.contains(assoc(remap, id)->0)
}

/// An object whose references all point at remapped objects has, once
/// rewritten, only references to the remapped objects' new identifiers.
pub proof fn lemma_remap_resolves(o: Obj, remap: Seq<(ObjectId, ObjectId)>, ids: Set<ObjectId>)
    requires
        refs_within(o, remap_domain(remap)),
        remap_targets_within(remap, ids),
    ensures
        refs_within(remap_obj(o, remap), ids),
    decreases o,
{
    match o {
        Obj::Array(v) => {
            assert forall|i: int| 0 <= i < v.len() implies refs_within(remap_obj(v[i], remap), ids) by {
                lemma_remap_resolves(v[i], remap, ids);
            }
        },
        Obj::Dictionary(d) => {
            assert forall|i: int| 0 <= i < d.len() implies refs_within(
                remap_obj(d[i].1, remap),
                ids,
            ) by {
                lemma_remap_resolves(d[i].1, remap, ids);
            }
        },
        Obj::Stream(d, _) => {
            assert forall|i: int| 0 <= i < d.len() implies refs_within(
                remap_obj(d[i].1, remap),
                ids,
            ) by {
                lemma_remap_resolves(d[i].1, remap, ids);
            }
        },
        _ => {},
    }
}

} // verus!
