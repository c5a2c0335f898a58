use vstd::prelude::*;

use crate::assembler::name;
use crate::document::{bytes_eq, name_bytes, Document};
use crate::object::{assoc, has_key, Obj, ObjectId, PdfObject};
use vstd::utf8::{decode_utf8, valid_utf8};
use crate::text::{split_bounds, split_on, string_of, trim, trim_bounds};

verus! {

/// The text that UTF-8 bytes encode, or nothing when they are not UTF-8.
pub open spec fn utf8_decode(b: Seq<u8>) -> Option<Seq<char>> {
    if valid_utf8(b) {
        Some(decode_utf8(b))
    } else {
        None
    }
}

/// Relies on `String::from_utf8`: it succeeds exactly on valid UTF-8, with
/// the characters that the bytes encode.
#[verifier::external_body]
fn text_from_utf8(b: &Vec<u8>) -> (r: Option<String>)
    ensures
        r is Some <==> valid_utf8(b@),
        r is Some ==> r->0@ == decode_utf8(b@),
{
    String::from_utf8(b.clone()).ok()
}

/// The dictionary that the trailer's `Info` entry refers to, if any.
pub open spec fn info_dict(d: &Document) -> Option<Seq<(Seq<u8>, Obj)>> {
    match assoc(d.trailer_view(), name("Info")) {
        Some(Obj::Reference(id)) => match d.object(id) {
            Some(Obj::Dictionary(e)) => Some(e),
            _ => None,
        },
        _ => None,
    }
}

/// The text of a string value, followed through at most one reference.
pub open spec fn text_value(d: &Document, v: Option<Obj>) -> Option<Seq<char>> {
    match v {
        Some(Obj::Str(b, _)) => utf8_decode(b),
        Some(Obj::Reference(id)) => match d.object(id) {
            Some(Obj::Str(b, _)) => utf8_decode(b),
            _ => None,
        },
        _ => None,
    }
}

/// The text of the Info dictionary's entry `key`.
pub open spec fn info_field(d: &Document, key: Seq<u8>) -> Option<Seq<char>> {
    match info_dict(d) {
        Some(e) => text_value(d, assoc(e, key)),
        None => None,
    }
}

/// A number standing for each variant of `Obj`.
pub open spec fn kind_of(o: Obj) -> nat {
    match o {
        Obj::Null => 0,
        Obj::Boolean(_) => 1,
        Obj::Integer(_) => 2,
        Obj::Real(_) => 3,
        Obj::Str(_, _) => 4,
        Obj::Name(_) => 5,
        Obj::Array(_) => 6,
        Obj::Dictionary(_) => 7,
        Obj::Stream(_, _) => 8,
        Obj::Reference(_) => 9,
    }
}

/// How many objects of the table are of variant `kind`.
pub open spec fn count_kind(t: Seq<(ObjectId, Obj)>, kind: nat) -> nat
    decreases t.len(),
{
    if t.len() == 0 {
        0
    } else {
        count_kind(t.drop_last(), kind) + if kind_of(t.last().1) == kind {
            1nat
        } else {
            0nat
        }
    }
}

/// The object is a dictionary with an `Annots` entry.
pub open spec fn annotated(o: Option<Obj>) -> bool {
    match o {
        Some(Obj::Dictionary(e)) => has_key(e, name("Annots")),
        _ => false,
    }
}

/// Some page is a dictionary with an `Annots` entry.
pub open spec fn has_annotated_page(d: &Document) -> bool {
    exists|p: int| 0 <= p < d.pages.len() && annotated(#[trigger] d.object(d.pages@[p]))
}

/// How many objects of each variant a document holds.
#[derive(Debug, Clone, Copy, PartialEq, Eq, Structural)]
pub struct ObjectCounts {
    pub null: usize,
    pub boolean: usize,
    pub integer: usize,
    pub real: usize,
    pub string: usize,
    pub name: usize,
    pub array: usize,
    pub dictionary: usize,
    pub stream: usize,
    pub reference: usize,
}

impl ObjectCounts {
    /// The count for variant `kind` (see `kind_of`).
    pub open spec fn get(self, kind: nat) -> nat {
        if kind == 0 {
            self.null as nat
        } else if kind == 1 {
            self.boolean as nat
        } else if kind == 2 {
            self.integer as nat
        } else if kind == 3 {
            self.real as nat
        } else if kind == 4 {
            self.string as nat
        } else if kind == 5 {
            self.name as nat
        } else if kind == 6 {
            self.array as nat
        } else if kind == 7 {
            self.dictionary as nat
        } else if kind == 8 {
            self.stream as nat
        } else {
            self.reference as nat
        }
    }
}

/// Structural facts about a document.
#[derive(Debug)]
pub struct PdfMetadata {
    pub file_path: String,
    /// The file's size in bytes, when known.
    pub file_size: u64,
    pub page_count: usize,
    pub pdf_version: String,
    pub title: Option<String>,
    pub author: Option<String>,
    pub subject: Option<String>,
    /// The keywords entry, cut at commas, each trimmed.
    pub keywords: Option<Vec<String>>,
    pub creator: Option<String>,
    pub producer: Option<String>,
    pub creation_date: Option<String>,
    pub modification_date: Option<String>,
    /// The trailer has an `Encrypt` entry.
    pub is_encrypted: bool,
    /// Some page carries annotations.
    pub has_forms: bool,
    /// Not analysed: always false.
    pub has_annotations: bool,
    /// Not analysed: always false.
    pub has_javascript: bool,
    /// Not analysed: always false.
    pub has_embedded_fonts: bool,
    /// Not analysed: always false.
    pub has_images: bool,
    pub object_counts: ObjectCounts,
    /// How long loading took, in milliseconds, when known.
    pub load_time_ms: u64,
}

pub open spec fn opt_view(s: Option<String>) -> Option<Seq<char>> {
    match s {
        Some(t) => Some(t@),
        None => None,
    }
}

/// The keywords of a keywords entry: its comma-separated pieces, trimmed.
pub open spec fn keyword_list(s: Seq<char>) -> Seq<Seq<char>> {
    split_on(s, ',').map_values(|p: Seq<char>| trim(p))
}

/// The view of a dictionary is the view of its entries.
pub proof fn lemma_dictionary_view(e: Vec<(Vec<u8>, PdfObject)>)
    ensures
        PdfObject::Dictionary(e)@ == Obj::Dictionary(crate::object::entries_view(e@)),
{
    if let Obj::Dictionary(x) = PdfObject::Dictionary(e)@ {
        assert(x =~= crate::object::entries_view(e@));
    }
}

/// `r` holds the structural facts of `doc`, loaded from `file_path` (see
/// `MetadataExtractor::extract`); the file size is not among them.
pub open spec fn extracted_from(doc: &Document, file_path: Seq<char>, r: PdfMetadata) -> bool {
    &&& r.file_path@ == file_path
    &&& r.page_count == doc.pages.len()
    &&& r.pdf_version@ == doc.version@
    &&& r.is_encrypted == (assoc(doc.trailer_view(), name("Encrypt")) is Some)
    &&& opt_view(r.title) == info_field(doc, name("Title"))
    &&& opt_view(r.author) == info_field(doc, name("Author"))
    &&& opt_view(r.subject) == info_field(doc, name("Subject"))
    &&& opt_view(r.creator) == info_field(doc, name("Creator"))
    &&& opt_view(r.producer) == info_field(doc, name("Producer"))
    &&& opt_view(r.creation_date) == info_field(doc, name("CreationDate"))
    &&& opt_view(r.modification_date) == info_field(doc, name("ModDate"))
    &&& (r.keywords is Some <==> info_field(doc, name("Keywords")) is Some)
    &&& (r.keywords matches Some(k) ==> k@.map_values(|s: String| s@) == keyword_list(
        info_field(doc, name("Keywords"))->0,
    ))
    &&& r.has_forms == has_annotated_page(doc)
    &&& !r.has_annotations && !r.has_javascript && !r.has_embedded_fonts && !r.has_images
    &&& forall|kind: nat| kind < 10 ==> #[trigger] r.object_counts.get(kind) == count_kind(
        doc.table(),
        kind,
    )
}

/// Reads structural facts from a document without changing it.
pub struct MetadataExtractor;

impl MetadataExtractor {
    /// The text of `v`, followed through at most one reference.
    pub fn text_of(doc: &Document, v: Option<&PdfObject>) -> (r: Option<String>)
        requires
            doc.wf(),
        ensures
            opt_view(r) == text_value(
                doc,
                match v {
                    Some(o) => Some(o@),
                    None => None,
                },
            ),
    {
        match v {
            Some(PdfObject::Str(b, _)) => text_from_utf8(b),
            Some(PdfObject::Reference(id)) => match doc.get_object(*id) {
                Some(PdfObject::Str(b, _)) => text_from_utf8(b),
                _ => None,
            },
            _ => None,
        }
    }

    /// The Info dictionary's entry `key`, as text.
    pub fn info_text(doc: &Document, key: &str) -> (r: Option<String>)
        requires
            doc.wf(),
        ensures
            opt_view(r) == info_field(doc, name(key)),
    {
        let k = name_bytes(key);
        match doc.get_trailer(&name_bytes("Info")) {
            Some(PdfObject::Reference(id)) => match doc.get_object(*id) {
                Some(PdfObject::Dictionary(e)) => {
                    proof {
                        lemma_dictionary_view(*e);
                    }
                    let v = MetadataExtractor::entry(e, &k);
                    MetadataExtractor::text_of(doc, v)
                },
                _ => None,
            },
            _ => None,
        }
    }

    /// The value of a dictionary's entry `key`.
    pub fn entry<'a>(e: &'a Vec<(Vec<u8>, PdfObject)>, key: &Vec<u8>) -> (r: Option<&'a PdfObject>)
        ensures
            r is None <==> assoc(crate::object::entries_view(e@), key@) is None,
            r matches Some(o) ==> assoc(crate::object::entries_view(e@), key@) == Some(o@),
    {
        let ghost t = crate::object::entries_view(e@);
        let mut i: usize = e.len();
        assert(t.subrange(0, i as int) =~= t);
        while i > 0
            invariant
                t == crate::object::entries_view(e@),
                i <= e.len(),
                assoc(t, key@) == assoc(t.subrange(0, i as int), key@),
            decreases i,
        {
            assert(t.subrange(0, i as int).drop_last() =~= t.subrange(0, i - 1));
            if bytes_eq(&e[i - 1].0, key) {
                return Some(&e[i - 1].1);
            }
            i = i - 1;
        }
        None
    }

    /// Cuts a keywords entry at commas and trims each piece.
    pub fn split_keywords(s: &String) -> (r: Vec<String>)
        ensures
            r@.map_values(|k: String| k@) == keyword_list(s@),
    {
        let cs = crate::text::chars_of(s.as_str());
        assert(cs@.subrange(0, cs.len() as int) =~= s@);
        let parts = split_bounds(&cs, 0, cs.len(), ',');
        let mut r: Vec<String> = Vec::new();
        let mut k: usize = 0;
        while k < parts.len()
            invariant
                k <= parts.len(),
                parts.len() == split_on(s@, ',').len(),
                forall|j: int|
                    0 <= j < parts.len() ==> (#[trigger] parts[j]).0 <= parts[j].1 <= cs.len()
                        && cs@.subrange(parts[j].0 as int, parts[j].1 as int) == split_on(s@, ',')[j],
                r.len() == k,
                forall|j: int| 0 <= j < k ==> (#[trigger] r@[j])@ == trim(split_on(s@, ',')[j]),
            decreases parts.len() - k,
        {
            let (lo, hi) = parts[k];
            let (a, b) = trim_bounds(&cs, lo, hi);
            let mut piece: Vec<char> = Vec::new();
            let mut x: usize = a;
            while x < b
                invariant
                    a <= x <= b <= cs.len(),
                    piece@ == cs@.subrange(a as int, x as int),
                decreases b - x,
            {
                piece.push(cs[x]);
                x = x + 1;
                assert(piece@ =~= cs@.subrange(a as int, x as int));
            }
            r.push(string_of(&piece));
            k = k + 1;
        }
        assert(r@.map_values(|k: String| k@) =~= keyword_list(s@));
        r
    }

    /// Counts the objects of each variant.
    pub fn count_objects(doc: &Document) -> (r: ObjectCounts)
        ensures
            forall|kind: nat| kind < 10 ==> #[trigger] r.get(kind) == count_kind(doc.table(), kind),
    {
        let mut c = ObjectCounts {
            null: 0,
            boolean: 0,
            integer: 0,
            real: 0,
            string: 0,
            name: 0,
            array: 0,
            dictionary: 0,
            stream: 0,
            reference: 0,
        };
        let mut i: usize = 0;
        while i < doc.objects.len()
            invariant
                i <= doc.objects.len(),
                forall|kind: nat|
                    kind < 10 ==> #[trigger] c.get(kind) == count_kind(
                        doc.table().subrange(0, i as int),
                        kind,
                    ),
                forall|kind: nat| kind < 10 ==> #[trigger] c.get(kind) <= i,
                c.null <= i && c.boolean <= i && c.integer <= i && c.real <= i && c.string <= i,
                c.name <= i && c.array <= i && c.dictionary <= i && c.stream <= i && c.reference <= i,
            decreases doc.objects.len() - i,
        {
            let ghost before = c;
            let ghost t = doc.table().subrange(0, i + 1);
            assert(t.drop_last() =~= doc.table().subrange(0, i as int));
            assert(t.last().1 == doc.objects[i as int].1@);
            match &doc.objects[i].1 {
                PdfObject::Null => c.null = c.null + 1,
                PdfObject::Boolean(_) => c.boolean = c.boolean + 1,
                PdfObject::Integer(_) => c.integer = c.integer + 1,
                PdfObject::Real(_) => c.real = c.real + 1,
                PdfObject::Str(_, _) => c.string = c.string + 1,
                PdfObject::Name(_) => c.name = c.name + 1,
                PdfObject::Array(_) => c.array = c.array + 1,
                PdfObject::Dictionary(_) => c.dictionary = c.dictionary + 1,
                PdfObject::Stream(_, _) => c.stream = c.stream + 1,
                PdfObject::Reference(_) => c.reference = c.reference + 1,
            }
            i = i + 1;
            assert forall|kind: nat| kind < 10 implies #[trigger] c.get(kind) == count_kind(
                doc.table().subrange(0, i as int),
                kind,
            ) by {
                assert(before.get(kind) == count_kind(t.drop_last(), kind));
            }
            assert forall|kind: nat| kind < 10 implies #[trigger] c.get(kind) <= i by {
                assert(before.get(kind) <= i - 1);
            }
        }
        assert(doc.table().subrange(0, i as int) =~= doc.table());
        c
    }

    /// Whether some page is a dictionary with an `Annots` entry.
    pub fn has_annotations(doc: &Document) -> (r: bool)
        requires
            doc.wf(),
        ensures
            r == has_annotated_page(doc),
    {
        let key = name_bytes("Annots");
        let mut p: usize = 0;
        while p < doc.pages.len()
            invariant
                doc.wf(),
                key@ == name("Annots"),
                p <= doc.pages.len(),
                forall|q: int| 0 <= q < p ==> !annotated(#[trigger] doc.object(doc.pages@[q])),
            decreases doc.pages.len() - p,
        {
            match doc.get_object(doc.pages[p]) {
                Some(PdfObject::Dictionary(e)) => {
                    let v = MetadataExtractor::entry(e, &key);
                    proof {
                        lemma_dictionary_view(*e);
                        crate::object::lemma_assoc_has_key(crate::object::entries_view(e@), key@);
                    }
                    if v.is_some() {
                        assert(annotated(doc.object(doc.pages@[p as int])));
                        return true;
                    }
                },
                _ => {},
            }
            p = p + 1;
        }
        false
    }

    /// Page count, declared version, encryption flag, Info fields and object
    /// counts of `doc`, loaded from `file_path`; `file_size` and `load_time_ms`
    /// are left at 0 for the caller, who read the file.
    pub fn extract(doc: &Document, file_path: &String) -> (r: PdfMetadata)
        requires
            doc.wf(),
        ensures
            r.file_path@ == file_path@,
            r.file_size == 0,
            r.load_time_ms == 0,
            extracted_from(doc, file_path@, r),
    {
        let keywords = match MetadataExtractor::info_text(doc, "Keywords") {
            Some(k) => Some(MetadataExtractor::split_keywords(&k)),
            None => None,
        };
        PdfMetadata {
            file_path: file_path.clone(),
            file_size: 0,
            page_count: doc.pages.len(),
            pdf_version: doc.version.clone(),
            title: MetadataExtractor::info_text(doc, "Title"),
            author: MetadataExtractor::info_text(doc, "Author"),
            subject: MetadataExtractor::info_text(doc, "Subject"),
            keywords,
            creator: MetadataExtractor::info_text(doc, "Creator"),
            producer: MetadataExtractor::info_text(doc, "Producer"),
            creation_date: MetadataExtractor::info_text(doc, "CreationDate"),
            modification_date: MetadataExtractor::info_text(doc, "ModDate"),
            is_encrypted: doc.get_trailer(&name_bytes("Encrypt")).is_some(),
            has_forms: MetadataExtractor::has_annotations(doc),
            has_annotations: false,
            has_javascript: false,
            has_embedded_fonts: false,
            has_images: false,
            object_counts: MetadataExtractor::count_objects(doc),
            load_time_ms: 0,
        }
    }
}

} // verus!
