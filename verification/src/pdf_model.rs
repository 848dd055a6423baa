//! A plain model of the PDF objects an export writes, and the calls into the
//! `lopdf` writer and the `miniz_oxide` compressor that turn it into bytes.

use vstd::prelude::*;

verus! {

/// A PDF object, as far as the exported documents need them.
#[derive(Debug)]
pub enum PdfObj {
    Integer(i64),
    /// A real number with a whole value below 2^16 (as the sizes of a sheet
    /// in points are).
    Real(u16),
    Name(Vec<u8>),
    Array(Vec<PdfObj>),
    Dictionary(PdfDict),
    Stream(PdfStream),
    /// A reference to the object with this number, generation 0.
    Reference(u32),
}

/// A PDF dictionary: keys and values in the order they are set.
#[derive(Debug)]
pub struct PdfDict {
    pub entries: Vec<(Vec<u8>, PdfObj)>,
}

/// A PDF stream object.
#[derive(Debug)]
pub struct PdfStream {
    pub dict: PdfDict,
    pub content: Vec<u8>,
    /// Whether the writer may compress the stream further.
    pub allows_compression: bool,
    /// Recorded position of the stream data.
    pub start_position: Option<usize>,
}

/// A whole document: its version, its indirect objects in the order they
/// are added (grouped in parts), and its trailer.
#[derive(Debug)]
pub struct PdfDocModel {
    pub version: String,
    pub parts: Vec<Vec<(u32, PdfObj)>>,
    pub trailer: PdfDict,
}

/// The content of a PDF object, as a mathematical value.
pub enum PdfValue {
    Integer(i64),
    Real(u16),
    Name(Seq<u8>),
    Array(Seq<PdfValue>),
    Dictionary(Seq<(Seq<u8>, PdfValue)>),
    /// Dictionary, data, whether it may be compressed, recorded position.
    Stream(Seq<(Seq<u8>, PdfValue)>, Seq<u8>, bool, Option<usize>),
    Reference(u32),
}

/// The content of a model object.
pub open spec fn obj_value(o: PdfObj) -> PdfValue
    decreases o, 1int,
{
    match o {
        PdfObj::Integer(i) => PdfValue::Integer(i),
        PdfObj::Real(v) => PdfValue::Real(v),
        PdfObj::Name(n) => PdfValue::Name(n@),
        PdfObj::Array(items) => {
            proof {
                assert forall|i: int| 0 <= i < items@.len() implies decreases_to!(o => items@[i]) by {
                    assert(decreases_to!(o => items));
                    assert(decreases_to!(items => items@));
                    assert(decreases_to!(items@ => items@[i]));
                }
            }
            PdfValue::Array(
                Seq::new(items@.len(), |i: int| if 0 <= i < items@.len() { obj_value(items@[i]) } else { PdfValue::Integer(0) }),
            )
        },
        PdfObj::Dictionary(d) => PdfValue::Dictionary(dict_value(d)),
        PdfObj::Stream(st) => PdfValue::Stream(
            dict_value(st.dict),
            st.content@,
            st.allows_compression,
            st.start_position,
        ),
        PdfObj::Reference(id) => PdfValue::Reference(id),
    }
}

/// The content of a model dictionary: its keys and the contents of its
/// values, in order.
pub open spec fn dict_value(d: PdfDict) -> Seq<(Seq<u8>, PdfValue)>
    decreases d, 0int,
{
    proof {
        assert forall|i: int| 0 <= i < d.entries@.len() implies decreases_to!(d => d.entries@[i].1) by {
            assert(decreases_to!(d => d.entries));
            assert(decreases_to!(d.entries => d.entries@));
            assert(decreases_to!(d.entries@ => d.entries@[i]));
            assert(decreases_to!(d.entries@[i] => d.entries@[i].1));
        }
    }
    Seq::new(
        d.entries@.len(),
        |i: int|
            if 0 <= i < d.entries@.len() {
                (d.entries@[i].0@, obj_value(d.entries@[i].1))
            } else {
                (Seq::empty(), PdfValue::Integer(0))
            },
    )
}

#[verifier::external_type_specification]
#[verifier::external_body]
pub struct ExLopdfObject(lopdf::Object);

#[verifier::external_type_specification]
#[verifier::external_body]
pub struct ExLopdfDictionary(lopdf::Dictionary);

#[verifier::external_type_specification]
#[verifier::external_body]
pub struct ExIoError(std::io::Error);

/// The contents of a part of a document model: object numbers and the
/// contents of the objects, in order.
pub open spec fn part_value(part: Seq<(u32, PdfObj)>) -> Seq<(u32, PdfValue)> {
    part.map_values(|e: (u32, PdfObj)| (e.0, obj_value(e.1)))
}

/// The contents of the parts of a document model.
pub open spec fn parts_value(parts: Seq<Vec<(u32, PdfObj)>>) -> Seq<Seq<(u32, PdfValue)>> {
    parts.map_values(|v: Vec<(u32, PdfObj)>| part_value(v@))
}

/// The bytes `lopdf` writes for a document (`Document::save_to`): a function
/// of the version, the objects' numbers and contents in insertion order (a
/// later object with the same number replaces an earlier one), the trailer
/// entries and the document's largest recorded object number, after which
/// the cross-reference stream is numbered.
pub uninterp spec fn lopdf_saved_bytes(
    version: Seq<char>,
    parts: Seq<Seq<(u32, PdfValue)>>,
    trailer: Seq<(Seq<u8>, PdfValue)>,
    max_id: nat,
) -> Seq<u8>;

/// The zlib stream `miniz_oxide::deflate::compress_to_vec_zlib` produces for
/// `data` at compression `level`.
pub uninterp spec fn zlib_compressed(data: Seq<u8>, level: u8) -> Seq<u8>;

/// The largest object number in `part`, 0 for none.
pub open spec fn part_largest(part: Seq<(u32, PdfValue)>) -> nat
    decreases part.len(),
{
    if part.len() == 0 {
        0
    } else {
        let rest = part_largest(part.drop_last());
        if part.last().0 > rest {
            part.last().0 as nat
        } else {
            rest
        }
    }
}

/// The largest object number in a document's parts, 0 for none.
pub open spec fn largest_object_number(parts: Seq<Seq<(u32, PdfValue)>>) -> nat
    decreases parts.len(),
{
    if parts.len() == 0 {
        0
    } else {
        let rest = largest_object_number(parts.drop_last());
        let last = part_largest(parts.last());
        if last > rest {
            last
        } else {
            rest
        }
    }
}

/// The bytes of a document model as `save_pdf` writes them: its largest
/// object number recorded, so that the cross-reference stream takes the next
/// free number.
pub open spec fn pdf_bytes(doc: PdfDocModel) -> Seq<u8> {
    let parts = parts_value(doc.parts@);
    lopdf_saved_bytes(doc.version@, parts, dict_value(doc.trailer), largest_object_number(parts))
}

/// An upper bound on every object number in `part` bounds its largest one.
pub proof fn lemma_part_largest_below(part: Seq<(u32, PdfValue)>, bound: nat)
    requires
        bound > 0,
        forall|i: int| 0 <= i < part.len() ==> (#[trigger] part[i]).0 < bound,
    ensures
        part_largest(part) < bound,
    decreases part.len(),
{
    if part.len() > 0 {
        lemma_part_largest_below(part.drop_last(), bound);
    }
}

/// An upper bound on every object number of a document bounds its largest
/// one.
pub proof fn lemma_largest_below(parts: Seq<Seq<(u32, PdfValue)>>, bound: nat)
    requires
        bound > 0,
        forall|p: int, i: int|
            0 <= p < parts.len() && 0 <= i < parts[p].len() ==> (#[trigger] parts[p][i]).0 < bound,
    ensures
        largest_object_number(parts) < bound,
    decreases parts.len(),
{
    if parts.len() > 0 {
        let last = parts.last();
        assert forall|i: int| 0 <= i < last.len() implies (#[trigger] last[i]).0 < bound by {
            assert(last[i] == parts[parts.len() - 1][i]);
        }
        lemma_part_largest_below(last, bound);
        lemma_largest_below(parts.drop_last(), bound);
    }
}

/// The largest object number of a document model, 0 for none.
pub fn largest_object_id(doc: &PdfDocModel) -> (m: u32)
    ensures
        m == largest_object_number(parts_value(doc.parts@)),
{
    let ghost all = parts_value(doc.parts@);
    let mut m: u32 = 0;
    let mut p: usize = 0;
    while p < doc.parts.len()
        invariant
            p <= doc.parts@.len(),
            all == parts_value(doc.parts@),
            m == largest_object_number(all.take(p as int)),
        decreases doc.parts@.len() - p,
    {
        let part = &doc.parts[p];
        let ghost entries = part_value(part@);
        assert(entries == all[p as int]);
        let mut best: u32 = 0;
        let mut i: usize = 0;
        while i < part.len()
            invariant
                i <= part@.len(),
                entries == part_value(part@),
                best == part_largest(entries.take(i as int)),
            decreases part@.len() - i,
        {
            proof {
                assert(entries.take(i + 1).drop_last() =~= entries.take(i as int));
            }
            if part[i].0 > best {
                best = part[i].0;
            }
            i += 1;
        }
        proof {
            assert(entries.take(part@.len() as int) =~= entries);
            assert(all.take(p + 1).drop_last() =~= all.take(p as int));
        }
        if best > m {
            m = best;
        }
        p += 1;
    }
    proof {
        assert(all.take(doc.parts@.len() as int) =~= all);
    }
    m
}

/// `lopdf::Object` for a model object, one variant for one variant (a
/// whole-valued real converted exactly by std's `From<u16>`), with dictionary
/// entries set in order; part of the conversion `save_pdf` makes. It states
/// nothing of its result.
#[verifier::external_body]
fn lopdf_object(o: &PdfObj) -> lopdf::Object {
    match o {
        PdfObj::Integer(i) => lopdf::Object::Integer(*i),
        PdfObj::Real(v) => lopdf::Object::Real((*v).into()),
        PdfObj::Name(n) => lopdf::Object::Name(n.clone()),
        PdfObj::Array(items) => lopdf::Object::Array(items.iter().map(lopdf_object).collect()),
        PdfObj::Dictionary(d) => lopdf::Object::Dictionary(lopdf_dictionary(d)),
        PdfObj::Stream(s) => lopdf_stream_object(s),
        PdfObj::Reference(id) => lopdf::Object::Reference((*id, 0)),
    }
}

/// `lopdf::Object::Stream` for a model stream, field for field; part of the
/// conversion `save_pdf` makes. It states nothing of its result.
#[verifier::external_body]
fn lopdf_stream_object(s: &PdfStream) -> lopdf::Object {
    lopdf::Object::Stream(lopdf::Stream {
        dict: lopdf_dictionary(&s.dict),
        content: s.content.clone(),
        allows_compression: s.allows_compression,
        start_position: s.start_position,
    })
}

/// `lopdf::Dictionary` with the entries of a model dictionary set in order
/// (`Dictionary::set`); part of the conversion `save_pdf` makes. It states
/// nothing of its result.
#[verifier::external_body]
fn lopdf_dictionary(d: &PdfDict) -> lopdf::Dictionary {
    let mut out = lopdf::Dictionary::new();
    for (key, value) in d.entries.iter() {
        out.set(key.clone(), lopdf_object(value));
    }
    out
}

/// Writes a document with `lopdf`: `Document::with_version`, the objects
/// inserted in order, `max_id` recorded as the document's largest object
/// number, the trailer entries set, then `Document::save_to` into a byte
/// vector. The bytes are `lopdf_saved_bytes` of the model and `max_id`. In
/// the `lopdf` source, `save_to` on such a document (its binary mark valid,
/// its cross-references written as a stream) fails only when writing to the
/// target fails or when no object number is left for that stream, which is
/// numbered `max_id + 1` (`try_new_object_id`, a checked addition); writing
/// to a `Vec` appends, so it fails exactly when `max_id` is `u32::MAX`.
#[verifier::external_body]
fn lopdf_save(doc: &PdfDocModel, max_id: u32) -> (r: Result<Vec<u8>, std::io::Error>)
    ensures
        r is Ok <==> max_id < u32::MAX,
        r is Ok ==> r->Ok_0@ == lopdf_saved_bytes(
            doc.version@,
            parts_value(doc.parts@),
            dict_value(doc.trailer),
            max_id as nat,
        ),
{
    let mut out = lopdf::Document::with_version(doc.version.as_str());
    for part in doc.parts.iter() {
        for (id, obj) in part.iter() {
            out.objects.insert((*id, 0), lopdf_object(obj));
        }
    }
    out.max_id = max_id;
    for (key, value) in doc.trailer.entries.iter() {
        out.trailer.set(key.clone(), lopdf_object(value));
    }
    let mut buffer = Vec::new();
    out.save_to(&mut buffer)?;
    Ok(buffer)
}

/// The `Display` text of a `std::io::Error`; nothing is stated of it.
#[verifier::external_body]
fn io_error_text(e: &std::io::Error) -> String {
    format!("{}", e)
}

/// Serialises a document model to PDF bytes, its largest object number
/// recorded so that the cross-reference stream gets a number of its own;
/// writing into memory fails only when no number is left for that stream.
pub fn save_pdf(doc: &PdfDocModel) -> (r: Result<Vec<u8>, String>)
    ensures
        r is Ok <==> largest_object_number(parts_value(doc.parts@)) < u32::MAX,
        r is Ok ==> r->Ok_0@ == pdf_bytes(*doc),
{
    let max_id = largest_object_id(doc);
    match lopdf_save(doc, max_id) {
        Ok(bytes) => Ok(bytes),
        Err(e) => Err(io_error_text(&e)),
    }
}

/// `miniz_oxide::deflate::compress_to_vec_zlib`: zlib-compresses `data`.
#[verifier::external_body]
fn zlib_compress(data: &Vec<u8>, level: u8) -> (out: Vec<u8>)
    requires
        level <= 10,
    ensures
        out@ == zlib_compressed(data@, level),
{
    miniz_oxide::deflate::compress_to_vec_zlib(data.as_slice(), level)
}

/// zlib-compresses `data` at level 6.
pub fn compress_image_data(data: &Vec<u8>) -> (out: Vec<u8>)
    ensures
        out@ == zlib_compressed(data@, 6),
{
    zlib_compress(data, 6)
}

/// The number of pages `lopdf` finds in a PDF file held in `bytes`
/// (`Document::load_mem`, then `get_pages`), or `None` where the bytes do not
/// load as a PDF document.
pub uninterp spec fn lopdf_page_count(bytes: Seq<u8>) -> Option<usize>;

/// `lopdf::Document::load_mem` on the bytes, then the length of
/// `Document::get_pages`; `None` where loading fails. The contract names the
/// result `lopdf_page_count` of the bytes and claims nothing more of it.
#[verifier::external_body]
fn load_page_count(bytes: &[u8]) -> (r: Option<usize>)
    ensures
        r == lopdf_page_count(bytes@),
{
    match lopdf::Document::load_mem(bytes) {
        Ok(doc) => Some(doc.get_pages().len()),
        Err(_) => None,
    }
}

/// How many pages the PDF file in `bytes` has, if it loads as a PDF.
pub fn pdf_page_count(bytes: &[u8]) -> (r: Option<usize>)
    ensures
        r == lopdf_page_count(bytes@),
{
    load_page_count(bytes)
}

} // verus!
