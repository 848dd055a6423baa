//! Assembling the exported document: one sheet per `layout` slides, each
//! slide an image object drawn into its grid cell by the sheet's content
//! stream, then the page tree, the catalog and the trailer.

use vstd::prelude::*;
use vstd::arithmetic::div_mod::lemma_fundamental_div_mod_converse;
use crate::export_plan::{
    classic_numbering, content_object_id, export_fits, ids_fit, image_object_id, page_object_id,
    sheet_count, ExportError, ExportPlan,
};
use crate::imaging::RgbPixels;
use crate::pdf_model::{
    compress_image_data, save_pdf, zlib_compressed, pdf_bytes, largest_object_number, lemma_largest_below, parts_value, part_value, obj_value, dict_value, PdfValue, PdfDict, PdfDocModel, PdfObj,
    PdfStream,
};
use crate::pdf_types::Orientation;
use crate::text::{append_bytes, decimal_bytes, decimal_u64, str_bytes};
use vstd::string::StringSliceAdditionalSpecFns;

verus! {

/// A slide ready to be placed: its RGB image, and its drawn width and height
/// and the position of its lower-left corner on the sheet, each as the text
/// std's `Display` writes for the single-precision value.
#[derive(Clone, Debug)]
pub struct RenderedSlide {
    pub image: RgbPixels,
    pub draw_width: Vec<u8>,
    pub draw_height: Vec<u8>,
    pub x: Vec<u8>,
    pub y: Vec<u8>,
}

/// Size of an output sheet in points: A4, upright or on its side.
pub open spec fn page_size_of(o: Orientation) -> (u32, u32) {
    match o {
        Orientation::Portrait => (595, 842),
        Orientation::Landscape => (842, 595),
    }
}

/// Size of an output sheet in points.
pub fn page_size_points(o: Orientation) -> (r: (u32, u32))
    ensures
        r == page_size_of(o),
{
    match o {
        Orientation::Portrait => (595, 842),
        Orientation::Landscape => (842, 595),
    }
}

/// The content-stream operators that draw one slide:
/// `q`, `w 0 0 h x y cm`, `/Img<id> Do`, `Q`, each token followed by a space
/// and each operator line by a newline.
pub open spec fn slide_ops_text(s: RenderedSlide, image_id: nat) -> Seq<u8> {
    "q \n".spec_bytes() + s.draw_width@ + " 0 0 ".spec_bytes() + s.draw_height@ + " ".spec_bytes()
        + s.x@ + " ".spec_bytes() + s.y@ + " \n".spec_bytes() + "cm \n".spec_bytes()
        + "/Img".spec_bytes() + decimal_bytes(image_id) + " Do \n".spec_bytes() + "Q \n".spec_bytes()
}

/// The content stream of sheet `sheet`, drawing its first `count` slides,
/// which are `slides[first..first + count]`.
pub open spec fn sheet_content(slides: Seq<RenderedSlide>, layout: nat, sheet: nat, first: nat, count: nat) -> Seq<u8>
    decreases count,
{
    if count == 0 {
        Seq::empty()
    } else {
        sheet_content(slides, layout, sheet, first, (count - 1) as nat) + slide_ops_text(
            slides[first + count - 1],
            image_object_id(slides.len(), layout, sheet, (count - 1) as nat),
        )
    }
}

/// `o` is the name `n`.
pub open spec fn name_obj(o: PdfObj, n: Seq<u8>) -> bool {
    o matches PdfObj::Name(v) && v@ == n
}

/// `o` is the integer `i`.
pub open spec fn int_obj(o: PdfObj, i: int) -> bool {
    o matches PdfObj::Integer(v) && v == i
}

/// `o` is the real number `t`.
pub open spec fn real_obj(o: PdfObj, t: nat) -> bool {
    o matches PdfObj::Real(v) && v == t
}

/// `o` refers to object `id`.
pub open spec fn ref_obj(o: PdfObj, id: nat) -> bool {
    o matches PdfObj::Reference(v) && v == id
}

/// Key of entry `i` of `d`.
pub open spec fn key_at(d: PdfDict, i: int) -> Seq<u8> {
    d.entries@[i].0@
}

/// Value of entry `i` of `d`.
pub open spec fn value_at(d: PdfDict, i: int) -> PdfObj {
    d.entries@[i].1
}

/// `o` is the image XObject of slide `s`: a stream with the dictionary
/// `Type XObject, Subtype Image, Width, Height, ColorSpace DeviceRGB,
/// BitsPerComponent 8, Filter FlateDecode` and the zlib-compressed RGB bytes.
#[verifier::opaque]
pub open spec fn image_stream_ok(o: PdfObj, s: RenderedSlide) -> bool {
    o matches PdfObj::Stream(st) && {
        let d = st.dict;
        &&& d.entries@.len() == 7
        &&& key_at(d, 0) == "Type".spec_bytes() && name_obj(value_at(d, 0), "XObject".spec_bytes())
        &&& key_at(d, 1) == "Subtype".spec_bytes() && name_obj(value_at(d, 1), "Image".spec_bytes())
        &&& key_at(d, 2) == "Width".spec_bytes() && int_obj(value_at(d, 2), s.image.width as int)
        &&& key_at(d, 3) == "Height".spec_bytes() && int_obj(value_at(d, 3), s.image.height as int)
        &&& key_at(d, 4) == "ColorSpace".spec_bytes() && name_obj(
            value_at(d, 4),
            "DeviceRGB".spec_bytes(),
        )
        &&& key_at(d, 5) == "BitsPerComponent".spec_bytes() && int_obj(value_at(d, 5), 8)
        &&& key_at(d, 6) == "Filter".spec_bytes() && name_obj(
            value_at(d, 6),
            "FlateDecode".spec_bytes(),
        )
        &&& st.content@ == zlib_compressed(s.image.data@, 6)
        &&& !st.allows_compression
        &&& st.start_position == Some(0usize)
    }
}

/// `o` is a content stream with an empty dictionary holding `text`.
#[verifier::opaque]
pub open spec fn content_stream_ok(o: PdfObj, text: Seq<u8>) -> bool {
    o matches PdfObj::Stream(st) && {
        &&& st.dict.entries@.len() == 0
        &&& st.content@ == text
        &&& !st.allows_compression
        &&& st.start_position == Some(0usize)
    }
}

/// `d` maps `Img<id>` to a reference to image object `id` for the first
/// `count` slides of sheet `sheet`, in order.
pub open spec fn xobjects_ok(d: PdfDict, n: nat, layout: nat, sheet: nat, count: nat) -> bool {
    &&& d.entries@.len() == count
    &&& forall|l: int|
        0 <= l < count ==> {
            &&& #[trigger] key_at(d, l) == "Img".spec_bytes() + decimal_bytes(
                image_object_id(n, layout, sheet, l as nat),
            )
            &&& ref_obj(value_at(d, l), image_object_id(n, layout, sheet, l as nat))
        }
}

/// `o` is the page dictionary of sheet `sheet` with `count` slides:
/// `Type Page`, `Resources << XObject << ... >> >>`, `Contents` and a
/// `MediaBox [0 0 width height]`.
#[verifier::opaque]
pub open spec fn page_dict_ok(o: PdfObj, n: nat, layout: nat, sheet: nat, count: nat, width: nat, height: nat) -> bool {
    o matches PdfObj::Dictionary(d) && {
        &&& d.entries@.len() == 4
        &&& key_at(d, 0) == "Type".spec_bytes() && name_obj(value_at(d, 0), "Page".spec_bytes())
        &&& key_at(d, 1) == "Resources".spec_bytes()
        &&& value_at(d, 1) matches PdfObj::Dictionary(res) && {
            &&& res.entries@.len() == 1
            &&& key_at(res, 0) == "XObject".spec_bytes()
            &&& value_at(res, 0) matches PdfObj::Dictionary(xo) && xobjects_ok(xo, n, layout, sheet, count)
        }
        &&& key_at(d, 2) == "Contents".spec_bytes() && ref_obj(value_at(d, 2), content_object_id(n, layout, sheet))
        &&& key_at(d, 3) == "MediaBox".spec_bytes()
        &&& value_at(d, 3) matches PdfObj::Array(a) && {
            &&& a@.len() == 4
            &&& real_obj(a@[0], 0)
            &&& real_obj(a@[1], 0)
            &&& real_obj(a@[2], width)
            &&& real_obj(a@[3], height)
        }
    }
}

/// Number of slides on sheet `sheet` of an export of `n` slides.
pub open spec fn slides_on_sheet(n: nat, layout: nat, sheet: nat) -> nat {
    if n - sheet * layout < layout {
        (n - sheet * layout) as nat
    } else {
        layout
    }
}

/// The objects added for sheet `sheet`: its image objects, its content
/// stream, then its page dictionary.
pub open spec fn sheet_part_ok(
    part: Seq<(u32, PdfObj)>,
    slides: Seq<RenderedSlide>,
    layout: nat,
    sheet: nat,
    first: nat,
    count: nat,
    width: nat,
    height: nat,
) -> bool {
    &&& part.len() == count + 2
    &&& forall|l: int|
        0 <= l < count ==> {
            &&& (#[trigger] part[l]).0 == image_object_id(slides.len(), layout, sheet, l as nat)
            &&& image_stream_ok(part[l].1, slides[first + l])
        }
    &&& part[count as int].0 == content_object_id(slides.len(), layout, sheet)
    &&& content_stream_ok(part[count as int].1, sheet_content(slides, layout, sheet, first, count))
    &&& part[count as int + 1].0 == page_object_id(slides.len(), layout, sheet)
    &&& page_dict_ok(part[count as int + 1].1, slides.len(), layout, sheet, count, width, height)
}

/// The page tree root (object 2, listing the `sheets` page dictionaries in
/// order) and the catalog (object 1).
pub open spec fn tree_part_ok(part: Seq<(u32, PdfObj)>, n: nat, layout: nat, sheets: nat) -> bool {
    &&& part.len() == 2
    &&& part[0].0 == 2
    &&& part[0].1 matches PdfObj::Dictionary(d) && {
        &&& d.entries@.len() == 3
        &&& key_at(d, 0) == "Type".spec_bytes() && name_obj(value_at(d, 0), "Pages".spec_bytes())
        &&& key_at(d, 1) == "Kids".spec_bytes()
        &&& value_at(d, 1) matches PdfObj::Array(kids) && {
            &&& kids@.len() == sheets
            &&& forall|p: int| 0 <= p < sheets ==> ref_obj(#[trigger] kids@[p], page_object_id(n, layout, p as nat))
        }
        &&& key_at(d, 2) == "Count".spec_bytes() && int_obj(value_at(d, 2), sheets as int)
    }
    &&& part[1].0 == 1
    &&& part[1].1 matches PdfObj::Dictionary(c) && {
        &&& c.entries@.len() == 2
        &&& key_at(c, 0) == "Type".spec_bytes() && name_obj(value_at(c, 0), "Catalog".spec_bytes())
        &&& key_at(c, 1) == "Pages".spec_bytes() && ref_obj(value_at(c, 1), 2)
    }
}

/// `doc` is the document an export of `slides`, `layout` to a sheet, in
/// orientation `o`, writes: PDF 1.7, one part per sheet, then the page tree
/// and catalog, and a trailer whose `Root` is the catalog.
pub open spec fn document_ok(doc: PdfDocModel, slides: Seq<RenderedSlide>, layout: nat, o: Orientation) -> bool {
    let n = slides.len();
    let sheets = sheet_count(n, layout);
    let width = page_size_of(o).0 as nat;
    let height = page_size_of(o).1 as nat;
    &&& doc.version@ == "1.7"@
    &&& doc.parts@.len() == sheets + 1
    &&& forall|p: int|
        0 <= p < sheets ==> sheet_part_ok(
            (#[trigger] doc.parts@[p])@,
            slides,
            layout,
            p as nat,
            (p * layout) as nat,
            slides_on_sheet(n, layout, p as nat),
            width,
            height,
        )
    &&& tree_part_ok(doc.parts@[sheets as int]@, n, layout, sheets)
    &&& doc.trailer.entries@.len() == 1
    &&& key_at(doc.trailer, 0) == "Root".spec_bytes()
    &&& ref_obj(value_at(doc.trailer, 0), 1)
}


/// A name object.
fn name_of(s: &str) -> (o: PdfObj)
    ensures
        name_obj(o, s.spec_bytes()),
{
    PdfObj::Name(str_bytes(s))
}

/// The image XObject of a slide.
fn image_object(s: &RenderedSlide) -> (o: PdfObj)
    ensures
        image_stream_ok(o, *s),
{
    let mut entries: Vec<(Vec<u8>, PdfObj)> = Vec::new();
    entries.push((str_bytes("Type"), name_of("XObject")));
    entries.push((str_bytes("Subtype"), name_of("Image")));
    entries.push((str_bytes("Width"), PdfObj::Integer(s.image.width as i64)));
    entries.push((str_bytes("Height"), PdfObj::Integer(s.image.height as i64)));
    entries.push((str_bytes("ColorSpace"), name_of("DeviceRGB")));
    entries.push((str_bytes("BitsPerComponent"), PdfObj::Integer(8)));
    entries.push((str_bytes("Filter"), name_of("FlateDecode")));
    let content = compress_image_data(&s.image.data);
    reveal(image_stream_ok);
    PdfObj::Stream(
        PdfStream {
            dict: PdfDict { entries },
            content,
            allows_compression: false,
            start_position: Some(0),
        },
    )
}

/// Appends the operators drawing slide `s` with image object `image_id`.
fn push_slide_ops(out: &mut Vec<u8>, s: &RenderedSlide, image_id: u32)
    ensures
        final(out)@ == old(out)@ + slide_ops_text(*s, image_id as nat),
{
    let mut ops = str_bytes("q \n");
    append_bytes(&mut ops, &s.draw_width);
    append_bytes(&mut ops, &str_bytes(" 0 0 "));
    append_bytes(&mut ops, &s.draw_height);
    append_bytes(&mut ops, &str_bytes(" "));
    append_bytes(&mut ops, &s.x);
    append_bytes(&mut ops, &str_bytes(" "));
    append_bytes(&mut ops, &s.y);
    append_bytes(&mut ops, &str_bytes(" \n"));
    append_bytes(&mut ops, &str_bytes("cm \n"));
    append_bytes(&mut ops, &str_bytes("/Img"));
    append_bytes(&mut ops, &decimal_u64(image_id as u64));
    append_bytes(&mut ops, &str_bytes(" Do \n"));
    append_bytes(&mut ops, &str_bytes("Q \n"));
    append_bytes(out, &ops);
}

/// The page dictionary of a sheet.
fn page_object(
    xobjects: Vec<(Vec<u8>, PdfObj)>,
    content_id: u32,
    width: u16,
    height: u16,
    Ghost(n): Ghost<nat>,
    Ghost(layout): Ghost<nat>,
    Ghost(sheet): Ghost<nat>,
    Ghost(count): Ghost<nat>,
) -> (o: PdfObj)
    requires
        xobjects_ok(PdfDict { entries: xobjects }, n, layout, sheet, count),
        content_id == content_object_id(n, layout, sheet),
    ensures
        page_dict_ok(o, n, layout, sheet, count, width as nat, height as nat),
{
    let mut resources: Vec<(Vec<u8>, PdfObj)> = Vec::new();
    resources.push((str_bytes("XObject"), PdfObj::Dictionary(PdfDict { entries: xobjects })));
    let mut media_box: Vec<PdfObj> = Vec::new();
    media_box.push(PdfObj::Real(0));
    media_box.push(PdfObj::Real(0));
    media_box.push(PdfObj::Real(width));
    media_box.push(PdfObj::Real(height));
    let mut entries: Vec<(Vec<u8>, PdfObj)> = Vec::new();
    entries.push((str_bytes("Type"), name_of("Page")));
    entries.push((str_bytes("Resources"), PdfObj::Dictionary(PdfDict { entries: resources })));
    entries.push((str_bytes("Contents"), PdfObj::Reference(content_id)));
    entries.push((str_bytes("MediaBox"), PdfObj::Array(media_box)));
    reveal(page_dict_ok);
    PdfObj::Dictionary(PdfDict { entries })
}


/// `sheet_count` is the least `s` with `s * layout >= n`.
proof fn lemma_sheet_count(n: nat, layout: nat, s: nat)
    requires
        layout > 0,
        s * layout >= n,
        s == 0 || (s - 1) * layout < n,
    ensures
        s == sheet_count(n, layout),
{
    let r = n + layout - 1 - s * layout;
    if s >= 1 {
        assert(s * layout - layout == (s - 1) * layout) by (nonlinear_arith)
            requires
                s >= 1,
        ;
    }
    assert(0 <= r < layout);
    lemma_fundamental_div_mod_converse((n + layout - 1) as int, layout as int, s as int, r as int);
}

/// Sheets before the last one are full.
proof fn lemma_sheet_below_count(n: nat, layout: nat, s: nat)
    requires
        layout > 0,
        s * layout < n,
    ensures
        s < sheet_count(n, layout),
        s + 1 <= sheet_count(n, layout),
{
    let c = sheet_count(n, layout);
    let r = ((n + layout - 1) as nat) % layout;
    assert(((n + layout - 1) as nat) == c * layout + r) by (nonlinear_arith)
        requires
            c == ((n + layout - 1) as nat) / layout,
            r == ((n + layout - 1) as nat) % layout,
            layout > 0,
    ;
    assert(r < layout) by (nonlinear_arith)
        requires
            r == ((n + layout - 1) as nat) % layout,
            layout > 0,
    ;
    if s >= c {
        assert(s * layout >= c * layout) by (nonlinear_arith)
            requires
                s >= c,
        ;
    }
}

/// The object numbers of a sheet of an export fit in 32 bits: with the
/// classic numbering the sheet is one of at most 99, otherwise its block ends
/// within range.
proof fn lemma_block_fits(n: nat, layout: nat, sheet: nat)
    requires
        layout > 0,
        n > 0,
        ids_fit(n, layout),
        sheet + 1 <= sheet_count(n, layout),
    ensures
        classic_numbering(n, layout) ==> sheet < 99 && layout <= 100,
        !classic_numbering(n, layout) ==> page_object_id(n, layout, sheet) + layout + 1 < u32::MAX,
{
    if !classic_numbering(n, layout) {
        assert((sheet + 1) * (layout + 2) <= sheet_count(n, layout) * (layout + 2)) by (nonlinear_arith)
            requires
                sheet + 1 <= sheet_count(n, layout),
        ;
        assert(3 + sheet * (layout + 2) + layout + 1 == 2 + (sheet + 1) * (layout + 2)) by (nonlinear_arith);
    }
}

/// The objects of sheet `sheet`, which shows `slides[first..first + count]`,
/// and the number of its page dictionary.
fn build_sheet(
    slides: &Vec<RenderedSlide>,
    layout: u32,
    classic: bool,
    sheet: usize,
    slide_idx: usize,
    count: usize,
    width: u16,
    height: u16,
) -> (r: (Vec<(u32, PdfObj)>, u32))
    requires
        layout > 0,
        classic == classic_numbering(slides@.len(), layout as nat),
        ids_fit(slides@.len(), layout as nat),
        slide_idx == sheet * layout,
        slide_idx < slides@.len(),
        count <= layout,
        slide_idx + count <= slides@.len(),
    ensures
        sheet_part_ok(
            r.0@,
            slides@,
            layout as nat,
            sheet as nat,
            slide_idx as nat,
            count as nat,
            width as nat,
            height as nat,
        ),
        r.1 == page_object_id(slides@.len(), layout as nat, sheet as nat),
{
    let n = slides.len();
    let per_sheet = layout as usize;
    proof {
        lemma_sheet_below_count(n as nat, layout as nat, sheet as nat);
        lemma_block_fits(n as nat, layout as nat, sheet as nat);
    }
    let page_id: u32 = if classic {
        ((sheet + 1) * 10) as u32
    } else {
        (3u64 + (sheet as u64) * ((layout as u64) + 2)) as u32
    };
    let content_id: u32 = page_id + 1;
    let mut part: Vec<(u32, PdfObj)> = Vec::new();
    let mut content: Vec<u8> = Vec::new();
    let mut xobjects: Vec<(Vec<u8>, PdfObj)> = Vec::new();
    let mut l: usize = 0;
    while l < count
        invariant
            n == slides@.len(),
            per_sheet == layout,
            classic == classic_numbering(n as nat, layout as nat),
            page_id == page_object_id(n as nat, layout as nat, sheet as nat),
            content_id == page_id + 1,
            classic ==> sheet < 99 && layout <= 100,
            !classic ==> page_object_id(n as nat, layout as nat, sheet as nat) + layout + 1 <= u32::MAX,
            layout > 0,
            ids_fit(n as nat, layout as nat),
            slide_idx == sheet * per_sheet,
            slide_idx < n,
            count <= per_sheet,
            slide_idx + count <= n,
            l <= count,
            part@.len() == l,
            xobjects@.len() == l,
            content@ == sheet_content(slides@, layout as nat, sheet as nat, slide_idx as nat, l as nat),
            forall|j: int|
                0 <= j < l ==> {
                    &&& (#[trigger] part@[j]).0 == image_object_id(n as nat, layout as nat, sheet as nat, j as nat)
                    &&& image_stream_ok(part@[j].1, slides@[slide_idx + j])
                },
            forall|j: int|
                0 <= j < l ==> {
                    &&& (#[trigger] xobjects@[j]).0@ == "Img".spec_bytes() + decimal_bytes(
                        image_object_id(n as nat, layout as nat, sheet as nat, j as nat),
                    )
                    &&& ref_obj(xobjects@[j].1, image_object_id(n as nat, layout as nat, sheet as nat, j as nat))
                },
        decreases count - l,
    {
        let k: usize = slide_idx + l;
        let image_id: u32 = if classic {
            (sheet * 100 + l + 1000) as u32
        } else {
            page_id + 2 + (l as u32)
        };
        part.push((image_id, image_object(&slides[k])));
        let mut key = str_bytes("Img");
        append_bytes(&mut key, &decimal_u64(image_id as u64));
        xobjects.push((key, PdfObj::Reference(image_id)));
        push_slide_ops(&mut content, &slides[k], image_id);
        l += 1;
    }
    let content_obj = PdfObj::Stream(
        PdfStream {
            dict: PdfDict { entries: Vec::new() },
            content,
            allows_compression: false,
            start_position: Some(0),
        },
    );
    proof {
        reveal(content_stream_ok);
    }
    part.push((content_id, content_obj));
    let page = page_object(
        xobjects,
        content_id,
        width,
        height,
        Ghost(n as nat),
        Ghost(layout as nat),
        Ghost(sheet as nat),
        Ghost(count as nat),
    );
    part.push((page_id, page));
    (part, page_id)
}

/// The document an export writes, as a model: see `document_ok`.
pub fn build_document(slides: &Vec<RenderedSlide>, layout: u32, orientation: Orientation) -> (doc: PdfDocModel)
    requires
        layout > 0,
        ids_fit(slides@.len(), layout as nat),
        sheet_count(slides@.len(), layout as nat) * layout <= usize::MAX,
    ensures
        document_ok(doc, slides@, layout as nat, orientation),
{
    let n = slides.len();
    let per_sheet = layout as usize;
    let (page_width, page_height) = page_size_points(orientation);
    let width: u16 = page_width as u16;
    let height: u16 = page_height as u16;
    let ghost total_sheets = sheet_count(n as nat, layout as nat);
    let sheets_needed: u128 = ((n as u128) + (layout as u128) - 1) / (layout as u128);
    let classic = sheets_needed <= 99 && layout <= 100;
    assert(classic == classic_numbering(n as nat, layout as nat));
    let mut parts: Vec<Vec<(u32, PdfObj)>> = Vec::new();
    let mut kids: Vec<PdfObj> = Vec::new();
    let mut sheet: usize = 0;
    let mut slide_idx: usize = 0;
    while slide_idx < n
        invariant
            n == slides@.len(),
            per_sheet == layout,
            layout > 0,
            classic == classic_numbering(n as nat, layout as nat),
            ids_fit(n as nat, layout as nat),
            total_sheets == sheet_count(n as nat, layout as nat),
            total_sheets * layout <= usize::MAX,
            width == page_size_of(orientation).0,
            height == page_size_of(orientation).1,
            slide_idx == sheet * per_sheet,
            sheet == 0 || (sheet - 1) * per_sheet < n,
            parts@.len() == sheet,
            kids@.len() == sheet,
            forall|p: int|
                0 <= p < sheet ==> sheet_part_ok(
                    (#[trigger] parts@[p])@,
                    slides@,
                    layout as nat,
                    p as nat,
                    (p * layout) as nat,
                    slides_on_sheet(n as nat, layout as nat, p as nat),
                    width as nat,
                    height as nat,
                ),
            forall|p: int| 0 <= p < sheet ==> ref_obj(#[trigger] kids@[p], page_object_id(n as nat, layout as nat, p as nat)),
        decreases total_sheets - sheet,
    {
        proof {
            lemma_sheet_below_count(n as nat, layout as nat, sheet as nat);
        }
        let count: usize = if per_sheet < n - slide_idx {
            per_sheet
        } else {
            n - slide_idx
        };
        assert(count == slides_on_sheet(n as nat, layout as nat, sheet as nat));
        let (part, page_id) = build_sheet(
            slides,
            layout,
            classic,
            sheet,
            slide_idx,
            count,
            width,
            height,
        );
        parts.push(part);
        kids.push(PdfObj::Reference(page_id));
        proof {
            assert((sheet + 1) * per_sheet <= total_sheets * per_sheet) by (nonlinear_arith)
                requires
                    sheet + 1 <= total_sheets,
            ;
            assert((sheet + 1) * per_sheet == slide_idx + per_sheet) by (nonlinear_arith)
                requires
                    slide_idx == sheet * per_sheet,
            ;
        }
        proof {
            assert(total_sheets <= total_sheets * layout) by (nonlinear_arith)
                requires
                    layout > 0,
            ;
        }
        sheet += 1;
        slide_idx += per_sheet;
        proof {
            assert(slide_idx == sheet * per_sheet) by (nonlinear_arith)
                requires
                    slide_idx == (sheet - 1) * per_sheet + per_sheet,
            ;
        }
    }
    proof {
        lemma_sheet_count(n as nat, layout as nat, sheet as nat);
        if n > 0 && !classic {
            assert(sheet <= sheet * (layout + 2)) by (nonlinear_arith);
        }
    }
    let mut kid_array: Vec<PdfObj> = kids;
    let mut pages_entries: Vec<(Vec<u8>, PdfObj)> = Vec::new();
    pages_entries.push((str_bytes("Type"), name_of("Pages")));
    pages_entries.push((str_bytes("Kids"), PdfObj::Array(kid_array)));
    pages_entries.push((str_bytes("Count"), PdfObj::Integer(sheet as i64)));
    let mut catalog_entries: Vec<(Vec<u8>, PdfObj)> = Vec::new();
    catalog_entries.push((str_bytes("Type"), name_of("Catalog")));
    catalog_entries.push((str_bytes("Pages"), PdfObj::Reference(2)));
    let mut tree: Vec<(u32, PdfObj)> = Vec::new();
    tree.push((2, PdfObj::Dictionary(PdfDict { entries: pages_entries })));
    tree.push((1, PdfObj::Dictionary(PdfDict { entries: catalog_entries })));
    parts.push(tree);
    let mut trailer_entries: Vec<(Vec<u8>, PdfObj)> = Vec::new();
    trailer_entries.push((str_bytes("Root"), PdfObj::Reference(1)));
    PdfDocModel {
        version: String::from_str("1.7"),
        parts,
        trailer: PdfDict { entries: trailer_entries },
    }
}

/// Writes the exported document: the model of `build_document`, serialised
/// by the PDF writer (every object number is below `u32::MAX`, so the
/// writer has a number left for its cross-reference stream and succeeds).
pub fn assemble_pdf(slides: &Vec<RenderedSlide>, layout: u32, orientation: Orientation) -> (r: Result<Vec<u8>, ExportError>)
    requires
        layout > 0,
        ids_fit(slides@.len(), layout as nat),
        sheet_count(slides@.len(), layout as nat) * layout <= usize::MAX,
    ensures
        r is Ok ==> exists|doc: PdfDocModel|
            document_ok(doc, slides@, layout as nat, orientation) && r->Ok_0@ == pdf_bytes(doc),
        r is Ok,
{
    let doc = build_document(slides, layout, orientation);
    proof {
        lemma_numbers_below_max(doc, slides@, layout as nat, orientation);
    }
    match save_pdf(&doc) {
        Ok(bytes) => Ok(bytes),
        Err(cause) => Err(ExportError::SaveFailed(cause)),
    }
}


/// Ends an export once the interface has rendered the reachable slides of
/// `plan` in order: a decoding failure met while rendering is reported
/// first, then the missing page or image the plan stopped at, and only when
/// neither happened is the document written.
pub fn finish_export(
    plan: ExportPlan,
    rendered: &Vec<RenderedSlide>,
    decode_error: Option<String>,
    orientation: Orientation,
) -> (r: Result<Vec<u8>, ExportError>)
    requires
        plan.layout > 0,
        decode_error is None ==> rendered@.len() == plan.reachable,
        decode_error is Some ==> rendered@.len() < plan.reachable,
        decode_error is None && plan.stop is None ==> export_fits(
            rendered@.len(),
            plan.layout as nat,
        ),
    ensures
        decode_error matches Some(cause) ==> r == Err::<Vec<u8>, ExportError>(
            ExportError::DecodeFailed(cause),
        ),
        decode_error is None && plan.stop is Some ==> r == Err::<Vec<u8>, ExportError>(
            plan.stop->0,
        ),
        decode_error is None && plan.stop is None ==> {
            &&& r is Ok ==> exists|doc: PdfDocModel|
                document_ok(doc, rendered@, plan.layout as nat, orientation) && r->Ok_0@
                    == pdf_bytes(doc)
            &&& r is Ok
        },
{
    match decode_error {
        Some(cause) => Err(ExportError::DecodeFailed(cause)),
        None => match plan.stop {
            Some(e) => Err(e),
            None => assemble_pdf(rendered, plan.layout, orientation),
        },
    }
}


/// Every slide `k` of an export is placed on sheet `k / layout`, at position
/// `k % layout` of that sheet, as an image object showing exactly that
/// slide's picture.
pub proof fn lemma_slide_placement(
    doc: PdfDocModel,
    slides: Seq<RenderedSlide>,
    layout: nat,
    o: Orientation,
    k: nat,
)
    requires
        layout > 0,
        document_ok(doc, slides, layout, o),
        k < slides.len(),
    ensures
        k / layout < sheet_count(slides.len(), layout),
        k % layout < slides_on_sheet(slides.len(), layout, k / layout),
        doc.parts@[(k / layout) as int]@[(k % layout) as int].0 == image_object_id(
            slides.len(),
            layout,
            k / layout,
            k % layout,
        ),
        image_stream_ok(doc.parts@[(k / layout) as int]@[(k % layout) as int].1, slides[k as int]),
{
    let n = slides.len();
    let p = k / layout;
    let l = k % layout;
    assert(k == p * layout + l && l < layout) by (nonlinear_arith)
        requires
            p == k / layout,
            l == k % layout,
            layout > 0,
    ;
    assert(p * layout <= k) by (nonlinear_arith)
        requires
            k == p * layout + l,
    ;
    lemma_sheet_below_count(n, layout, p);
    let width = page_size_of(o).0 as nat;
    let height = page_size_of(o).1 as nat;
    assert(sheet_part_ok(
        doc.parts@[p as int]@,
        slides,
        layout,
        p,
        (p * layout) as nat,
        slides_on_sheet(n, layout, p),
        width,
        height,
    ));
    let part = doc.parts@[p as int]@;
    assert(part[l as int].0 == image_object_id(n, layout, p, l));
}

/// Blocks of object numbers of different sheets do not overlap.
proof fn lemma_blocks_apart(layout: nat, p1: nat, p2: nat)
    requires
        p1 < p2,
    ensures
        3 + p1 * (layout + 2) + layout + 2 <= 3 + p2 * (layout + 2),
{
    assert(p1 * (layout + 2) + layout + 2 <= p2 * (layout + 2)) by (nonlinear_arith)
        requires
            p1 < p2,
    ;
}

proof fn lemma_image_ids_apart(p1: nat, l1: nat, p2: nat, l2: nat)
    requires
        l1 < 100,
        l2 < 100,
        p1 * 100 + l1 == p2 * 100 + l2,
    ensures
        p1 == p2,
        l1 == l2,
{
    if p1 < p2 {
        assert(p1 * 100 + 100 <= p2 * 100) by (nonlinear_arith)
            requires
                p1 < p2,
        ;
    } else if p2 < p1 {
        assert(p2 * 100 + 100 <= p1 * 100) by (nonlinear_arith)
            requires
                p2 < p1,
        ;
    }
}

proof fn lemma_tens_apart(a: nat, b: nat)
    ensures
        a * 10 != b * 10 + 1,
        a * 10 == b * 10 ==> a == b,
{
    assert(a * 10 != b * 10 + 1) by (nonlinear_arith);
    assert(a * 10 == b * 10 ==> a == b) by (nonlinear_arith);
}

/// Number of the object at position `i` of part `p` of a document.
pub open spec fn object_number(doc: PdfDocModel, p: int, i: int) -> u32 {
    doc.parts@[p]@[i].0
}

/// Position `i` of part `p` exists in the document.
pub open spec fn object_slot(doc: PdfDocModel, p: int, i: int) -> bool {
    0 <= p < doc.parts@.len() && 0 <= i < doc.parts@[p]@.len()
}

/// Every sheet of an export starts at a slide that exists.
proof fn lemma_sheet_start(n: nat, layout: nat, p: nat)
    requires
        layout > 0,
        p < sheet_count(n, layout),
    ensures
        p * layout < n,
{
    let c = sheet_count(n, layout);
    let r = ((n + layout - 1) as nat) % layout;
    assert(((n + layout - 1) as nat) == c * layout + r && r < layout) by (nonlinear_arith)
        requires
            c == ((n + layout - 1) as nat) / layout,
            r == ((n + layout - 1) as nat) % layout,
            layout > 0,
    ;
    assert(p * layout + layout <= c * layout) by (nonlinear_arith)
        requires
            p + 1 <= c,
    ;
}

/// What number the object in slot `(p, i)` of an export document has, by
/// the role of the object.
proof fn lemma_object_role(
    doc: PdfDocModel,
    slides: Seq<RenderedSlide>,
    layout: nat,
    o: Orientation,
    p: int,
    i: int,
)
    requires
        layout > 0,
        document_ok(doc, slides, layout, o),
        object_slot(doc, p, i),
    ensures
        ({
            let n = slides.len();
            let id = object_number(doc, p, i) as int;
            let sheets = sheet_count(n, layout);
            if p == sheets {
                (i == 0 && id == 2) || (i == 1 && id == 1)
            } else {
                let c = slides_on_sheet(n, layout, p as nat);
                &&& p < sheets
                &&& c <= layout
                &&& (i < c ==> id == image_object_id(n, layout, p as nat, i as nat))
                &&& (i == c ==> id == content_object_id(n, layout, p as nat))
                &&& (i == c + 1 ==> id == page_object_id(n, layout, p as nat))
                &&& i <= c + 1
            }
        }),
{
    let n = slides.len();
    let sheets = sheet_count(n, layout);
    let width = page_size_of(o).0 as nat;
    let height = page_size_of(o).1 as nat;
    if p < sheets {
        lemma_sheet_start(n, layout, p as nat);
        assert(sheet_part_ok(
            doc.parts@[p]@,
            slides,
            layout,
            p as nat,
            (p * layout) as nat,
            slides_on_sheet(n, layout, p as nat),
            width,
            height,
        ));
    } else {
        assert(tree_part_ok(doc.parts@[sheets as int]@, n, layout, sheets));
    }
}


/// Two slides show the same picture, drawn at the same size and place.
pub open spec fn same_slide(a: RenderedSlide, b: RenderedSlide) -> bool {
    &&& a.image.width == b.image.width
    &&& a.image.height == b.image.height
    &&& a.image.data@ == b.image.data@
    &&& a.draw_width@ == b.draw_width@
    &&& a.draw_height@ == b.draw_height@
    &&& a.x@ == b.x@
    &&& a.y@ == b.y@
}

/// Two runs of slides agree slide for slide.
pub open spec fn same_slides(a: Seq<RenderedSlide>, b: Seq<RenderedSlide>) -> bool {
    &&& a.len() == b.len()
    &&& forall|k: int| 0 <= k < a.len() ==> same_slide(#[trigger] a[k], b[k])
}

/// Entry `i` of two dictionaries has the same key and the same content.
spec fn same_entry(d1: PdfDict, d2: PdfDict, i: int) -> bool {
    key_at(d1, i) == key_at(d2, i) && obj_value(value_at(d1, i)) == obj_value(value_at(d2, i))
}

/// Dictionaries whose entries agree one by one have the same content.
proof fn lemma_same_dict(d1: PdfDict, d2: PdfDict)
    requires
        d1.entries@.len() == d2.entries@.len(),
        forall|i: int| 0 <= i < d1.entries@.len() ==> #[trigger] same_entry(d1, d2, i),
    ensures
        dict_value(d1) == dict_value(d2),
{
    assert forall|i: int| 0 <= i < d1.entries@.len() implies dict_value(d1)[i] == dict_value(d2)[i] by {
        assert(same_entry(d1, d2, i));
    }
    assert(dict_value(d1) =~= dict_value(d2));
}

/// The image objects of two view-equal slides have the same content.
proof fn lemma_same_image(o1: PdfObj, o2: PdfObj, s1: RenderedSlide, s2: RenderedSlide)
    requires
        image_stream_ok(o1, s1),
        image_stream_ok(o2, s2),
        same_slide(s1, s2),
    ensures
        obj_value(o1) == obj_value(o2),
{
    reveal(image_stream_ok);
    let d1 = o1->Stream_0.dict;
    let d2 = o2->Stream_0.dict;
    assert(same_entry(d1, d2, 0));
    assert(same_entry(d1, d2, 1));
    assert(same_entry(d1, d2, 2));
    assert(same_entry(d1, d2, 3));
    assert(same_entry(d1, d2, 4));
    assert(same_entry(d1, d2, 5));
    assert(same_entry(d1, d2, 6));
    assert forall|i: int| 0 <= i < d1.entries@.len() implies #[trigger] same_entry(d1, d2, i) by {
        assert(i == 0 || i == 1 || i == 2 || i == 3 || i == 4 || i == 5 || i == 6);
    }
    lemma_same_dict(d1, d2);
}

/// The content streams of a sheet agree for view-equal slides.
proof fn lemma_same_content(
    a: Seq<RenderedSlide>,
    b: Seq<RenderedSlide>,
    layout: nat,
    sheet: nat,
    first: nat,
    count: nat,
)
    requires
        same_slides(a, b),
        first + count <= a.len(),
    ensures
        sheet_content(a, layout, sheet, first, count) == sheet_content(b, layout, sheet, first, count),
    decreases count,
{
    if count > 0 {
        lemma_same_content(a, b, layout, sheet, first, (count - 1) as nat);
        assert(same_slide(a[first + count - 1], b[first + count - 1]));
    }
}

/// Two page dictionaries for the same sheet have the same content.
proof fn lemma_same_page(
    o1: PdfObj,
    o2: PdfObj,
    n: nat,
    layout: nat,
    sheet: nat,
    count: nat,
    width: nat,
    height: nat,
)
    requires
        page_dict_ok(o1, n, layout, sheet, count, width, height),
        page_dict_ok(o2, n, layout, sheet, count, width, height),
    ensures
        obj_value(o1) == obj_value(o2),
{
    reveal(page_dict_ok);
    let d1 = o1->Dictionary_0;
    let d2 = o2->Dictionary_0;
    let res1 = value_at(d1, 1)->Dictionary_0;
    let res2 = value_at(d2, 1)->Dictionary_0;
    let xo1 = value_at(res1, 0)->Dictionary_0;
    let xo2 = value_at(res2, 0)->Dictionary_0;
    assert forall|l: int| 0 <= l < xo1.entries@.len() implies #[trigger] same_entry(xo1, xo2, l) by {
        assert(key_at(xo1, l) == "Img".spec_bytes() + decimal_bytes(image_object_id(n, layout, sheet, l as nat)));
        assert(key_at(xo2, l) == "Img".spec_bytes() + decimal_bytes(image_object_id(n, layout, sheet, l as nat)));
    }
    lemma_same_dict(xo1, xo2);
    assert(same_entry(res1, res2, 0));
    assert forall|i: int| 0 <= i < res1.entries@.len() implies #[trigger] same_entry(res1, res2, i) by {}
    lemma_same_dict(res1, res2);
    let a1 = value_at(d1, 3)->Array_0;
    let a2 = value_at(d2, 3)->Array_0;
    assert forall|i: int| 0 <= i < 4 implies obj_value(a1@[i]) == obj_value(a2@[i]) by {
        assert(i == 0 || i == 1 || i == 2 || i == 3);
    }
    assert(obj_value(value_at(d1, 3)) == obj_value(value_at(d2, 3))) by {
        let v1 = obj_value(value_at(d1, 3))->Array_0;
        let v2 = obj_value(value_at(d2, 3))->Array_0;
        assert forall|i: int| 0 <= i < 4 implies v1[i] == v2[i] by {
            assert(v1[i] == obj_value(a1@[i]));
            assert(v2[i] == obj_value(a2@[i]));
        }
        assert(v1 =~= v2);
    }
    assert(same_entry(d1, d2, 0));
    assert(same_entry(d1, d2, 1));
    assert(same_entry(d1, d2, 2));
    assert(same_entry(d1, d2, 3));
    assert forall|i: int| 0 <= i < d1.entries@.len() implies #[trigger] same_entry(d1, d2, i) by {
        assert(i == 0 || i == 1 || i == 2 || i == 3);
    }
    lemma_same_dict(d1, d2);
}

/// Two content streams with the same text have the same content.
proof fn lemma_same_content_stream(o1: PdfObj, o2: PdfObj, text: Seq<u8>)
    requires
        content_stream_ok(o1, text),
        content_stream_ok(o2, text),
    ensures
        obj_value(o1) == obj_value(o2),
{
    reveal(content_stream_ok);
    lemma_same_dict(o1->Stream_0.dict, o2->Stream_0.dict);
}

/// Two page trees with catalogs for the same sheets have the same content.
proof fn lemma_same_tree(q1: Seq<(u32, PdfObj)>, q2: Seq<(u32, PdfObj)>, n: nat, layout: nat, sheets: nat)
    requires
        tree_part_ok(q1, n, layout, sheets),
        tree_part_ok(q2, n, layout, sheets),
    ensures
        part_value(q1) == part_value(q2),
{
    let d1 = q1[0].1->Dictionary_0;
    let d2 = q2[0].1->Dictionary_0;
    let k1 = value_at(d1, 1)->Array_0;
    let k2 = value_at(d2, 1)->Array_0;
    assert(obj_value(value_at(d1, 1)) == obj_value(value_at(d2, 1))) by {
        let v1 = obj_value(value_at(d1, 1))->Array_0;
        let v2 = obj_value(value_at(d2, 1))->Array_0;
        assert forall|i: int| 0 <= i < v1.len() implies v1[i] == v2[i] by {
            assert(v1[i] == obj_value(k1@[i]));
            assert(v2[i] == obj_value(k2@[i]));
            assert(ref_obj(k1@[i], page_object_id(n, layout, i as nat)));
            assert(ref_obj(k2@[i], page_object_id(n, layout, i as nat)));
        }
        assert(v1 =~= v2);
    }
    assert(same_entry(d1, d2, 0));
    assert(same_entry(d1, d2, 1));
    assert(same_entry(d1, d2, 2));
    assert forall|i: int| 0 <= i < d1.entries@.len() implies #[trigger] same_entry(d1, d2, i) by {
        assert(i == 0 || i == 1 || i == 2);
    }
    lemma_same_dict(d1, d2);
    let c1 = q1[1].1->Dictionary_0;
    let c2 = q2[1].1->Dictionary_0;
    assert(same_entry(c1, c2, 0));
    assert(same_entry(c1, c2, 1));
    assert forall|i: int| 0 <= i < c1.entries@.len() implies #[trigger] same_entry(c1, c2, i) by {
        assert(i == 0 || i == 1);
    }
    lemma_same_dict(c1, c2);
    assert forall|i: int| 0 <= i < 2 implies part_value(q1)[i] == part_value(q2)[i] by {
        assert(i == 0 || i == 1);
    }
    assert(part_value(q1) =~= part_value(q2));
}

/// Documents an export writes for slides that agree slide for slide have
/// the same content, and so are written to the same bytes.
pub proof fn lemma_same_document(
    d1: PdfDocModel,
    d2: PdfDocModel,
    s1: Seq<RenderedSlide>,
    s2: Seq<RenderedSlide>,
    layout: nat,
    o: Orientation,
)
    requires
        layout > 0,
        document_ok(d1, s1, layout, o),
        document_ok(d2, s2, layout, o),
        same_slides(s1, s2),
    ensures
        d1.version@ == d2.version@,
        parts_value(d1.parts@) == parts_value(d2.parts@),
        dict_value(d1.trailer) == dict_value(d2.trailer),
        pdf_bytes(d1) == pdf_bytes(d2),
{
    let n = s1.len();
    let sheets = sheet_count(n, layout);
    let width = page_size_of(o).0 as nat;
    let height = page_size_of(o).1 as nat;
    let all1 = parts_value(d1.parts@);
    let all2 = parts_value(d2.parts@);
    assert forall|p: int| 0 <= p < all1.len() implies all1[p] == all2[p] by {
        let q1 = d1.parts@[p]@;
        let q2 = d2.parts@[p]@;
        if p < sheets {
            lemma_sheet_start(n, layout, p as nat);
            let first = (p * layout) as nat;
            let count = slides_on_sheet(n, layout, p as nat);
            assert(sheet_part_ok(q1, s1, layout, p as nat, first, count, width, height));
            assert(sheet_part_ok(q2, s2, layout, p as nat, first, count, width, height));
            assert forall|l: int| 0 <= l < q1.len() implies part_value(q1)[l] == part_value(q2)[l] by {
                if l < count {
                    assert(same_slide(s1[first + l], s2[first + l]));
                    lemma_same_image(q1[l].1, q2[l].1, s1[first + l], s2[first + l]);
                } else if l == count {
                    lemma_same_content(s1, s2, layout, p as nat, first, count);
                    lemma_same_content_stream(
                        q1[l].1,
                        q2[l].1,
                        sheet_content(s1, layout, p as nat, first, count),
                    );
                } else {
                    lemma_same_page(q1[l].1, q2[l].1, n, layout, p as nat, count, width, height);
                }
            }
            assert(part_value(q1) =~= part_value(q2));
        } else {
            lemma_same_tree(q1, q2, n, layout, sheets);
        }
    }
    assert(all1 =~= all2);
    assert(same_entry(d1.trailer, d2.trailer, 0));
    assert forall|i: int| 0 <= i < d1.trailer.entries@.len() implies #[trigger] same_entry(d1.trailer, d2.trailer, i) by {}
    lemma_same_dict(d1.trailer, d2.trailer);
}

/// The operators that draw one slide: save the graphics state, map the unit
/// square to the slide's drawn width and height at its position
/// (`w 0 0 h x y cm`), paint image object `image_id`, restore the state.
pub open spec fn drawing_block(s: RenderedSlide, image_id: nat) -> Seq<u8> {
    "q \n".spec_bytes() + s.draw_width@ + " 0 0 ".spec_bytes() + s.draw_height@ + " ".spec_bytes()
        + s.x@ + " ".spec_bytes() + s.y@ + " \n".spec_bytes() + "cm \n".spec_bytes()
        + "/Img".spec_bytes() + decimal_bytes(image_id) + " Do \n".spec_bytes() + "Q \n".spec_bytes()
}

/// The drawing blocks of sheet `sheet` one after another: block `l` draws
/// slide `sheet * layout + l` with the image object of position `l`.
pub open spec fn sheet_drawing(slides: Seq<RenderedSlide>, layout: nat, sheet: nat) -> Seq<u8> {
    let n = slides.len();
    Seq::new(
        slides_on_sheet(n, layout, sheet),
        |l: int| drawing_block(slides[sheet * layout + l], image_object_id(n, layout, sheet, l as nat)),
    ).flatten()
}

proof fn lemma_content_blocks(slides: Seq<RenderedSlide>, layout: nat, sheet: nat, first: nat, count: nat)
    requires
        first + count <= slides.len(),
    ensures
        sheet_content(slides, layout, sheet, first, count) == Seq::new(
            count,
            |l: int| drawing_block(slides[first + l], image_object_id(slides.len(), layout, sheet, l as nat)),
        ).flatten_alt(),
    decreases count,
{
    let blocks = Seq::new(
        count,
        |l: int| drawing_block(slides[first + l], image_object_id(slides.len(), layout, sheet, l as nat)),
    );
    if count > 0 {
        lemma_content_blocks(slides, layout, sheet, first, (count - 1) as nat);
        let shorter = Seq::new(
            (count - 1) as nat,
            |l: int| drawing_block(slides[first + l], image_object_id(slides.len(), layout, sheet, l as nat)),
        );
        assert(blocks.drop_last() =~= shorter);
    } else {
        assert(blocks =~= Seq::<Seq<u8>>::empty());
    }
}

/// Each sheet's content stream draws the sheet's own slides in order: its
/// text is the drawing blocks of the sheet, block `l` giving slide
/// `sheet * layout + l` its own drawn size and position and showing the
/// image object at position `l`.
pub proof fn lemma_sheet_draws_its_slides(
    doc: PdfDocModel,
    slides: Seq<RenderedSlide>,
    layout: nat,
    o: Orientation,
    sheet: nat,
)
    requires
        layout > 0,
        document_ok(doc, slides, layout, o),
        sheet < sheet_count(slides.len(), layout),
    ensures
        ({
            let n = slides.len();
            let c = slides_on_sheet(n, layout, sheet);
            let obj = doc.parts@[sheet as int]@[c as int];
            &&& obj.0 == content_object_id(n, layout, sheet)
            &&& obj_value(obj.1) matches PdfValue::Stream(_, text, _, _) && text == sheet_drawing(
                slides,
                layout,
                sheet,
            )
        }),
{
    let n = slides.len();
    let c = slides_on_sheet(n, layout, sheet);
    let first = sheet * layout;
    lemma_sheet_start(n, layout, sheet);
    assert(sheet_part_ok(
        doc.parts@[sheet as int]@,
        slides,
        layout,
        sheet,
        first,
        c,
        page_size_of(o).0 as nat,
        page_size_of(o).1 as nat,
    ));
    reveal(content_stream_ok);
    lemma_content_blocks(slides, layout, sheet, first, c);
    let blocks = Seq::new(
        c,
        |l: int| drawing_block(slides[first + l], image_object_id(n, layout, sheet, l as nat)),
    );
    blocks.lemma_flatten_and_flatten_alt_are_equivalent();
    let expected = Seq::new(
        c,
        |l: int| drawing_block(slides[sheet * layout + l], image_object_id(n, layout, sheet, l as nat)),
    );
    assert(blocks =~= expected);
}

/// The image object at position `l` of a sheet shows slide
/// `sheet * layout + l`: an image XObject whose width and height are that
/// slide's image's, in that order, with 8-bit RGB samples and the
/// zlib-compressed pixel bytes of that image.
pub proof fn lemma_sheet_images(
    doc: PdfDocModel,
    slides: Seq<RenderedSlide>,
    layout: nat,
    o: Orientation,
    sheet: nat,
    l: nat,
)
    requires
        layout > 0,
        document_ok(doc, slides, layout, o),
        sheet < sheet_count(slides.len(), layout),
        l < slides_on_sheet(slides.len(), layout, sheet),
    ensures
        ({
            let n = slides.len();
            let s = slides[(sheet * layout + l) as int];
            let obj = doc.parts@[sheet as int]@[l as int];
            &&& obj.0 == image_object_id(n, layout, sheet, l)
            &&& obj_value(obj.1) == PdfValue::Stream(
                seq![
                    ("Type".spec_bytes(), PdfValue::Name("XObject".spec_bytes())),
                    ("Subtype".spec_bytes(), PdfValue::Name("Image".spec_bytes())),
                    ("Width".spec_bytes(), PdfValue::Integer(s.image.width as i64)),
                    ("Height".spec_bytes(), PdfValue::Integer(s.image.height as i64)),
                    ("ColorSpace".spec_bytes(), PdfValue::Name("DeviceRGB".spec_bytes())),
                    ("BitsPerComponent".spec_bytes(), PdfValue::Integer(8)),
                    ("Filter".spec_bytes(), PdfValue::Name("FlateDecode".spec_bytes())),
                ],
                zlib_compressed(s.image.data@, 6),
                false,
                Some(0usize),
            )
        }),
{
    let n = slides.len();
    let first = sheet * layout;
    let c = slides_on_sheet(n, layout, sheet);
    let s = slides[(sheet * layout + l) as int];
    lemma_sheet_start(n, layout, sheet);
    assert(sheet_part_ok(
        doc.parts@[sheet as int]@,
        slides,
        layout,
        sheet,
        first,
        c,
        page_size_of(o).0 as nat,
        page_size_of(o).1 as nat,
    ));
    let obj = doc.parts@[sheet as int]@[l as int];
    assert(image_stream_ok(obj.1, s));
    reveal(image_stream_ok);
    let d = obj.1->Stream_0.dict;
    let lit = seq![
        ("Type".spec_bytes(), PdfValue::Name("XObject".spec_bytes())),
        ("Subtype".spec_bytes(), PdfValue::Name("Image".spec_bytes())),
        ("Width".spec_bytes(), PdfValue::Integer(s.image.width as i64)),
        ("Height".spec_bytes(), PdfValue::Integer(s.image.height as i64)),
        ("ColorSpace".spec_bytes(), PdfValue::Name("DeviceRGB".spec_bytes())),
        ("BitsPerComponent".spec_bytes(), PdfValue::Integer(8)),
        ("Filter".spec_bytes(), PdfValue::Name("FlateDecode".spec_bytes())),
    ];
    let dv = dict_value(d);
    assert(dv[0] == lit[0]);
    assert(dv[1] == lit[1]);
    assert(dv[2] == lit[2]);
    assert(dv[3] == lit[3]);
    assert(dv[4] == lit[4]);
    assert(dv[5] == lit[5]);
    assert(dv[6] == lit[6]);
    assert forall|i: int| 0 <= i < 7 implies dv[i] == lit[i] by {
        assert(i == 0 || i == 1 || i == 2 || i == 3 || i == 4 || i == 5 || i == 6);
    }
    assert(dv =~= lit);
}

/// Every sheet is an A4 page of the chosen orientation: its page
/// dictionary's `MediaBox` is `[0 0 595 842]` upright and `[0 0 842 595]` on
/// its side.
pub proof fn lemma_sheet_media_box(
    doc: PdfDocModel,
    slides: Seq<RenderedSlide>,
    layout: nat,
    o: Orientation,
    sheet: nat,
)
    requires
        layout > 0,
        document_ok(doc, slides, layout, o),
        sheet < sheet_count(slides.len(), layout),
    ensures
        ({
            let n = slides.len();
            let c = slides_on_sheet(n, layout, sheet);
            let obj = doc.parts@[sheet as int]@[c as int + 1];
            let (w, h) = match o {
                Orientation::Portrait => (595u16, 842u16),
                Orientation::Landscape => (842u16, 595u16),
            };
            let v = obj_value(obj.1);
            &&& obj.0 == page_object_id(n, layout, sheet)
            &&& v is Dictionary
            &&& v->Dictionary_0.len() == 4
            &&& v->Dictionary_0[3] == (
                "MediaBox".spec_bytes(),
                PdfValue::Array(
                    seq![PdfValue::Real(0u16), PdfValue::Real(0u16), PdfValue::Real(w), PdfValue::Real(h)],
                ),
            )
        }),
{
    let n = slides.len();
    let first = sheet * layout;
    let c = slides_on_sheet(n, layout, sheet);
    lemma_sheet_start(n, layout, sheet);
    assert(sheet_part_ok(
        doc.parts@[sheet as int]@,
        slides,
        layout,
        sheet,
        first,
        c,
        page_size_of(o).0 as nat,
        page_size_of(o).1 as nat,
    ));
    let obj = doc.parts@[sheet as int]@[c as int + 1];
    lemma_media_box_value(obj.1, n, layout, sheet, c, page_size_of(o).0 as nat, page_size_of(o).1 as nat);
}

/// The content of a page dictionary's `MediaBox` entry.
proof fn lemma_media_box_value(
    o: PdfObj,
    n: nat,
    layout: nat,
    sheet: nat,
    count: nat,
    width: nat,
    height: nat,
)
    requires
        page_dict_ok(o, n, layout, sheet, count, width, height),
    ensures
        ({
            let v = obj_value(o);
            &&& v is Dictionary
            &&& v->Dictionary_0.len() == 4
            &&& v->Dictionary_0[3] == (
                "MediaBox".spec_bytes(),
                PdfValue::Array(
                    seq![
                        PdfValue::Real(0u16),
                        PdfValue::Real(0u16),
                        PdfValue::Real(width as u16),
                        PdfValue::Real(height as u16),
                    ],
                ),
            )
        }),
{
    reveal(page_dict_ok);
    let d = o->Dictionary_0;
    let a = value_at(d, 3)->Array_0;
    let av = obj_value(value_at(d, 3))->Array_0;
    assert(av[0] == obj_value(a@[0]));
    assert(av[1] == obj_value(a@[1]));
    assert(av[2] == obj_value(a@[2]));
    assert(av[3] == obj_value(a@[3]));
    let lit = seq![
        PdfValue::Real(0u16),
        PdfValue::Real(0u16),
        PdfValue::Real(width as u16),
        PdfValue::Real(height as u16),
    ];
    assert forall|i: int| 0 <= i < 4 implies av[i] == lit[i] by {
        assert(i == 0 || i == 1 || i == 2 || i == 3);
    }
    assert(av =~= lit);
    assert(dict_value(d)[3] == (key_at(d, 3), obj_value(value_at(d, 3))));
}

/// After the sheets come the page tree and the catalog: object 2 is the
/// `Pages` dictionary listing the sheets' page dictionaries in sheet order
/// with their count, object 1 is the `Catalog` pointing at it, and the
/// trailer's `Root` is the catalog; the document is PDF 1.7.
pub proof fn lemma_document_tree(doc: PdfDocModel, slides: Seq<RenderedSlide>, layout: nat, o: Orientation)
    requires
        layout > 0,
        document_ok(doc, slides, layout, o),
    ensures
        ({
            let n = slides.len();
            let sheets = sheet_count(n, layout);
            let tree = doc.parts@[sheets as int]@;
            &&& doc.version@ == "1.7"@
            &&& doc.parts@.len() == sheets + 1
            &&& tree.len() == 2
            &&& tree[0].0 == 2
            &&& obj_value(tree[0].1) == PdfValue::Dictionary(
                seq![
                    ("Type".spec_bytes(), PdfValue::Name("Pages".spec_bytes())),
                    (
                        "Kids".spec_bytes(),
                        PdfValue::Array(
                            Seq::new(
                                sheets,
                                |p: int| PdfValue::Reference(page_object_id(n, layout, p as nat) as u32),
                            ),
                        ),
                    ),
                    ("Count".spec_bytes(), PdfValue::Integer(sheets as i64)),
                ],
            )
            &&& tree[1].0 == 1
            &&& obj_value(tree[1].1) == PdfValue::Dictionary(
                seq![
                    ("Type".spec_bytes(), PdfValue::Name("Catalog".spec_bytes())),
                    ("Pages".spec_bytes(), PdfValue::Reference(2)),
                ],
            )
            &&& dict_value(doc.trailer) == seq![("Root".spec_bytes(), PdfValue::Reference(1u32))]
        }),
{
    let n = slides.len();
    let sheets = sheet_count(n, layout);
    let tree = doc.parts@[sheets as int]@;
    let d = tree[0].1->Dictionary_0;
    let kids = value_at(d, 1)->Array_0;
    let kv = obj_value(value_at(d, 1))->Array_0;
    let want = Seq::new(sheets, |p: int| PdfValue::Reference(page_object_id(n, layout, p as nat) as u32));
    assert forall|p: int| 0 <= p < sheets implies kv[p] == want[p] by {
        assert(kv[p] == obj_value(kids@[p]));
        assert(ref_obj(kids@[p], page_object_id(n, layout, p as nat)));
    }
    assert(kv =~= want);
    let lit = seq![
        ("Type".spec_bytes(), PdfValue::Name("Pages".spec_bytes())),
        ("Kids".spec_bytes(), PdfValue::Array(want)),
        ("Count".spec_bytes(), PdfValue::Integer(sheets as i64)),
    ];
    let dv = dict_value(d);
    assert(dv[0] == lit[0]);
    assert(dv[1] == lit[1]);
    assert(dv[2] == lit[2]);
    assert forall|i: int| 0 <= i < 3 implies dv[i] == lit[i] by {
        assert(i == 0 || i == 1 || i == 2);
    }
    assert(dv =~= lit);
    let c = tree[1].1->Dictionary_0;
    let clit = seq![
        ("Type".spec_bytes(), PdfValue::Name("Catalog".spec_bytes())),
        ("Pages".spec_bytes(), PdfValue::Reference(2)),
    ];
    let cv = dict_value(c);
    assert(cv[0] == clit[0]);
    assert(cv[1] == clit[1]);
    assert forall|i: int| 0 <= i < 2 implies cv[i] == clit[i] by {
        assert(i == 0 || i == 1);
    }
    assert(cv =~= clit);
    let tv = dict_value(doc.trailer);
    let tlit = seq![("Root".spec_bytes(), PdfValue::Reference(1u32))];
    assert(tv[0] == tlit[0]);
    assert(tv =~= tlit);
}

/// Every object number of an export document is below `u32::MAX`, and so
/// is the largest of them.
pub proof fn lemma_numbers_below_max(doc: PdfDocModel, slides: Seq<RenderedSlide>, layout: nat, o: Orientation)
    requires
        layout > 0,
        ids_fit(slides.len(), layout),
        document_ok(doc, slides, layout, o),
    ensures
        forall|p: int, i: int| object_slot(doc, p, i) ==> object_number(doc, p, i) < u32::MAX,
        largest_object_number(parts_value(doc.parts@)) < u32::MAX,
{
    let n = slides.len();
    let sheets = sheet_count(n, layout);
    assert forall|p: int, i: int| object_slot(doc, p, i) implies object_number(doc, p, i) < u32::MAX by {
        lemma_object_role(doc, slides, layout, o, p, i);
        if p < sheets {
            lemma_sheet_start(n, layout, p as nat);
            lemma_block_fits(n, layout, p as nat);
            if classic_numbering(n, layout) {
                assert(p * 100 + i + 1000 < 20000) by (nonlinear_arith)
                    requires
                        0 <= p < 99,
                        0 <= i < 200,
                ;
                assert((p + 1) * 10 + 1 < 20000) by (nonlinear_arith)
                    requires
                        0 <= p < 99,
                ;
            }
        }
    }
    let parts = parts_value(doc.parts@);
    assert forall|p: int, i: int| 0 <= p < parts.len() && 0 <= i < parts[p].len() implies (
    #[trigger] parts[p][i]).0 < u32::MAX as nat by {
        assert(object_slot(doc, p, i));
        assert(parts[p][i].0 == object_number(doc, p, i));
    }
    lemma_largest_below(parts, u32::MAX as nat);
}

/// No two objects of an export document share a number: the catalog and
/// the page tree have 1 and 2, and the objects of the sheets have numbers of
/// their own, in the classic numbering as in the block one.
pub proof fn lemma_object_numbers_distinct(
    doc: PdfDocModel,
    slides: Seq<RenderedSlide>,
    layout: nat,
    o: Orientation,
    p1: int,
    i1: int,
    p2: int,
    i2: int,
)
    requires
        layout > 0,
        document_ok(doc, slides, layout, o),
        object_slot(doc, p1, i1),
        object_slot(doc, p2, i2),
        p1 != p2 || i1 != i2,
    ensures
        object_number(doc, p1, i1) != object_number(doc, p2, i2),
{
    let n = slides.len();
    let sheets = sheet_count(n, layout);
    lemma_object_role(doc, slides, layout, o, p1, i1);
    lemma_object_role(doc, slides, layout, o, p2, i2);
    let id1 = object_number(doc, p1, i1) as int;
    let id2 = object_number(doc, p2, i2) as int;
    if p1 < sheets && p2 < sheets {
        let c1 = slides_on_sheet(n, layout, p1 as nat);
        let c2 = slides_on_sheet(n, layout, p2 as nat);
        if classic_numbering(n, layout) {
            assert((p1 + 1) * 10 + 1 <= 991 && (p2 + 1) * 10 + 1 <= 991) by (nonlinear_arith)
                requires
                    p1 < 99,
                    p2 < 99,
            ;
            if i1 < c1 && i2 < c2 {
                if id1 == id2 {
                    lemma_image_ids_apart(p1 as nat, i1 as nat, p2 as nat, i2 as nat);
                }
            } else if i1 >= c1 && i2 >= c2 {
                lemma_tens_apart((p1 + 1) as nat, (p2 + 1) as nat);
                lemma_tens_apart((p2 + 1) as nat, (p1 + 1) as nat);
            }
        } else {
            if p1 < p2 {
                lemma_blocks_apart(layout, p1 as nat, p2 as nat);
            } else if p2 < p1 {
                lemma_blocks_apart(layout, p2 as nat, p1 as nat);
            }
        }
    }
}

} // verus!
