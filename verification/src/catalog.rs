//! Turning the files the user picked into the list of documents and pages the
//! interface shows, with a preview and a full-size image for every page as
//! the page renderer draws them.

use std::collections::HashMap;
use std::sync::Arc;
use vstd::prelude::*;
use vstd::std_specs::hash::group_hash_axioms;
use crate::imaging::{encode_png_rgb, encode_png_rgba, png_of_rgb, png_of_rgba, RgbPixels, RgbaPixels};
use crate::pdf_types::{PdfDocument, PdfPage};
use crate::text::{
    ascii_chars, ascii_string, append_bytes, concat_strings, decimal_bytes, decimal_i64,
    decimal_u64, lemma_decimal_ascii, lemma_signed_decimal_ascii, signed_decimal_bytes, str_bytes,
    all_ascii,
};
use vstd::string::StringSliceAdditionalSpecFns;

verus! {

broadcast use group_hash_axioms;

/// What the interface learned about a picked file before it is catalogued.
#[derive(Clone, Debug)]
pub struct SourceFile {
    /// The path, as text.
    pub path: String,
    /// The file name, if the path has one that is valid text.
    pub file_name: Option<String>,
    /// The file size, if it could be queried.
    pub size: Option<u64>,
    /// Why reading the file failed, if it did.
    pub read_error: Option<String>,
    /// The number of pages, if the file could be opened as a PDF.
    pub page_count: Option<usize>,
}

/// The documents, pages and full-size images of a set of picked files.
#[derive(Clone, Debug)]
pub struct Catalog {
    pub documents: Vec<PdfDocument>,
    pub pages: Vec<PdfPage>,
    /// Full-size image of each page, by page index.
    pub images: HashMap<usize, Arc<Vec<u8>>>,
}

/// The pictures of one rendered page: a small preview and the full-size
/// image used on export.
#[derive(Clone, Debug)]
pub struct PageImages {
    pub preview: RgbaPixels,
    pub full: RgbPixels,
}

/// Both pictures hold exactly one pixel per cell.
pub open spec fn page_images_wf(i: PageImages) -> bool {
    i.preview.wf() && i.full.wf()
}

/// Both pictures have a positive width and height.
pub open spec fn has_pixels(i: PageImages) -> bool {
    &&& i.preview.width > 0
    &&& i.preview.height > 0
    &&& i.full.width > 0
    &&& i.full.height > 0
}

/// Whatever `render` gives is well formed.
pub open spec fn renders_wf<F: Fn(usize, usize) -> PageImages>(render: F) -> bool {
    forall|f: usize, n: usize, i: PageImages| #[trigger] call_ensures(render, (f, n), i) ==> page_images_wf(i)
}

/// Whatever `render` gives has pixels.
pub open spec fn renders_pixels<F: Fn(usize, usize) -> PageImages>(render: F) -> bool {
    forall|f: usize, n: usize, i: PageImages| #[trigger] call_ensures(render, (f, n), i) ==> has_pixels(i)
}

/// Name shown for a file: its file name, or `unknown.pdf`.
pub open spec fn display_name(f: SourceFile) -> Seq<char> {
    match f.file_name {
        Some(n) => n@,
        None => "unknown.pdf"@,
    }
}

/// Number of pages listed for a file: its page count, or 1 when it could not
/// be opened as a PDF.
pub open spec fn listed_pages(f: SourceFile) -> nat {
    match f.page_count {
        Some(c) => c as nat,
        None => 1,
    }
}

/// Number of pages listed for the first `k` files.
pub open spec fn pages_before(files: Seq<SourceFile>, k: int) -> nat
    decreases k,
{
    if k <= 0 {
        0
    } else {
        pages_before(files, k - 1) + listed_pages(files[k - 1])
    }
}

/// Identifier of a page: `page-<timestamp>-<page_index>-<page_number>`.
pub open spec fn page_id_text(timestamp: i64, page_index: nat, page_number: nat) -> Seq<char> {
    "page-"@ + ascii_chars(signed_decimal_bytes(timestamp as int)) + "-"@ + ascii_chars(
        decimal_bytes(page_index),
    ) + "-"@ + ascii_chars(decimal_bytes(page_number))
}

/// Message for a file that could not be read.
pub open spec fn read_failure_text(f: SourceFile) -> Seq<char> {
    "Failed to read PDF "@ + f.path@ + ": "@ + f.read_error->0@
}

/// `p` is page number `number` (from 1) of file number `pdf_index` (from 1)
/// named `name`, at position `page_index` among all pages, identified with
/// `timestamp`, whose preview and full-size image are the PNG files of
/// `imgs`.
pub open spec fn page_ok(
    p: PdfPage,
    name: Seq<char>,
    pdf_index: nat,
    number: nat,
    page_index: nat,
    timestamp: i64,
    imgs: PageImages,
) -> bool {
    &&& p.id@ == page_id_text(timestamp, page_index, number)
    &&& p.page_number == number as u32
    &&& p.pdf_index == pdf_index
    &&& p.file_name@ == name
    &&& p.page_number_in_pdf == number as u32
    &&& p.page_index == page_index
    &&& p.thumbnail_data@ == png_of_rgba(imgs.preview.width, imgs.preview.height, imgs.preview.data@)
    &&& p.image_data@ == png_of_rgb(imgs.full.width, imgs.full.height, imgs.full.data@)
    &&& p.width == imgs.full.width
    &&& p.height == imgs.full.height
}

/// `p` is as `page_ok` says for pictures that `render` gives for page
/// `number` of file `file` (the file's position among the picked ones).
pub open spec fn page_rendered<F: Fn(usize, usize) -> PageImages>(
    render: F,
    file: usize,
    number: usize,
    p: PdfPage,
    name: Seq<char>,
    pdf_index: nat,
    page_index: nat,
    timestamp: i64,
) -> bool {
    exists|imgs: PageImages|
        call_ensures(render, (file, number), imgs) && page_ok(
            p,
            name,
            pdf_index,
            number as nat,
            page_index,
            timestamp,
            imgs,
        )
}

/// The identifier of a page.
pub fn page_id(timestamp: i64, page_index: usize, page_number: usize) -> (s: String)
    ensures
        s@ == page_id_text(timestamp, page_index as nat, page_number as nat),
{
    proof {
        lemma_signed_decimal_ascii(timestamp as int);
        lemma_decimal_ascii(page_index as nat);
        lemma_decimal_ascii(page_number as nat);
    }
    let ts = ascii_string(decimal_i64(timestamp));
    let index = ascii_string(decimal_u64(page_index as u64));
    let number = ascii_string(decimal_u64(page_number as u64));
    let s1 = concat_strings("page-", ts.as_str());
    let s2 = concat_strings(s1.as_str(), "-");
    let s3 = concat_strings(s2.as_str(), index.as_str());
    let s4 = concat_strings(s3.as_str(), "-");
    concat_strings(s4.as_str(), number.as_str())
}


/// Page `n` (from 0) of file `f` among `pages`.
pub open spec fn file_page(pages: Seq<PdfPage>, files: Seq<SourceFile>, f: int, n: int) -> PdfPage {
    pages[pages_before(files, f) + n]
}

/// `c` lists the files and their pages: one document per file in order, then
/// every page of every file in order, the files numbered on from
/// `existing_files` and the pages from `existing`, each page drawn by
/// `render`, with its full-size image under its page index.
pub open spec fn catalog_ok<F: Fn(usize, usize) -> PageImages>(
    c: Catalog,
    files: Seq<SourceFile>,
    existing_files: nat,
    existing: nat,
    timestamp: i64,
    render: F,
) -> bool {
    let total = pages_before(files, files.len() as int);
    &&& c.documents@.len() == files.len()
    &&& forall|f: int|
        0 <= f < files.len() ==> {
            let d = #[trigger] c.documents@[f];
            &&& d.name@ == display_name(files[f])
            &&& d.size == match files[f].size {
                Some(s) => s,
                None => 0,
            }
            &&& d.path matches Some(p) && p@ == files[f].path@
        }
    &&& c.pages@.len() == total
    &&& forall|f: int, n: int|
        0 <= f < files.len() && 0 <= n < listed_pages(files[f]) ==> page_rendered(
            render,
            f as usize,
            (n + 1) as usize,
            #[trigger] file_page(c.pages@, files, f, n),
            display_name(files[f]),
            (existing_files + f + 1) as nat,
            (existing + pages_before(files, f) + n) as nat,
            timestamp,
        )
    &&& forall|k: usize| #[trigger]
        c.images@.contains_key(k) <==> existing <= k < existing + total
    &&& forall|k: usize|
        #[trigger] c.images@.contains_key(k) ==> c.images@[k]@ == c.pages@[k - existing].image_data@
}

/// `msg` is the read-failure message of the first file that could not be read.
pub open spec fn first_read_failure(files: Seq<SourceFile>, msg: Seq<char>) -> bool {
    exists|k: int|
        0 <= k < files.len() && files[k].read_error is Some && msg == read_failure_text(files[k])
            && (forall|f: int| 0 <= f < k ==> (#[trigger] files[f]).read_error is None)
}

/// Every file could be read.
pub open spec fn all_readable(files: Seq<SourceFile>) -> bool {
    forall|f: int| 0 <= f < files.len() ==> (#[trigger] files[f]).read_error is None
}

/// The text is the message of a failed PNG encoding of a preview or of a
/// full-size image.
pub open spec fn is_encode_failure(msg: Seq<char>) -> bool {
    (exists|cause: Seq<char>| msg == "Failed to encode thumbnail: "@ + cause) || (exists|
        cause: Seq<char>,
    | msg == "Failed to encode image: "@ + cause)
}

proof fn lemma_pages_before_mono(files: Seq<SourceFile>, a: int, b: int)
    requires
        0 <= a <= b,
    ensures
        pages_before(files, a) <= pages_before(files, b),
    decreases b - a,
{
    if a < b {
        lemma_pages_before_mono(files, a, b - 1);
    }
}

/// Appends the pages of file `fi` to the catalogue being built.
fn append_file_pages<F: Fn(usize, usize) -> PageImages>(
    files: &Vec<SourceFile>,
    fi: usize,
    name: &String,
    existing_file_count: usize,
    existing_page_count: usize,
    timestamp: i64,
    render: &F,
    pages: &mut Vec<PdfPage>,
    images: &mut HashMap<usize, Arc<Vec<u8>>>,
) -> (r: Result<(), String>)
    requires
        fi < files@.len(),
        renders_wf(*render),
        forall|f: usize, n: usize| call_requires(*render, (f, n)),
        name@ == display_name(files@[fi as int]),
        existing_file_count + files@.len() <= usize::MAX,
        old(pages)@.len() == pages_before(files@, fi as int),
        existing_page_count + pages_before(files@, fi as int + 1) <= usize::MAX,
        forall|k: usize| #[trigger]
            old(images)@.contains_key(k) <==> existing_page_count <= k < existing_page_count
                + old(pages)@.len(),
    ensures
        r is Err ==> is_encode_failure(r->Err_0@),
        renders_pixels(*render) ==> r is Ok,
        r is Ok ==> {
            &&& final(pages)@.len() == pages_before(files@, fi as int + 1)
            &&& final(pages)@.subrange(0, old(pages)@.len() as int) == old(pages)@
            &&& forall|n: int|
                0 <= n < listed_pages(files@[fi as int]) ==> page_rendered(
                    *render,
                    fi,
                    (n + 1) as usize,
                    #[trigger] final(pages)@[pages_before(files@, fi as int) + n],
                    name@,
                    (existing_file_count + fi + 1) as nat,
                    (existing_page_count + pages_before(files@, fi as int) + n) as nat,
                    timestamp,
                )
            &&& forall|k: usize| #[trigger]
                final(images)@.contains_key(k) <==> existing_page_count <= k
                    < existing_page_count + final(pages)@.len()
            &&& forall|k: usize|
                #[trigger] final(images)@.contains_key(k) && k < existing_page_count + old(pages)@.len()
                    ==> final(images)@[k] == old(images)@[k]
            &&& forall|k: usize|
                #[trigger] final(images)@.contains_key(k) && k >= existing_page_count + old(pages)@.len()
                    ==> final(images)@[k]@ == final(pages)@[k - existing_page_count].image_data@
        },
{
    let count: usize = match files[fi].page_count {
        Some(c) => c,
        None => 1,
    };
    let file_count = files.len();
    assert(fi < file_count);
    let pdf_index: usize = existing_file_count + fi + 1;
    let ghost start = pages@;
    let ghost start_images = images@;
    let mut done: usize = 0;
    while done < count
        invariant
            done <= count,
            pdf_index == existing_file_count + fi + 1,
            count == listed_pages(files@[fi as int]),
            fi < files@.len(),
            renders_wf(*render),
            forall|f: usize, n: usize| call_requires(*render, (f, n)),
            name@ == display_name(files@[fi as int]),
            start.len() == pages_before(files@, fi as int),
            existing_page_count + pages_before(files@, fi as int) + count <= usize::MAX,
            pages@.len() == start.len() + done,
            pages@.subrange(0, start.len() as int) == start,
            forall|n: int|
                0 <= n < done ==> page_rendered(
                    *render,
                    fi,
                    (n + 1) as usize,
                    #[trigger] pages@[start.len() + n],
                    name@,
                    pdf_index as nat,
                    (existing_page_count + start.len() + n) as nat,
                    timestamp,
                ),
            forall|k: usize| #[trigger]
                start_images.contains_key(k) <==> existing_page_count <= k < existing_page_count
                    + start.len(),
            forall|k: usize| #[trigger]
                images@.contains_key(k) <==> existing_page_count <= k < existing_page_count
                    + pages@.len(),
            forall|k: usize|
                #[trigger] images@.contains_key(k) && k < existing_page_count + start.len()
                    ==> images@[k] == start_images[k],
            forall|k: usize|
                #[trigger] images@.contains_key(k) && k >= existing_page_count + start.len()
                    ==> images@[k]@ == pages@[k - existing_page_count].image_data@,
        decreases count - done,
    {
        let page_num = done + 1;
        let page_index = existing_page_count + pages.len();
        let drawn = render(fi, page_num);
        let thumbnail_data = match encode_png_rgba(&drawn.preview) {
            Ok(bytes) => bytes,
            Err(cause) => {
                let msg = concat_strings("Failed to encode thumbnail: ", cause.as_str());
                return Err(msg);
            },
        };
        let image_data = match encode_png_rgb(&drawn.full) {
            Ok(bytes) => bytes,
            Err(cause) => {
                let msg = concat_strings("Failed to encode image: ", cause.as_str());
                return Err(msg);
            },
        };
        let page = PdfPage {
            id: page_id(timestamp, page_index, page_num),
            page_number: page_num as u32,
            pdf_index,
            file_name: name.clone(),
            page_number_in_pdf: page_num as u32,
            page_index,
            thumbnail_data: Arc::new(thumbnail_data),
            image_data: Arc::new(image_data.clone()),
            width: drawn.full.width,
            height: drawn.full.height,
        };
        proof {
            assert(page_ok(
                page,
                name@,
                pdf_index as nat,
                page_num as nat,
                page_index as nat,
                timestamp,
                drawn,
            ));
            assert(page_rendered(
                *render,
                fi,
                page_num,
                page,
                name@,
                pdf_index as nat,
                page_index as nat,
                timestamp,
            ));
        }
        images.insert(page_index, Arc::new(image_data));
        pages.push(page);
        done += 1;
        proof {
            assert(pages@.subrange(0, start.len() as int) =~= start);
        }
    }
    Ok(())
}

/// Catalogues picked files: for each file in order its document, then a page
/// for each of its pages (one page when it could not be opened as a PDF)
/// with the pictures `render` draws for it (given the file's position among
/// `files` and the page number), the files numbered on from
/// `existing_file_count` and the pages from `existing_page_count`. The first
/// file that could not be read stops the cataloguing with its message; a
/// picture without pixels stops it with the encoder's message.
pub fn process_pdf<F: Fn(usize, usize) -> PageImages>(
    files: &Vec<SourceFile>,
    existing_file_count: usize,
    existing_page_count: usize,
    timestamp: i64,
    render: F,
) -> (r: Result<Catalog, String>)
    requires
        renders_wf(render),
        forall|f: usize, n: usize| call_requires(render, (f, n)),
        existing_file_count + files@.len() <= usize::MAX,
        existing_page_count + pages_before(files@, files@.len() as int) <= usize::MAX,
    ensures
        r is Ok ==> all_readable(files@) && catalog_ok(
            r->Ok_0,
            files@,
            existing_file_count as nat,
            existing_page_count as nat,
            timestamp,
            render,
        ),
        r is Err ==> is_encode_failure(r->Err_0@) || first_read_failure(files@, r->Err_0@),
        r is Err && renders_pixels(render) ==> first_read_failure(files@, r->Err_0@),
        all_readable(files@) && renders_pixels(render) ==> r is Ok,
{
    let mut documents: Vec<PdfDocument> = Vec::new();
    let mut pages: Vec<PdfPage> = Vec::new();
    let mut images: HashMap<usize, Arc<Vec<u8>>> = HashMap::new();
    let mut fi: usize = 0;
    while fi < files.len()
        invariant
            fi <= files@.len(),
            renders_wf(render),
            forall|f: usize, n: usize| call_requires(render, (f, n)),
            existing_file_count + files@.len() <= usize::MAX,
            existing_page_count + pages_before(files@, files@.len() as int) <= usize::MAX,
            forall|f: int| 0 <= f < fi ==> (#[trigger] files@[f]).read_error is None,
            documents@.len() == fi,
            forall|f: int|
                0 <= f < fi ==> {
                    let d = #[trigger] documents@[f];
                    &&& d.name@ == display_name(files@[f])
                    &&& d.size == match files@[f].size {
                        Some(s) => s,
                        None => 0,
                    }
                    &&& d.path matches Some(p) && p@ == files@[f].path@
                },
            pages@.len() == pages_before(files@, fi as int),
            forall|f: int, n: int|
                0 <= f < fi && 0 <= n < listed_pages(files@[f]) ==> page_rendered(
                    render,
                    f as usize,
                    (n + 1) as usize,
                    #[trigger] file_page(pages@, files@, f, n),
                    display_name(files@[f]),
                    (existing_file_count + f + 1) as nat,
                    (existing_page_count + pages_before(files@, f) + n) as nat,
                    timestamp,
                ),
            forall|k: usize| #[trigger]
                images@.contains_key(k) <==> existing_page_count <= k < existing_page_count
                    + pages@.len(),
            forall|k: usize|
                #[trigger] images@.contains_key(k) ==> images@[k]@ == pages@[k
                    - existing_page_count].image_data@,
        decreases files@.len() - fi,
    {
        let file = &files[fi];
        let name: String = match &file.file_name {
            Some(n) => n.clone(),
            None => String::from_str("unknown.pdf"),
        };
        let size: u64 = match file.size {
            Some(s) => s,
            None => 0,
        };
        match &file.read_error {
            Some(cause) => {
                let head = concat_strings("Failed to read PDF ", file.path.as_str());
                let mid = concat_strings(head.as_str(), ": ");
                let msg = concat_strings(mid.as_str(), cause.as_str());
                proof {
                    assert(first_read_failure(files@, msg@));
                }
                return Err(msg);
            },
            None => {},
        }
        documents.push(PdfDocument { name: name.clone(), size, path: Some(file.path.clone()) });
        let ghost before = pages@;
        let ghost before_images = images@;
        proof {
            lemma_pages_before_mono(files@, fi as int + 1, files@.len() as int);
        }
        match append_file_pages(
            files,
            fi,
            &name,
            existing_file_count,
            existing_page_count,
            timestamp,
            &render,
            &mut pages,
            &mut images,
        ) {
            Ok(()) => {},
            Err(msg) => {
                return Err(msg);
            },
        }
        proof {
            assert forall|f: int, n: int|
                0 <= f < fi + 1 && 0 <= n < listed_pages(files@[f]) implies page_rendered(
                render,
                f as usize,
                (n + 1) as usize,
                #[trigger] file_page(pages@, files@, f, n),
                display_name(files@[f]),
                (existing_file_count + f + 1) as nat,
                (existing_page_count + pages_before(files@, f) + n) as nat,
                timestamp,
            ) by {
                if f < fi {
                    lemma_pages_before_mono(files@, f + 1, fi as int);
                    assert(file_page(pages@, files@, f, n) == file_page(before, files@, f, n)) by {
                        assert(pages@[pages_before(files@, f) + n] == pages@.subrange(
                            0,
                            before.len() as int,
                        )[pages_before(files@, f) + n]);
                    }
                }
            }
            assert forall|k: usize| #[trigger] images@.contains_key(k) implies images@[k]@
                == pages@[k - existing_page_count].image_data@ by {
                if k < existing_page_count + before.len() {
                    assert(before_images.contains_key(k));
                    assert(images@[k] == before_images[k]);
                    assert(pages@[k - existing_page_count] == pages@.subrange(
                        0,
                        before.len() as int,
                    )[k - existing_page_count]);
                }
            }
        }
        fi += 1;
    }
    Ok(Catalog { documents, pages, images })
}

/// Total number of pages listed for `files`, if it fits in a `usize`.
pub fn listed_page_total(files: &Vec<SourceFile>) -> (r: Option<usize>)
    ensures
        r matches Some(t) ==> t == pages_before(files@, files@.len() as int),
        r is None ==> pages_before(files@, files@.len() as int) > usize::MAX,
{
    let mut total: usize = 0;
    let mut fi: usize = 0;
    while fi < files.len()
        invariant
            fi <= files@.len(),
            total == pages_before(files@, fi as int),
        decreases files@.len() - fi,
    {
        let count: usize = match files[fi].page_count {
            Some(c) => c,
            None => 1,
        };
        match total.checked_add(count) {
            Some(t) => {
                total = t;
            },
            None => {
                proof {
                    lemma_pages_before_mono(files@, fi as int + 1, files@.len() as int);
                }
                return None;
            },
        }
        fi += 1;
    }
    Some(total)
}

} // verus!
