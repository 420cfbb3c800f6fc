//! The stored record, the candidate payload, and the client-facing
//! transport item with its compressed image preview.

use vstd::prelude::*;
use base64::Engine;

verus! {

/// A stored clipboard record, as the history keeps it.
pub struct ClipboardItemRow {
    pub id: i64,
    pub format: String,
    pub category: String,
    pub text: Option<String>,
    pub html: Option<String>,
    pub file_path: Option<String>,
    pub color: Option<String>,
    pub image: Option<Vec<u8>>,
    pub image_width: Option<i64>,
    pub image_height: Option<i64>,
    pub created_at: i64,
}

/// A record about to be stored: the same payload without an id, which the
/// store assigns.
pub struct NewClipboardItem {
    pub format: String,
    pub category: String,
    pub text: Option<String>,
    pub html: Option<String>,
    pub file_path: Option<String>,
    pub color: Option<String>,
    pub image: Option<Vec<u8>>,
    pub image_width: Option<i64>,
    pub image_height: Option<i64>,
    pub created_at: i64,
}

/// The client-facing projection of a record: raw pixels are replaced by a
/// base64 PNG preview.
pub struct ClipboardItem {
    pub id: i64,
    pub format: String,
    pub category: String,
    pub text: Option<String>,
    pub html: Option<String>,
    pub file_path: Option<String>,
    pub color: Option<String>,
    pub image_base64: Option<String>,
    pub image_width: Option<i64>,
    pub image_height: Option<i64>,
    pub created_at: i64,
}

pub open spec fn opt_str_view(o: Option<String>) -> Option<Seq<char>> {
    match o {
        Some(s) => Some(s@),
        None => None,
    }
}

pub open spec fn opt_bytes_view(o: Option<Vec<u8>>) -> Option<Seq<u8>> {
    match o {
        Some(b) => Some(b@),
        None => None,
    }
}

pub open spec fn opt_int_view(o: Option<i64>) -> Option<int> {
    match o {
        Some(n) => Some(n as int),
        None => None,
    }
}

/// The mathematical model of a stored record.
pub ghost struct RecordModel {
    pub id: int,
    pub format: Seq<char>,
    pub category: Seq<char>,
    pub text: Option<Seq<char>>,
    pub html: Option<Seq<char>>,
    pub file_path: Option<Seq<char>>,
    pub color: Option<Seq<char>>,
    pub image: Option<Seq<u8>>,
    pub image_width: Option<int>,
    pub image_height: Option<int>,
    pub created_at: int,
}

/// The mathematical model of a record that has no id yet.
pub ghost struct NewRecordModel {
    pub format: Seq<char>,
    pub category: Seq<char>,
    pub text: Option<Seq<char>>,
    pub html: Option<Seq<char>>,
    pub file_path: Option<Seq<char>>,
    pub color: Option<Seq<char>>,
    pub image: Option<Seq<u8>>,
    pub image_width: Option<int>,
    pub image_height: Option<int>,
    pub created_at: int,
}

/// The mathematical model of a transport item.
pub ghost struct TransportModel {
    pub id: int,
    pub format: Seq<char>,
    pub category: Seq<char>,
    pub text: Option<Seq<char>>,
    pub html: Option<Seq<char>>,
    pub file_path: Option<Seq<char>>,
    pub color: Option<Seq<char>>,
    pub image_base64: Option<Seq<char>>,
    pub image_width: Option<int>,
    pub image_height: Option<int>,
    pub created_at: int,
}

impl View for ClipboardItemRow {
    type V = RecordModel;

    open spec fn view(&self) -> RecordModel {
        RecordModel {
            id: self.id as int,
            format: self.format@,
            category: self.category@,
            text: opt_str_view(self.text),
            html: opt_str_view(self.html),
            file_path: opt_str_view(self.file_path),
            color: opt_str_view(self.color),
            image: opt_bytes_view(self.image),
            image_width: opt_int_view(self.image_width),
            image_height: opt_int_view(self.image_height),
            created_at: self.created_at as int,
        }
    }
}

impl View for NewClipboardItem {
    type V = NewRecordModel;

    open spec fn view(&self) -> NewRecordModel {
        NewRecordModel {
            format: self.format@,
            category: self.category@,
            text: opt_str_view(self.text),
            html: opt_str_view(self.html),
            file_path: opt_str_view(self.file_path),
            color: opt_str_view(self.color),
            image: opt_bytes_view(self.image),
            image_width: opt_int_view(self.image_width),
            image_height: opt_int_view(self.image_height),
            created_at: self.created_at as int,
        }
    }
}

impl View for ClipboardItem {
    type V = TransportModel;

    open spec fn view(&self) -> TransportModel {
        TransportModel {
            id: self.id as int,
            format: self.format@,
            category: self.category@,
            text: opt_str_view(self.text),
            html: opt_str_view(self.html),
            file_path: opt_str_view(self.file_path),
            color: opt_str_view(self.color),
            image_base64: opt_str_view(self.image_base64),
            image_width: opt_int_view(self.image_width),
            image_height: opt_int_view(self.image_height),
            created_at: self.created_at as int,
        }
    }
}

/// The record that storing `n` under the id `id` yields.
pub open spec fn record_of(n: NewRecordModel, id: int) -> RecordModel {
    RecordModel {
        id: id,
        format: n.format,
        category: n.category,
        text: n.text,
        html: n.html,
        file_path: n.file_path,
        color: n.color,
        image: n.image,
        image_width: n.image_width,
        image_height: n.image_height,
        created_at: n.created_at,
    }
}

/// Relies on `String::push`: appends one character at the end.
#[verifier::external_body]
pub(crate) fn push_char(s: &mut String, c: char)
    ensures
        final(s)@ == old(s)@.push(c),
{
    s.push(c);
}

pub(crate) fn copy_bytes(v: &Vec<u8>) -> (r: Vec<u8>)
    ensures
        r@ == v@,
{
    let r = v.clone();
    proof {
        assert(r@ =~= v@);
    }
    r
}

fn clone_opt_string(o: &Option<String>) -> (r: Option<String>)
    ensures
        opt_str_view(r) == opt_str_view(*o),
{
    match o {
        Some(s) => Some(s.clone()),
        None => None,
    }
}

fn clone_opt_bytes(o: &Option<Vec<u8>>) -> (r: Option<Vec<u8>>)
    ensures
        opt_bytes_view(r) == opt_bytes_view(*o),
{
    match o {
        Some(b) => Some(copy_bytes(b)),
        None => None,
    }
}

impl ClipboardItemRow {
    /// A copy of this record, equal to it in every field.
    pub fn duplicate(&self) -> (r: ClipboardItemRow)
        ensures
            r@ == self@,
    {
        ClipboardItemRow {
            id: self.id,
            format: self.format.clone(),
            category: self.category.clone(),
            text: clone_opt_string(&self.text),
            html: clone_opt_string(&self.html),
            file_path: clone_opt_string(&self.file_path),
            color: clone_opt_string(&self.color),
            image: clone_opt_bytes(&self.image),
            image_width: self.image_width,
            image_height: self.image_height,
            created_at: self.created_at,
        }
    }
}

/// What PNG-encoding an RGBA pixel buffer of the given dimensions yields.
pub uninterp spec fn png_of(pixels: Seq<u8>, width: u32, height: u32) -> Seq<u8>;

/// What base64-encoding a byte sequence with the standard alphabet yields.
pub uninterp spec fn b64_of(bytes: Seq<u8>) -> Seq<char>;

/// An optional raw image is a well-formed RGBA buffer when all three image
/// fields are present, the dimensions fit in `u32`, and the byte length is
/// exactly `width * height * 4`.
pub open spec fn rgba_valid(
    image: Option<Seq<u8>>,
    width: Option<int>,
    height: Option<int>,
) -> bool {
    &&& image is Some
    &&& width is Some
    &&& height is Some
    &&& 0 <= width->0 <= u32::MAX
    &&& 0 <= height->0 <= u32::MAX
    &&& image->0.len() == width->0 * height->0 * 4
}

/// Relies on `image::RgbaImage::from_raw` and
/// `image::DynamicImage::write_to`: encodes an exact-length RGBA buffer
/// as PNG, a function of the pixels and dimensions alone. Given the
/// exact length, the encoder refuses exactly the zero-sized images
/// (zero width or height fail the PNG writer's header validation;
/// otherwise RGBA8 is a valid color mode, the buffer length matches,
/// and writing to an in-memory cursor cannot fail).
#[verifier::external_body]
fn rgba_to_png(bytes: &Vec<u8>, width: u32, height: u32) -> (r: Option<Vec<u8>>)
    requires
        bytes@.len() == width * height * 4,
    ensures
        (r is Some) <==> (width > 0 && height > 0),
        r is Some ==> r->0@ == png_of(bytes@, width, height),
{
    let rgba = match image::RgbaImage::from_raw(width, height, bytes.clone()) {
        Some(rgba) => rgba,
        None => return None,
    };
    let dynamic = image::DynamicImage::ImageRgba8(rgba);
    let mut buffer: Vec<u8> = Vec::new();
    if dynamic.write_to(&mut std::io::Cursor::new(&mut buffer), image::ImageFormat::Png).is_err() {
        return None;
    }
    Some(buffer)
}

/// Relies on `base64::Engine::encode` with the `STANDARD` engine: the
/// encoding is a function of the input bytes alone.
#[verifier::external_body]
fn b64_encode(bytes: &Vec<u8>) -> (r: String)
    ensures
        r@ == b64_of(bytes@),
{
    base64::engine::general_purpose::STANDARD.encode(bytes)
}

/// A record gets an image preview exactly when it holds a well-formed
/// RGBA buffer of positive dimensions.
pub open spec fn preview_present(
    image: Option<Seq<u8>>,
    width: Option<int>,
    height: Option<int>,
) -> bool {
    rgba_valid(image, width, height) && width->0 > 0 && height->0 > 0
}

/// Re-encode a raw RGBA buffer as a base64 PNG preview. The preview
/// exists exactly for a well-formed RGBA buffer of the declared, positive
/// dimensions; anything else yields `None`, never an error.
fn encode_png(image: &Option<Vec<u8>>, width: Option<i64>, height: Option<i64>) -> (r: Option<
    String,
>)
    ensures
        r is Some <==> preview_present(
            opt_bytes_view(*image),
            opt_int_view(width),
            opt_int_view(height),
        ),
        r is Some ==> r->0@ == b64_of(
            png_of((*image)->0@, width->0 as u32, height->0 as u32),
        ),
{
    let bytes = match image {
        Some(bytes) => bytes,
        None => {
            return None;
        },
    };
    let w_raw: i64 = match width {
        Some(w) => w,
        None => {
            return None;
        },
    };
    let h_raw: i64 = match height {
        Some(h) => h,
        None => {
            return None;
        },
    };
    if w_raw < 0 || w_raw > u32::MAX as i64 || h_raw < 0 || h_raw > u32::MAX as i64 {
        return None;
    }
    let w: u32 = w_raw as u32;
    let h: u32 = h_raw as u32;
    let len: u64 = bytes.len() as u64;
    proof {
        assert((w as u64) * (h as u64) <= u64::MAX) by (nonlinear_arith)
            requires
                w <= u32::MAX,
                h <= u32::MAX,
        ;
    }
    let pixels: u64 = (w as u64) * (h as u64);
    if len % 4 != 0 || len / 4 != pixels {
        return None;
    }
    let png = match rgba_to_png(bytes, w, h) {
        Some(png) => png,
        None => {
            return None;
        },
    };
    Some(b64_encode(&png))
}

/// The transport item `t` is the faithful projection of record `m`:
/// every text-like field passes through unchanged; an image preview is
/// present exactly for a well-formed RGBA image of positive dimensions,
/// and then holds its base64 PNG encoding.
pub open spec fn transport_matches(t: TransportModel, m: RecordModel) -> bool {
    &&& t.id == m.id
    &&& t.format == m.format
    &&& t.category == m.category
    &&& t.text == m.text
    &&& t.html == m.html
    &&& t.file_path == m.file_path
    &&& t.color == m.color
    &&& t.image_width == m.image_width
    &&& t.image_height == m.image_height
    &&& t.created_at == m.created_at
    &&& (t.image_base64 is Some <==> preview_present(m.image, m.image_width, m.image_height))
    &&& (t.image_base64 is Some ==> t.image_base64->0 == b64_of(
        png_of(m.image->0, m.image_width->0 as u32, m.image_height->0 as u32),
    ))
}

impl ClipboardItem {
    /// Project a stored record into its transport form: text-like fields
    /// pass through unchanged; a well-formed RGBA image of positive
    /// dimensions is re-encoded as a base64 PNG preview, and anything
    /// else is silently left without a preview.
    pub fn from_row(row: ClipboardItemRow) -> (item: ClipboardItem)
        ensures
            transport_matches(item@, row@),
    {
        let image_base64 = encode_png(&row.image, row.image_width, row.image_height);
        ClipboardItem {
            id: row.id,
            format: row.format,
            category: row.category,
            text: row.text,
            html: row.html,
            file_path: row.file_path,
            color: row.color,
            image_base64,
            image_width: row.image_width,
            image_height: row.image_height,
            created_at: row.created_at,
        }
    }
}

} // verus!
