//! Encoder for the terminal graphics protocol: an RGBA image becomes a run
//! of escape sequences, each carrying at most [`CHUNK_SIZE`] bytes of pixel
//! data in base64.
//!
//! The first sequence carries the metadata: pixel format, action, pixel size
//! of the data, the cell columns and rows to draw in, and the continuation
//! flag.  Every further one carries the flag alone.  The flag is 1 on all
//! sequences but the last.
use vstd::prelude::*;
use vstd::slice::slice_subrange;
use vstd::string::StringExecFns;

use crate::pixel_buffer::{nearest_resized, resize_fits, PixelBuffer, PixelLayout};
use crate::strings::{decimal, push_char, push_decimal, push_repeated};
use crate::ui::Area;

verus! {

/// The most bytes of pixel data that one escape sequence carries.
pub const CHUNK_SIZE: usize = 4096;

/// The largest pixel dimension sent when none is configured.
pub const DEFAULT_MAX_DIMENSION: u32 = 1024;

/// The standard base64 encoding, with padding, of a byte string.
pub uninterp spec fn base64_standard(bytes: Seq<u8>) -> Seq<char>;

/// Encodes bytes as base64.
///
/// Wraps `Engine::encode` of `base64::engine::general_purpose::STANDARD`:
/// the standard alphabet with padding.  The call panics where the length of
/// the output overflows, which the bound on the input rules out.
#[verifier::external_body]
fn base64_encode(bytes: &[u8]) -> (r: String)
    requires
        bytes@.len() <= CHUNK_SIZE,
    ensures
        r@ == base64_standard(bytes@),
{
    base64::Engine::encode(&base64::engine::general_purpose::STANDARD, bytes)
}

/// The part of the pixel data that one escape sequence carries, and whether
/// another sequence follows it.
#[derive(Debug, Clone, Copy, PartialEq, Eq, Structural)]
pub struct ChunkSpan {
    pub start: usize,
    pub end: usize,
    pub more: bool,
}

/// The number of chunks that `len` bytes are sent in: `len / 4096`, rounded
/// up.
pub open spec fn chunk_count(len: nat) -> nat {
    (len + CHUNK_SIZE - 1) as nat / (CHUNK_SIZE as nat)
}

/// The `i`-th chunk of `len` bytes.
pub open spec fn chunk_span(len: nat, i: int) -> ChunkSpan {
    ChunkSpan {
        start: (i * CHUNK_SIZE) as usize,
        end: if (i + 1) * CHUNK_SIZE <= len {
            ((i + 1) * CHUNK_SIZE) as usize
        } else {
            len as usize
        },
        more: i + 1 < chunk_count(len),
    }
}

/// The chunks that `len` bytes are sent in, in order.
pub open spec fn chunk_spans(len: nat) -> Seq<ChunkSpan> {
    Seq::new(chunk_count(len), |i: int| chunk_span(len, i))
}

/// Chunking covers the data exactly, in order, in pieces of one to 4096
/// bytes; there are `len / 4096` of them, rounded up; and every chunk but
/// the last says that more follows.
pub proof fn lemma_chunk_spans(len: nat)
    requires
        len <= usize::MAX,
    ensures
        chunk_spans(len).len() == chunk_count(len),
        chunk_count(len) * CHUNK_SIZE >= len,
        len > 0 ==> (chunk_count(len) - 1) * CHUNK_SIZE < len,
        len == 0 ==> chunk_count(len) == 0,
        forall|i: int|
            0 <= i < chunk_count(len) ==> {
                let span = #[trigger] chunk_spans(len)[i];
                &&& span.start == i * CHUNK_SIZE
                &&& span.start < span.end <= len
                &&& span.end - span.start <= CHUNK_SIZE
                &&& (i + 1 < chunk_count(len) ==> span.end == chunk_spans(len)[i + 1].start)
                &&& (i + 1 == chunk_count(len) ==> span.end == len)
                &&& span.more == (i + 1 != chunk_count(len))
            },
{
    assert forall|i: int| 0 <= i < chunk_count(len) implies {
        let span = #[trigger] chunk_spans(len)[i];
        &&& span.start == i * CHUNK_SIZE
        &&& span.start < span.end <= len
        &&& span.end - span.start <= CHUNK_SIZE
        &&& (i + 1 < chunk_count(len) ==> span.end == chunk_spans(len)[i + 1].start)
        &&& (i + 1 == chunk_count(len) ==> span.end == len)
        &&& span.more == (i + 1 != chunk_count(len))
    } by {
        assert(chunk_spans(len)[i] == chunk_span(len, i));
        if i + 1 < chunk_count(len) {
            assert(chunk_spans(len)[i + 1] == chunk_span(len, i + 1));
        }
    }
}

/// Divides `len` bytes into chunks.
pub fn plan_chunks(len: usize) -> (r: Vec<ChunkSpan>)
    ensures
        r@ == chunk_spans(len as nat),
{
    let mut spans: Vec<ChunkSpan> = Vec::new();
    let mut start: usize = 0;
    while start < len
        invariant
            start <= len,
            start == spans@.len() * CHUNK_SIZE || start == len,
            start == len ==> spans@.len() == chunk_count(len as nat),
            spans@.len() <= chunk_count(len as nat),
            forall|i: int| 0 <= i < spans@.len() ==> spans@[i] == chunk_span(len as nat, i),
        decreases len - start,
    {
        let end: usize = if len - start > CHUNK_SIZE {
            start + CHUNK_SIZE
        } else {
            len
        };
        spans.push(ChunkSpan { start, end, more: end < len });
        start = end;
    }
    assert(spans@ =~= chunk_spans(len as nat));
    spans
}

/// The digit that stands for the continuation flag.
pub open spec fn flag_char(more: bool) -> char {
    if more {
        '1'
    } else {
        '0'
    }
}

/// The text before the payload of the first escape sequence.
pub open spec fn first_header(
    width: u32,
    height: u32,
    columns: u16,
    rows: u16,
    more: bool,
) -> Seq<char> {
    "\x1b_Gf=32,a=T,t=d,s="@ + decimal(width as nat) + ",v="@ + decimal(height as nat) + ",c="@
        + decimal(columns as nat) + ",r="@ + decimal(rows as nat) + ",m="@ + seq![
        flag_char(more),
        ';',
    ]
}

/// The text before the payload of every escape sequence but the first.
pub open spec fn next_header(more: bool) -> Seq<char> {
    "\x1b_Gm="@ + seq![flag_char(more), ';']
}

/// The `i`-th escape sequence of an image.
pub open spec fn chunk_text(
    rgba: Seq<u8>,
    width: u32,
    height: u32,
    columns: u16,
    rows: u16,
    i: int,
) -> Seq<char> {
    let span = chunk_span(rgba.len(), i);
    let header = if i == 0 {
        first_header(width, height, columns, rows, span.more)
    } else {
        next_header(span.more)
    };
    header + base64_standard(rgba.subrange(span.start as int, span.end as int)) + "\x1b\\"@
}

/// The first `count` escape sequences of an image, one after the other.
pub open spec fn chunk_texts(
    rgba: Seq<u8>,
    width: u32,
    height: u32,
    columns: u16,
    rows: u16,
    count: nat,
) -> Seq<char>
    decreases count,
{
    if count == 0 {
        Seq::empty()
    } else {
        chunk_texts(rgba, width, height, columns, rows, (count - 1) as nat) + chunk_text(
            rgba,
            width,
            height,
            columns,
            rows,
            count - 1,
        )
    }
}

/// The escape sequences that transmit and display RGBA pixel data of
/// `width` by `height` pixels in `columns` by `rows` cells.
pub open spec fn encoded_image(
    rgba: Seq<u8>,
    width: u32,
    height: u32,
    columns: u16,
    rows: u16,
) -> Seq<char> {
    chunk_texts(rgba, width, height, columns, rows, chunk_count(rgba.len()))
}

/// Encodes RGBA pixel data of `width` by `height` pixels for display in
/// `columns` by `rows` cells.
pub fn encode_rgba(rgba: &Vec<u8>, width: u32, height: u32, columns: u16, rows: u16) -> (r: String)
    ensures
        r@ == encoded_image(rgba@, width, height, columns, rows),
{
    let spans = plan_chunks(rgba.len());
    let mut out = String::new();
    let mut i: usize = 0;
    proof {
        lemma_chunk_spans(rgba@.len());
    }
    while i < spans.len()
        invariant
            i <= spans@.len(),
            spans@ == chunk_spans(rgba@.len()),
            spans@.len() == chunk_count(rgba@.len()),
            rgba@.len() <= usize::MAX,
            out@ == chunk_texts(rgba@, width, height, columns, rows, i as nat),
        decreases spans@.len() - i,
    {
        let span = spans[i];
        proof {
            lemma_chunk_spans(rgba@.len());
            assert(span == chunk_spans(rgba@.len())[i as int]);
            assert(span == chunk_span(rgba@.len(), i as int));
        }
        let ghost before = out@;
        if i == 0 {
            out.append("\x1b_Gf=32,a=T,t=d,s=");
            push_decimal(&mut out, width as u64);
            out.append(",v=");
            push_decimal(&mut out, height as u64);
            out.append(",c=");
            push_decimal(&mut out, columns as u64);
            out.append(",r=");
            push_decimal(&mut out, rows as u64);
            out.append(",m=");
        } else {
            out.append("\x1b_Gm=");
        }
        push_char(&mut out, if span.more {
            '1'
        } else {
            '0'
        });
        push_char(&mut out, ';');
        let payload = base64_encode(slice_subrange(rgba.as_slice(), span.start, span.end));
        out.append(payload.as_str());
        out.append("\x1b\\");
        assert(out@ =~= before + chunk_text(rgba@, width, height, columns, rows, i as int));
        i += 1;
    }
    out
}

/// The command that deletes every image the terminal shows.
pub open spec fn delete_all_command() -> Seq<char> {
    "\x1b_Ga=d,d=a\x1b\\"@
}

/// The cells that an image of `image_width` by `image_height` pixels takes
/// in an area of `area_width` by `area_height` cells, a cell being twice as
/// tall as it is wide: the largest size of the image's proportions that the
/// area holds, rounded down, but at least one cell each way; nothing in an
/// empty area.
pub open spec fn fitted_cells(
    image_width: u32,
    image_height: u32,
    area_width: u16,
    area_height: u16,
) -> (u16, u16) {
    if area_width == 0 || area_height == 0 {
        (0, 0)
    } else if image_width * 2 * area_height > area_width * image_height {
        // Wider than the area: the width decides.
        let rows = (area_width * image_height) / (2 * image_width);
        (
            area_width,
            if rows < 1 {
                1
            } else if rows > area_height {
                area_height
            } else {
                rows as u16
            },
        )
    } else if image_height == 0 {
        (area_width, area_height)
    } else {
        let columns = (2 * area_height * image_width) / (image_height as int);
        (
            if columns < 1 {
                1
            } else if columns > area_width {
                area_width
            } else {
                columns as u16
            },
            area_height,
        )
    }
}

/// Computes the cells that an image takes in an area.
pub fn fit_cells(image_width: u32, image_height: u32, area_width: u16, area_height: u16) -> (r: (
    u16,
    u16,
))
    ensures
        r == fitted_cells(image_width, image_height, area_width, area_height),
        r.0 <= area_width,
        r.1 <= area_height,
        area_width > 0 && area_height > 0 ==> r.0 >= 1 && r.1 >= 1,
{
    if area_width == 0 || area_height == 0 {
        return (0, 0);
    }
    proof {
        assert((image_width as int) * 2 * (area_height as int) <= 0xffff_ffff * 2 * 0xffff)
            by (nonlinear_arith)
            requires
                0 <= image_width <= 0xffff_ffff,
                0 <= area_height <= 0xffff,
        ;
        assert((area_width as int) * (image_height as int) <= 0xffff * 0xffff_ffff)
            by (nonlinear_arith)
            requires
                0 <= image_height <= 0xffff_ffff,
                0 <= area_width <= 0xffff,
        ;
    }
    let across: u64 = (image_width as u64) * 2 * (area_height as u64);
    let down: u64 = (area_width as u64) * (image_height as u64);
    if across > down {
        assert(image_width > 0) by {
            if image_width == 0 {
                assert((image_width as int) * 2 * (area_height as int) == 0) by (nonlinear_arith)
                    requires
                        image_width == 0,
                ;
            }
        }
        let rows: u64 = down / (2 * (image_width as u64));
        (
            area_width,
            if rows < 1 {
                1
            } else if rows > area_height as u64 {
                area_height
            } else {
                rows as u16
            },
        )
    } else if image_height == 0 {
        (area_width, area_height)
    } else {
        let columns: u64 = across / (image_height as u64);
        assert(2 * area_height * image_width == image_width * 2 * area_height) by (nonlinear_arith);
        (
            if columns < 1 {
                1
            } else if columns > area_width as u64 {
                area_width
            } else {
                columns as u16
            },
            area_height,
        )
    }
}

/// The pixel size that an image of `width` by `height` pixels is sent at
/// when no side may exceed `max_dimension`: its own size where it fits,
/// else scaled down by `max_dimension` over its longer side, rounded down.
pub open spec fn sent_size(width: u32, height: u32, max_dimension: u32) -> (u32, u32) {
    if width > max_dimension || height > max_dimension {
        let longer = if width >= height {
            width
        } else {
            height
        };
        (
            ((width * max_dimension) / (longer as int)) as u32,
            ((height * max_dimension) / (longer as int)) as u32,
        )
    } else {
        (width, height)
    }
}

/// An image that a machine can hold four times over (sixteen bytes for each
/// pixel fit in one allocation) can be scaled down to the size it is sent
/// at.
pub proof fn lemma_downscale_fits(width: u32, height: u32, max_dimension: u32)
    requires
        (width as nat) * (height as nat) * 16 <= isize::MAX,
    ensures
        resize_fits(
            width,
            sent_size(width, height, max_dimension).0,
            sent_size(width, height, max_dimension).1,
        ),
{
    let sent = sent_size(width, height, max_dimension);
    if width > max_dimension || height > max_dimension {
        let longer = if width >= height {
            width
        } else {
            height
        };
        assert(((width as int) * (max_dimension as int)) / (longer as int) <= width)
            by (nonlinear_arith)
            requires
                0 <= width,
                0 <= max_dimension < longer,
        ;
        assert(((height as int) * (max_dimension as int)) / (longer as int) <= height)
            by (nonlinear_arith)
            requires
                0 <= height,
                0 <= max_dimension < longer,
        ;
        assert(0 <= ((width as int) * (max_dimension as int)) / (longer as int))
            by (nonlinear_arith)
            requires
                0 <= width,
                0 <= max_dimension,
                0 < longer,
        ;
        assert(0 <= ((height as int) * (max_dimension as int)) / (longer as int))
            by (nonlinear_arith)
            requires
                0 <= height,
                0 <= max_dimension,
                0 < longer,
        ;
    }
    assert((width as nat) * (sent.1 as nat) <= (width as nat) * (height as nat)) by (nonlinear_arith)
        requires
            sent.1 <= height,
    ;
    assert((sent.0 as nat) * (sent.1 as nat) <= (width as nat) * (height as nat)) by (nonlinear_arith)
        requires
            sent.0 <= width,
            sent.1 <= height,
    ;
}

/// Computes the pixel size that an image is sent at.
pub fn downscaled_size(width: u32, height: u32, max_dimension: u32) -> (r: (u32, u32))
    ensures
        r == sent_size(width, height, max_dimension),
        r.0 <= width,
        r.1 <= height,
        width > max_dimension || height > max_dimension ==> r.0 <= max_dimension && r.1
            <= max_dimension,
{
    if width > max_dimension || height > max_dimension {
        let longer: u32 = if width >= height {
            width
        } else {
            height
        };
        proof {
            assert((width as int) * (max_dimension as int) <= (width as int) * (longer as int)
                <= 0xffff_ffff * 0xffff_ffff) by (nonlinear_arith)
                requires
                    0 <= width <= longer <= 0xffff_ffff,
                    0 <= max_dimension < longer,
            ;
            assert((height as int) * (max_dimension as int) <= (height as int) * (longer as int)
                <= 0xffff_ffff * 0xffff_ffff) by (nonlinear_arith)
                requires
                    0 <= height <= longer <= 0xffff_ffff,
                    0 <= max_dimension < longer,
            ;
            assert(((width as int) * (max_dimension as int)) / (longer as int) <= max_dimension)
                by (nonlinear_arith)
                requires
                    0 <= width <= longer,
                    0 <= max_dimension,
                    longer > 0,
            ;
            assert(((height as int) * (max_dimension as int)) / (longer as int) <= max_dimension)
                by (nonlinear_arith)
                requires
                    0 <= height <= longer,
                    0 <= max_dimension,
                    longer > 0,
            ;
            assert(((width as int) * (longer as int)) / (longer as int) == width)
                by (nonlinear_arith)
                requires
                    longer > 0,
            ;
            assert(((height as int) * (longer as int)) / (longer as int) == height)
                by (nonlinear_arith)
                requires
                    longer > 0,
            ;
            assert(((width as int) * (max_dimension as int)) / (longer as int) <= ((width as int)
                * (longer as int)) / (longer as int)) by (nonlinear_arith)
                requires
                    longer > 0,
                    (width as int) * (max_dimension as int) <= (width as int) * (longer as int),
            ;
            assert(((height as int) * (max_dimension as int)) / (longer as int) <= ((
            height as int) * (longer as int)) / (longer as int)) by (nonlinear_arith)
                requires
                    longer > 0,
                    (height as int) * (max_dimension as int) <= (height as int) * (longer as int),
            ;
        }
        let w: u64 = (width as u64) * (max_dimension as u64) / (longer as u64);
        let h: u64 = (height as u64) * (max_dimension as u64) / (longer as u64);
        (w as u32, h as u32)
    } else {
        (width, height)
    }
}


/// The text that blanks one row of an area: the cursor is put on the row's
/// first cell (terminal coordinates start at 1) and the row is filled with
/// spaces.
pub open spec fn clear_row(area: Area, row: int) -> Seq<char> {
    "\x1b["@ + decimal((area.y + row + 1) as nat) + seq![';'] + decimal((area.x + 1) as nat) + seq![
        'H',
    ] + Seq::new(area.width as nat, |i: int| ' ')
}

/// The text that blanks the first `rows` rows of an area.
pub open spec fn clear_rows(area: Area, rows: nat) -> Seq<char>
    decreases rows,
{
    if rows == 0 {
        Seq::empty()
    } else {
        clear_rows(area, (rows - 1) as nat) + clear_row(area, rows - 1)
    }
}

/// Builds the text that blanks an area of the screen.
pub fn clear_sequence(area: Area) -> (r: String)
    ensures
        r@ == clear_rows(area, area.height as nat),
{
    let mut out = String::new();
    let mut row: u16 = 0;
    while row < area.height
        invariant
            row <= area.height,
            out@ == clear_rows(area, row as nat),
        decreases area.height - row,
    {
        let ghost before = out@;
        out.append("\x1b[");
        push_decimal(&mut out, area.y as u64 + row as u64 + 1);
        push_char(&mut out, ';');
        push_decimal(&mut out, area.x as u64 + 1);
        push_char(&mut out, 'H');
        push_repeated(&mut out, ' ', area.width as usize);
        assert(out@ =~= before + clear_row(area, row as int));
        row += 1;
    }
    out
}

/// What drawing an image takes: the text that blanks the area, to be
/// written to the terminal first; the text that the area's top-left cell is
/// to hold; and how many columns and rows from that cell on the image
/// covers.
#[derive(Debug)]
pub struct RenderPlan {
    pub clear: String,
    pub symbol: String,
    pub covered_columns: u16,
    pub covered_rows: u16,
}

impl Clone for RenderPlan {
    fn clone(&self) -> (r: Self)
        ensures
            r == *self,
    {
        RenderPlan {
            clear: self.clear.clone(),
            symbol: self.symbol.clone(),
            covered_columns: self.covered_columns,
            covered_rows: self.covered_rows,
        }
    }
}

impl RenderPlan {
    /// Whether the cell `column` columns right of and `row` rows below the
    /// area's top-left cell must be left alone by whatever else draws
    /// there: every cell that the image covers, but for the top-left one.
    pub open spec fn spec_skips(&self, column: u16, row: u16) -> bool {
        column < self.covered_columns && row < self.covered_rows && (column > 0 || row > 0)
    }

    #[verifier::when_used_as_spec(spec_skips)]
    pub fn skips(&self, column: u16, row: u16) -> (r: bool)
        ensures
            r == self.spec_skips(column, row),
    {
        column < self.covered_columns && row < self.covered_rows && (column > 0 || row > 0)
    }
}

/// An image on its way to the terminal.
///
/// A new instance has nothing encoded and asks to be (re)transmitted.
/// [`resize_encode`](ViuerKittyProtocol::resize_encode) encodes it for an
/// area and clears that request; it is due again when the area's size
/// changes.
#[derive(Debug)]
pub struct ViuerKittyProtocol {
    /// The decoded image.
    pub image: PixelBuffer,
    /// The escape sequences of the last encoding; empty before the first.
    pub escape_sequence: String,
    /// The cells that the image takes, as of the last encoding.
    pub rect: Area,
    /// The size of the area of the last encoding.
    pub encoded_for: (u16, u16),
    /// Whether the image must be encoded anew whatever the area.
    pub needs_retransmit: bool,
    /// Identifies the image; kept for protocol-level image identity.
    pub unique_id: u8,
    /// No side of the data sent exceeds this many pixels.
    pub max_dimension: u32,
}

impl ViuerKittyProtocol {
    /// Whether `self` is a new instance over the given values: nothing
    /// encoded yet, and transmission due.
    pub open spec fn is_created(self, image: PixelBuffer, unique_id: u8, max_dimension: u32) -> bool {
        &&& self.image == image
        &&& self.escape_sequence@ == Seq::<char>::empty()
        &&& self.rect == (Area { x: 0, y: 0, width: 0, height: 0 })
        &&& self.encoded_for == (0u16, 0u16)
        &&& self.needs_retransmit
        &&& self.unique_id == unique_id
        &&& self.max_dimension == max_dimension
    }

    pub fn new(image: PixelBuffer, unique_id: u8) -> (r: Self)
        ensures
            r.is_created(image, unique_id, DEFAULT_MAX_DIMENSION),
    {
        Self::new_with_config(image, unique_id, DEFAULT_MAX_DIMENSION)
    }

    pub fn new_with_config(image: PixelBuffer, unique_id: u8, max_dimension: u32) -> (r: Self)
        ensures
            r.is_created(image, unique_id, max_dimension),
    {
        ViuerKittyProtocol {
            image,
            escape_sequence: String::new(),
            rect: Area { x: 0, y: 0, width: 0, height: 0 },
            encoded_for: (0, 0),
            needs_retransmit: true,
            unique_id,
            max_dimension,
        }
    }

    /// The cells that the image takes in `area`.
    pub fn calculate_dimensions(&self, area: Area) -> (r: (u16, u16))
        ensures
            r == fitted_cells(
                self.image.spec_width(),
                self.image.spec_height(),
                area.width,
                area.height,
            ),
            r.0 <= area.width,
            r.1 <= area.height,
    {
        fit_cells(self.image.width(), self.image.height(), area.width, area.height)
    }

    /// Whether the pixel data is scaled down before it is sent.
    pub open spec fn downscales(self) -> bool {
        let size = sent_size(self.image.spec_width(), self.image.spec_height(), self.max_dimension);
        &&& (self.image.spec_width() > self.max_dimension || self.image.spec_height()
            > self.max_dimension)
        &&& self.image.can_resize_to(size.0, size.1)
    }

    /// The pixel size of the data sent.
    pub open spec fn sent_dimensions(self) -> (u32, u32) {
        if self.downscales() {
            sent_size(self.image.spec_width(), self.image.spec_height(), self.max_dimension)
        } else {
            (self.image.spec_width(), self.image.spec_height())
        }
    }

    /// The RGBA pixel data sent: the image's own where no side exceeds
    /// `max_dimension`, else the image scaled down with the
    /// nearest-neighbour filter.  Where the scaling would need an
    /// allocation larger than a machine can make, the image's own data is
    /// sent; [`lemma_downscale_fits`] says when that cannot happen.
    pub open spec fn sent_pixels(self) -> Seq<u8> {
        if self.downscales() {
            nearest_scaled(self.image, self.sent_dimensions())
        } else {
            self.image.rgba()
        }
    }

    /// The escape sequences that show the image in `area`.
    pub open spec fn encoding_for(self, area: Area) -> Seq<char> {
        let cells = fitted_cells(
            self.image.spec_width(),
            self.image.spec_height(),
            area.width,
            area.height,
        );
        encoded_image(
            self.sent_pixels(),
            self.sent_dimensions().0,
            self.sent_dimensions().1,
            cells.0,
            cells.1,
        )
    }

    /// Whether `self` is `before` after it was encoded for `area`.
    pub open spec fn encodes(self, before: Self, area: Area) -> bool {
        let cells = fitted_cells(
            before.image.spec_width(),
            before.image.spec_height(),
            area.width,
            area.height,
        );
        &&& self.escape_sequence@ == before.encoding_for(area)
        &&& self.rect == (Area { x: 0, y: 0, width: cells.0, height: cells.1 })
        &&& self.encoded_for == (area.width, area.height)
        &&& !self.needs_retransmit
        &&& self.image == before.image
        &&& self.unique_id == before.unique_id
        &&& self.max_dimension == before.max_dimension
    }

    /// Whether the image must be encoded before it is drawn in `area`.
    pub open spec fn is_stale_for(self, area: Area) -> bool {
        self.needs_retransmit || self.encoded_for != (area.width, area.height)
    }

    /// Whether `self` is `before` made ready for drawing in `area`:
    /// encoded for it where that was due, else as it was.
    pub open spec fn readied(self, before: Self, area: Area) -> bool {
        if before.is_stale_for(area) && !area.is_empty() {
            self.encodes(before, area)
        } else {
            self == before
        }
    }

    /// Whether `plan` is what drawing the image in `area` takes.
    pub open spec fn draws(self, plan: RenderPlan, area: Area) -> bool {
        &&& plan.clear@ == clear_rows(area, area.height as nat)
        &&& plan.symbol@ == delete_all_command() + self.escape_sequence@
        &&& plan.covered_columns == if area.is_empty() {
            0
        } else if area.width <= self.rect.width {
            area.width
        } else {
            self.rect.width
        }
        &&& plan.covered_rows == if area.is_empty() {
            0
        } else if area.height <= self.rect.height {
            area.height
        } else {
            self.rect.height
        }
    }

    /// Encodes `img` for display in `width` by `height` cells.
    pub fn encode_image(img: &PixelBuffer, width: u16, height: u16) -> (r: String)
        ensures
            r@ == encoded_image(img.rgba(), img.spec_width(), img.spec_height(), width, height),
    {
        match img.layout() {
            PixelLayout::Rgba8 => encode_rgba(
                img.as_raw(),
                img.width(),
                img.height(),
                width,
                height,
            ),
            PixelLayout::Rgb8 => {
                let rgba = img.to_rgba8();
                encode_rgba(rgba.as_raw(), img.width(), img.height(), width, height)
            },
        }
    }

    /// Says whether the image must be encoded before it is drawn in `area`:
    /// the area itself when it must, nothing when the last encoding still
    /// serves.
    pub fn needs_resize(&self, area: Area) -> (r: Option<Area>)
        ensures
            r == if self.is_stale_for(area) {
                Some(area)
            } else {
                None
            },
    {
        if self.needs_retransmit || self.encoded_for.0 != area.width || self.encoded_for.1
            != area.height {
            Some(area)
        } else {
            None
        }
    }

    /// Encodes the image for `area`.  Nothing happens for an empty area.
    pub fn resize_encode(&mut self, area: Area)
        ensures
            area.is_empty() ==> *final(self) == *old(self),
            !area.is_empty() ==> final(self).encodes(*old(self), area),
    {
        if area.is_empty() {
            return ;
        }
        let (width, height) = self.calculate_dimensions(area);
        let needs_downscale = self.image.width() > self.max_dimension || self.image.height()
            > self.max_dimension;
        let mut encoded: Option<String> = None;
        if needs_downscale {
            let (new_width, new_height) = downscaled_size(
                self.image.width(),
                self.image.height(),
                self.max_dimension,
            );
            match self.image.resized(new_width, new_height) {
                Some(smaller) => {
                    encoded = Some(Self::encode_image(&smaller, width, height));
                },
                None => {},
            }
        }
        self.escape_sequence = match encoded {
            Some(text) => text,
            None => Self::encode_image(&self.image, width, height),
        };
        self.rect = Area { x: 0, y: 0, width, height };
        self.encoded_for = (area.width, area.height);
        self.needs_retransmit = false;
    }

    /// Makes the image ready for drawing in `area`: encodes it where
    /// [`needs_resize`](Self::needs_resize) says so, unless the area is
    /// empty.
    pub fn prepare(&mut self, area: Area)
        ensures
            final(self).readied(*old(self), area),
    {
        if self.needs_resize(area).is_some() {
            self.resize_encode(area);
        }
    }

    /// What drawing the image in `area` takes, or nothing before the first
    /// encoding.  The text for the top-left cell first deletes every image
    /// on the screen, so that none of an earlier drawing stays.
    pub fn render(&self, area: Area) -> (r: Option<RenderPlan>)
        ensures
            r is None <==> self.escape_sequence@.len() == 0,
            r matches Some(plan) ==> self.draws(plan, area),
    {
        if self.escape_sequence.as_str().is_empty() {
            return None;
        }
        let clear = clear_sequence(area);
        let mut symbol = "\x1b_Ga=d,d=a\x1b\\".to_owned();
        symbol.append(self.escape_sequence.as_str());
        let (covered_columns, covered_rows) = if area.is_empty() {
            (0, 0)
        } else {
            (
                if area.width <= self.rect.width {
                    area.width
                } else {
                    self.rect.width
                },
                if area.height <= self.rect.height {
                    area.height
                } else {
                    self.rect.height
                },
            )
        };
        Some(RenderPlan { clear, symbol, covered_columns, covered_rows })
    }
}

/// The pixel data of `image` scaled to `size` with the nearest-neighbour
/// filter.
pub open spec fn nearest_scaled(image: PixelBuffer, size: (u32, u32)) -> Seq<u8> {
    nearest_resized(image.rgba(), image.spec_width(), image.spec_height(), size.0, size.1)
}

} // verus!
