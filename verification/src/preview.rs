//! Previews of files: what size an image is converted at, where the result
//! is kept, and what is shown for each kind of file.
use vstd::prelude::*;
use vstd::string::StringExecFns;

use ratatui::text::Text;

use crate::cache::{after_invalidate, CacheEntry, GraphicalPreview, PreviewCache, PreviewContent};
use crate::config::{GraphicalConfig, PTuiConfig};
use crate::converter::{
    create_converter, result_view, selected_converter, views, AsciiConverter, Converter,
    ConverterCommand, ProcessOutcome,
};
use crate::file_browser::FileItem;
use crate::graphics::GraphicsCapability;
use crate::pixel_buffer::PixelBuffer;
use crate::strings::{
    chars_of, code_point, decimal, find_char, first_index_of, last_index_of, parse_u32, parsed_u32, push_char,
    push_chars, push_decimal, rfind_char, split_words, word_spans,
};
use crate::text::{ansi_parsed, clone_text, parse_ansi, raw_text, text_from};
use crate::viuer_protocol::ViuerKittyProtocol;

verus! {

/// How many times taller than wide a character cell is taken to be when an
/// image is converted to text.
pub const CHAR_ASPECT_RATIO_HEIGHT: u64 = 3;

/// The pixel size taken for an image whose size cannot be found out.
pub const FALLBACK_DIMENSIONS: (u32, u32) = (800, 600);

/// The size in cells at which an image of `image_width` by `image_height`
/// pixels is converted to text within `max_width` by `max_height` cells.
///
/// With the image's aspect ratio `a`, the width-constrained fit is
/// `(max_width, max_width / a)`; where its height exceeds `max_height`, the
/// height-constrained fit `(max_height * a * 3, max_height)` is taken, its
/// width capped at `max_width`.  Quotients are rounded down.  An image
/// without pixels gets the whole area.
pub open spec fn converter_dimensions(
    image_width: u32,
    image_height: u32,
    max_width: u16,
    max_height: u16,
) -> (u16, u16) {
    if image_width == 0 || image_height == 0 {
        (max_width, max_height)
    } else {
        let width_constrained_height = (max_width * image_height) / (image_width as int);
        if width_constrained_height <= max_height {
            (max_width, width_constrained_height as u16)
        } else {
            let height_constrained_width = (max_height * image_width * CHAR_ASPECT_RATIO_HEIGHT) / (
            image_height as int);
            (
                if height_constrained_width <= max_width {
                    height_constrained_width as u16
                } else {
                    max_width
                },
                max_height,
            )
        }
    }
}

/// The computed size never exceeds the bounds.
pub proof fn lemma_converter_dimensions_fit(
    image_width: u32,
    image_height: u32,
    max_width: u16,
    max_height: u16,
)
    ensures
        converter_dimensions(image_width, image_height, max_width, max_height).0 <= max_width,
        converter_dimensions(image_width, image_height, max_width, max_height).1 <= max_height,
{
}

/// Computes the size in cells at which an image is converted to text.
pub fn calculate_converter_dimensions(
    image_width: u32,
    image_height: u32,
    max_width: u16,
    max_height: u16,
) -> (r: (u16, u16))
    ensures
        r == converter_dimensions(image_width, image_height, max_width, max_height),
        r.0 <= max_width,
        r.1 <= max_height,
{
    if image_width == 0 || image_height == 0 {
        return (max_width, max_height);
    }
    proof {
        assert((max_width as int) * (image_height as int) <= 0xffff * 0xffff_ffff)
            by (nonlinear_arith)
            requires
                0 <= max_width <= 0xffff,
                0 <= image_height <= 0xffff_ffff,
        ;
        assert((max_height as int) * (image_width as int) <= 0xffff * 0xffff_ffff)
            by (nonlinear_arith)
            requires
                0 <= max_height <= 0xffff,
                0 <= image_width <= 0xffff_ffff,
        ;
    }
    let width_constrained_height: u64 = (max_width as u64) * (image_height as u64) / (
    image_width as u64);
    if width_constrained_height <= max_height as u64 {
        (max_width, width_constrained_height as u16)
    } else {
        let height_constrained_width: u64 = (max_height as u64) * (image_width as u64)
            * CHAR_ASPECT_RATIO_HEIGHT / (image_height as u64);
        (
            if height_constrained_width <= max_width as u64 {
                height_constrained_width as u16
            } else {
                max_width
            },
            max_height,
        )
    }
}

/// The pixel size that fills `columns` by `rows` cells of `cell_width` by
/// `cell_height` pixels as far as the image's proportions allow: the full
/// width where the image is wider than the area, the full height where it
/// is not.  Quotients are rounded down.  An image without pixels gets
/// nothing.
pub open spec fn graphical_dimensions(
    image_width: u32,
    image_height: u32,
    columns: u16,
    rows: u16,
    cell_width: u16,
    cell_height: u16,
) -> (u32, u32) {
    let target_width = columns * cell_width;
    let target_height = rows * cell_height;
    if image_width == 0 || image_height == 0 {
        (0, 0)
    } else if image_width * target_height > target_width * image_height {
        (target_width as u32, ((target_width * image_height) / (image_width as int)) as u32)
    } else {
        (((target_height * image_width) / (image_height as int)) as u32, target_height as u32)
    }
}

/// Computes the pixel size at which an image is shown in graphical mode.
pub fn calculate_graphical_dimensions(
    image_width: u32,
    image_height: u32,
    columns: u16,
    rows: u16,
    cell_width: u16,
    cell_height: u16,
) -> (r: (u32, u32))
    ensures
        r == graphical_dimensions(image_width, image_height, columns, rows, cell_width, cell_height),
        r.0 <= columns * cell_width,
        r.1 <= rows * cell_height,
{
    proof {
        assert((columns as int) * (cell_width as int) <= 0xffff * 0xffff) by (nonlinear_arith)
            requires
                0 <= columns <= 0xffff,
                0 <= cell_width <= 0xffff,
        ;
        assert((rows as int) * (cell_height as int) <= 0xffff * 0xffff) by (nonlinear_arith)
            requires
                0 <= rows <= 0xffff,
                0 <= cell_height <= 0xffff,
        ;
    }
    let target_width: u64 = (columns as u64) * (cell_width as u64);
    let target_height: u64 = (rows as u64) * (cell_height as u64);
    if image_width == 0 || image_height == 0 {
        return (0, 0);
    }
    proof {
        assert((image_width as int) * (target_height as int) <= 0xffff_ffff * 0xffff_0000)
            by (nonlinear_arith)
            requires
                0 <= image_width <= 0xffff_ffff,
                0 <= target_height <= 0xffff_0000,
        ;
        assert((target_width as int) * (image_height as int) <= 0xffff_0000 * 0xffff_ffff)
            by (nonlinear_arith)
            requires
                0 <= image_height <= 0xffff_ffff,
                0 <= target_width <= 0xffff_0000,
        ;
    }
    let across: u64 = (image_width as u64) * target_height;
    let down: u64 = target_width * (image_height as u64);
    if across > down {
        let height: u64 = down / (image_width as u64);
        proof {
            assert(height <= target_height) by (nonlinear_arith)
                requires
                    height == down / (image_width as u64),
                    down < (image_width as u64) * target_height,
                    image_width > 0,
            ;
            assert((target_width * image_height) == (target_width as int) * (image_height as int));
        }
        (target_width as u32, height as u32)
    } else {
        let width: u64 = across / (image_height as u64);
        proof {
            assert(width <= target_width) by (nonlinear_arith)
                requires
                    width == across / (image_height as u64),
                    across <= target_width * (image_height as u64),
                    image_height > 0,
            ;
            assert((target_height * image_width) == (image_width as int) * (target_height as int))
                by (nonlinear_arith);
        }
        (width as u32, target_height as u32)
    }
}

/// `path:WxH`, the key under which the preview of the file at `path` for
/// `width` by `height` cells is kept.
pub open spec fn cache_key_of(path: Seq<char>, width: u16, height: u16) -> Seq<char> {
    path + seq![':'] + decimal(width as nat) + seq!['x'] + decimal(height as nat)
}

/// Builds the key under which a preview is kept.
pub fn cache_key(path: &str, width: u16, height: u16) -> (r: String)
    ensures
        r@ == cache_key_of(path@, width, height),
{
    let mut key = path.to_owned();
    push_char(&mut key, ':');
    push_decimal(&mut key, width as u64);
    push_char(&mut key, 'x');
    push_decimal(&mut key, height as u64);
    key
}


/// The characters of the word at `span`.
pub open spec fn word_at(s: Seq<char>, span: (usize, usize)) -> Seq<char> {
    s.subrange(span.0 as int, span.1 as int)
}

/// Whether a word is the sign between a width and a height: `x` or `×`.
pub open spec fn is_times_sign(w: Seq<char>) -> bool {
    w == seq!['x'] || w == seq!['\u{d7}']
}

/// The pair of numbers that the first two words of `s` denote, if there are
/// two words and both are numbers.
pub open spec fn identify_dimensions(s: Seq<char>) -> Option<(u32, u32)> {
    let spans = word_spans(s);
    if spans.len() >= 2 {
        match (parsed_u32(word_at(s, spans[0])), parsed_u32(word_at(s, spans[1]))) {
            (Some(w), Some(h)) => Some((w, h)),
            _ => None,
        }
    } else {
        None
    }
}

/// The size that the three words from the `i`-th on spell as `W x H`.
pub open spec fn spaced_dimensions_at(s: Seq<char>, spans: Seq<(usize, usize)>, i: int) -> Option<
    (u32, u32),
> {
    match (parsed_u32(word_at(s, spans[i])), parsed_u32(word_at(s, spans[i + 2]))) {
        (Some(w), Some(h)) => if is_times_sign(word_at(s, spans[i + 1])) {
            Some((w, h))
        } else {
            None
        },
        _ => None,
    }
}

/// The first size spelt as three words `W x H`, looking from the `i`-th
/// word on.
pub open spec fn first_spaced_dimensions(
    s: Seq<char>,
    spans: Seq<(usize, usize)>,
    i: int,
) -> Option<(u32, u32)>
    decreases spans.len() - i,
{
    if i < 0 || i + 2 >= spans.len() {
        None
    } else {
        match spaced_dimensions_at(s, spans, i) {
            Some(d) => Some(d),
            None => first_spaced_dimensions(s, spans, i + 1),
        }
    }
}

/// The size that the characters `s[from..to)` spell as `W<sign>H`, split at
/// the first `sign`.
pub open spec fn split_dimensions(s: Seq<char>, from: int, to: int, sign: char) -> Option<
    (u32, u32),
> {
    match first_index_of(s, sign, from, to) {
        Some(at) => match (parsed_u32(s.subrange(from, at)), parsed_u32(s.subrange(at + 1, to))) {
            (Some(w), Some(h)) => Some((w, h)),
            _ => None,
        },
        None => None,
    }
}

/// The size that one word spells as `WxH` or, failing that, as `W×H`.
pub open spec fn compact_dimensions(s: Seq<char>, span: (usize, usize)) -> Option<(u32, u32)> {
    match split_dimensions(s, span.0 as int, span.1 as int, 'x') {
        Some(d) => Some(d),
        None => split_dimensions(s, span.0 as int, span.1 as int, '\u{d7}'),
    }
}

/// The first size spelt in one word, looking from the `i`-th word on.
pub open spec fn first_compact_dimensions(
    s: Seq<char>,
    spans: Seq<(usize, usize)>,
    i: int,
) -> Option<(u32, u32)>
    decreases spans.len() - i,
{
    if i < 0 || i >= spans.len() {
        None
    } else {
        match compact_dimensions(s, spans[i]) {
            Some(d) => Some(d),
            None => first_compact_dimensions(s, spans, i + 1),
        }
    }
}

/// The image size that a description of a file states: the first
/// `W x H` (or `W × H`) in three words; where there is none, the first
/// `WxH` (or `W×H`) in one word.
pub open spec fn described_dimensions(s: Seq<char>) -> Option<(u32, u32)> {
    let spans = word_spans(s);
    match first_spaced_dimensions(s, spans, 0) {
        Some(d) => Some(d),
        None => first_compact_dimensions(s, spans, 0),
    }
}

/// The size of an image as the probes report it: what the size query
/// printed, if it is a size; else what the file description states; else
/// 800 by 600.  A probe that did not run or failed counts as `None`.
pub open spec fn probed_dimensions(
    identify_output: Option<Seq<char>>,
    file_output: Option<Seq<char>>,
) -> (u32, u32) {
    let identified = match identify_output {
        Some(s) => identify_dimensions(s),
        None => None,
    };
    let described = match file_output {
        Some(s) => described_dimensions(s),
        None => None,
    };
    match identified {
        Some(d) => d,
        None => match described {
            Some(d) => d,
            None => FALLBACK_DIMENSIONS,
        },
    }
}

fn is_times_word(chars: &Vec<char>, span: (usize, usize)) -> (r: bool)
    requires
        span.0 < span.1 <= chars@.len(),
    ensures
        r == is_times_sign(word_at(chars@, span)),
{
    let r = span.1 - span.0 == 1 && (chars[span.0] == 'x' || chars[span.0] == '\u{d7}');
    proof {
        let w = word_at(chars@, span);
        if span.1 - span.0 == 1 {
            assert(w[0] == chars@[span.0 as int]);
            if r {
                assert(w =~= seq![chars@[span.0 as int]]);
            }
        } else {
            assert(w.len() != 1);
        }
    }
    r
}

fn split_at_sign(chars: &Vec<char>, span: (usize, usize), sign: char) -> (r: Option<(u32, u32)>)
    requires
        span.0 <= span.1 <= chars@.len(),
    ensures
        r == split_dimensions(chars@, span.0 as int, span.1 as int, sign),
{
    match find_char(chars, sign, span.0, span.1) {
        Some(at) => {
            match (parse_u32(chars, span.0, at), parse_u32(chars, at + 1, span.1)) {
                (Some(w), Some(h)) => Some((w, h)),
                _ => None,
            }
        },
        None => None,
    }
}

/// The probes that tell an image's size in pixels.
#[derive(Debug)]
pub struct ImageDimensions;

impl ImageDimensions {
    /// The arguments of the size query: `-format "%w %h" <path>`, to be
    /// handed to the `identify` program.
    pub fn identify_arguments(path: &str) -> (r: Vec<String>)
        ensures
            r@.len() == 3,
            r@[0]@ == "-format"@,
            r@[1]@ == "%w %h"@,
            r@[2]@ == path@,
    {
        let mut args: Vec<String> = Vec::new();
        args.push("-format".to_owned());
        args.push("%w %h".to_owned());
        args.push(path.to_owned());
        args
    }

    /// Reads a size off what the size query printed.
    pub fn parse_identify_output(output: &str) -> (r: Option<(u32, u32)>)
        ensures
            r == identify_dimensions(output@),
    {
        let chars = chars_of(output);
        let spans = split_words(&chars);
        if spans.len() >= 2 {
            let first = spans[0];
            let second = spans[1];
            match (
                parse_u32(&chars, first.0, first.1),
                parse_u32(&chars, second.0, second.1),
            ) {
                (Some(w), Some(h)) => Some((w, h)),
                _ => None,
            }
        } else {
            None
        }
    }

    /// Reads a size off a description of a file.
    pub fn extract_dimensions_from_file_output(output: &str) -> (r: Option<(u32, u32)>)
        ensures
            r == described_dimensions(output@),
    {
        let chars = chars_of(output);
        let spans = split_words(&chars);
        let triples: usize = if spans.len() >= 2 {
            spans.len() - 2
        } else {
            0
        };
        let mut i: usize = 0;
        while i < triples
            invariant
                triples == if spans@.len() >= 2 {
                    spans@.len() - 2
                } else {
                    0
                },
                chars@ == output@,
                spans@ == word_spans(chars@),
                forall|k: int|
                    0 <= k < spans@.len() ==> (#[trigger] spans@[k]).0 < spans@[k].1 <= chars@.len(),
                first_spaced_dimensions(chars@, spans@, 0) == first_spaced_dimensions(
                    chars@,
                    spans@,
                    i as int,
                ),
            decreases spans@.len() - i,
        {
            let width = spans[i];
            let sign = spans[i + 1];
            let height = spans[i + 2];
            match (parse_u32(&chars, width.0, width.1), parse_u32(&chars, height.0, height.1)) {
                (Some(w), Some(h)) => {
                    if is_times_word(&chars, sign) {
                        return Some((w, h));
                    }
                },
                _ => {},
            }
            i += 1;
        }
        let mut j: usize = 0;
        while j < spans.len()
            invariant
                chars@ == output@,
                spans@ == word_spans(chars@),
                forall|k: int|
                    0 <= k < spans@.len() ==> (#[trigger] spans@[k]).0 < spans@[k].1 <= chars@.len(),
                first_spaced_dimensions(chars@, spans@, 0) is None,
                first_compact_dimensions(chars@, spans@, 0) == first_compact_dimensions(
                    chars@,
                    spans@,
                    j as int,
                ),
            decreases spans@.len() - j,
        {
            let span = spans[j];
            match split_at_sign(&chars, span, 'x') {
                Some(d) => {
                    return Some(d);
                },
                None => {},
            }
            match split_at_sign(&chars, span, '\u{d7}') {
                Some(d) => {
                    return Some(d);
                },
                None => {},
            }
            j += 1;
        }
        None
    }

    /// The size of an image, given what the size query and the file
    /// description printed; `None` stands for a probe that did not run or
    /// that failed.
    pub fn get_dimensions(identify_output: Option<&str>, file_output: Option<&str>) -> (r: (
        u32,
        u32,
    ))
        ensures
            r == probed_dimensions(
                match identify_output {
                    Some(s) => Some(s@),
                    None => None,
                },
                match file_output {
                    Some(s) => Some(s@),
                    None => None,
                },
            ),
    {
        match identify_output {
            Some(s) => {
                match Self::parse_identify_output(s) {
                    Some(d) => {
                        return d;
                    },
                    None => {},
                }
            },
            None => {},
        }
        match file_output {
            Some(s) => {
                match Self::extract_dimensions_from_file_output(s) {
                    Some(d) => {
                        return d;
                    },
                    None => {},
                }
            },
            None => {},
        }
        FALLBACK_DIMENSIONS
    }
}


/// A request for a preview: which file, for how many cells, and from which
/// line on where the preview is text that scrolls.
#[derive(Debug)]
pub struct PreviewRequest {
    pub path: String,
    pub width: u16,
    pub height: u16,
    pub scroll_offset: usize,
}

impl PreviewRequest {
    /// The key under which the preview is kept.  The scroll offset plays
    /// no part: only previews of images are kept.
    pub fn cache_key(&self) -> (r: String)
        ensures
            r@ == cache_key_of(self.path@, self.width, self.height),
    {
        cache_key(self.path.as_str(), self.width, self.height)
    }
}

/// What a file is, as far as previews go.
#[derive(Debug, Clone, Copy, PartialEq, Eq, Structural)]
pub enum FileKind {
    Directory,
    Image,
    Ascii,
    Text,
    Unsupported,
}

/// The kind of an entry, given the first bytes of the file (`None` where it
/// could not be read): the first that applies of directory, image, ASCII
/// art, text.
pub open spec fn kind_of(file: FileItem, sample: Option<Seq<u8>>) -> FileKind {
    if file.is_directory {
        FileKind::Directory
    } else if file.spec_is_image(sample) {
        FileKind::Image
    } else if file.spec_is_ascii_file() {
        FileKind::Ascii
    } else if file.spec_is_text_file(sample) {
        FileKind::Text
    } else {
        FileKind::Unsupported
    }
}

/// Tells what kind of file an entry is.
pub fn classify(file: &FileItem, sample: Option<&[u8]>) -> (r: FileKind)
    ensures
        r == kind_of(*file, crate::file_browser::sample_view(sample)),
{
    if file.is_directory {
        FileKind::Directory
    } else if file.is_image(sample) {
        FileKind::Image
    } else if file.is_ascii_file() {
        FileKind::Ascii
    } else if file.is_text_file(sample) {
        FileKind::Text
    } else {
        FileKind::Unsupported
    }
}

/// The messages that previews show, in the user's language.
#[derive(Debug)]
pub struct PreviewMessages {
    pub directory_selected: String,
    pub image_file_prefix: String,
    pub ascii_file_prefix: String,
    pub text_file_prefix: String,
    pub file_type_not_supported: String,
    pub not_supported_file_type: String,
}

/// What is to be done for a preview.
pub enum PreviewStep {
    /// This text is the preview.
    Show(Text<'static>),
    /// The preview is in the cache under this key.
    Cached(String),
    /// The image is to be rendered and the result stored under this key.
    RenderImage(String),
    /// The file is ASCII art: it is to be read and shown.
    ReadAscii,
    /// The file is text: it is to be read and shown.
    ReadText,
}

/// How an image is to be rendered.
#[derive(Debug)]
pub enum ImagePlan {
    /// As text: by running this command.
    Text(ConverterCommand),
    /// As pixels: by decoding the file for a display of at most
    /// `max_dimension` pixels on its longer side.  `pixel_size` is the size
    /// in pixels that the image takes in the preview area.
    Graphical { max_dimension: u32, pixel_size: (u32, u32) },
}

/// The last part of a path: what follows its last `/`, or all of it.
pub open spec fn file_name_of(path: Seq<char>) -> Seq<char> {
    match last_index_of(path, '/') {
        Some(slash) => path.subrange(slash + 1, path.len() as int),
        None => path,
    }
}

/// The number that identifies the image at a path: a hash of the path's
/// characters, in eight bits.
pub open spec fn path_id(path: Seq<char>) -> u8
    decreases path.len(),
{
    if path.len() == 0 {
        0
    } else {
        ((path_id(path.drop_last()) * 31 + path.last() as u32) % 256) as u8
    }
}

/// Computes the number that identifies the image at a path.
pub fn hash_path(path: &str) -> (r: u8)
    ensures
        r == path_id(path@),
{
    let chars = chars_of(path);
    let mut id: u8 = 0;
    let mut i: usize = 0;
    while i < chars.len()
        invariant
            i <= chars@.len(),
            id == path_id(chars@.take(i as int)),
        decreases chars@.len() - i,
    {
        proof {
            assert(chars@.take(i + 1).drop_last() =~= chars@.take(i as int));
            assert(chars@.take(i + 1).last() == chars@[i as int]);
        }
        let code: u32 = code_point(chars[i]);
        id = (((id as u32) * 31 + code) % 256) as u8;
        i += 1;
    }
    assert(chars@.take(chars@.len() as int) =~= chars@);
    id
}

/// The most pixels on a side that an image is decoded for: the longer side
/// of the preview area in pixels where the size follows the terminal (at
/// least one pixel), else the configured maximum.
pub open spec fn display_max_dimension(
    graphical: GraphicalConfig,
    columns: u16,
    rows: u16,
    font_size: (u16, u16),
) -> u32 {
    if graphical.auto_resize {
        let across = columns * font_size.0;
        let down = rows * font_size.1;
        let longer = if across >= down {
            across
        } else {
            down
        };
        if longer < 1 {
            1
        } else {
            longer as u32
        }
    } else {
        graphical.max_dimension
    }
}

/// Computes the most pixels on a side that an image is decoded for.
pub fn max_dimension_for(graphical: &GraphicalConfig, columns: u16, rows: u16, font_size: (u16, u16))
    -> (r: u32)
    ensures
        r == display_max_dimension(*graphical, columns, rows, font_size),
{
    if graphical.auto_resize {
        proof {
            assert((columns as int) * (font_size.0 as int) <= 0xffff * 0xffff) by (nonlinear_arith)
                requires
                    0 <= columns <= 0xffff,
                    0 <= font_size.0 <= 0xffff,
            ;
            assert((rows as int) * (font_size.1 as int) <= 0xffff * 0xffff) by (nonlinear_arith)
                requires
                    0 <= rows <= 0xffff,
                    0 <= font_size.1 <= 0xffff,
            ;
        }
        let across: u32 = (columns as u32) * (font_size.0 as u32);
        let down: u32 = (rows as u32) * (font_size.1 as u32);
        let longer: u32 = if across >= down {
            across
        } else {
            down
        };
        if longer < 1 {
            1
        } else {
            longer
        }
    } else {
        graphical.max_dimension
    }
}

/// The most pixels on a side that an image needs to be decoded at: the
/// longer side of the size it takes on screen, and no more than
/// `max_dimension`.  Where the size on screen is not known, for want of the
/// image's own size, it is `max_dimension`.
pub open spec fn decode_target_of(max_dimension: u32, pixel_size: (u32, u32)) -> u32 {
    let longer = if pixel_size.0 >= pixel_size.1 {
        pixel_size.0
    } else {
        pixel_size.1
    };
    if pixel_size.0 == 0 || pixel_size.1 == 0 || longer > max_dimension {
        max_dimension
    } else {
        longer
    }
}

/// Computes the most pixels on a side that an image needs to be decoded
/// at, from what [`PreviewManager::plan_image`] planned.
pub fn decode_target(max_dimension: u32, pixel_size: (u32, u32)) -> (r: u32)
    ensures
        r == decode_target_of(max_dimension, pixel_size),
        r <= max_dimension,
{
    let longer: u32 = if pixel_size.0 >= pixel_size.1 {
        pixel_size.0
    } else {
        pixel_size.1
    };
    if pixel_size.0 == 0 || pixel_size.1 == 0 || longer > max_dimension {
        max_dimension
    } else {
        longer
    }
}

/// The text that a conversion's end leads to: the converter's output
/// parsed for ANSI codes; a notice where it does not parse; the error where
/// the converter failed.
pub open spec fn converted_text(converter: Converter, outcome: ProcessOutcome) -> Text<'static> {
    match converter.interpretation(outcome) {
        Ok(output) => match ansi_parsed(output) {
            Some(text) => text,
            None => raw_text("Failed to parse ANSI output"@),
        },
        Err(e) => raw_text("Failed to execute "@ + converter.name() + ": "@ + e),
    }
}

/// The message that a conversion's end leaves: the error where the
/// converter failed, else what was there.
pub open spec fn converted_message(
    converter: Converter,
    outcome: ProcessOutcome,
    before: Seq<char>,
) -> Seq<char> {
    match converter.interpretation(outcome) {
        Ok(_) => before,
        Err(e) => converter.name() + " error: "@ + e,
    }
}

/// Makes previews and keeps them.
pub struct PreviewManager {
    pub cache: PreviewCache,
    pub converter: Converter,
    pub config: PTuiConfig,
    /// What the terminal can show.
    pub capability: GraphicsCapability,
    /// The size of a character cell in pixels.
    pub font_size: (u16, u16),
    /// The message for the message pane.
    pub debug_info: String,
}

impl PreviewManager {
    /// A manager for a terminal without graphics.
    pub fn new(config: PTuiConfig) -> (r: Self)
        ensures
            r.cache.entries() == Seq::<CacheEntry>::empty(),
            r.converter == selected_converter(config),
            r.config == config,
            r.capability == GraphicsCapability::Unsupported,
            r.font_size == crate::graphics::DEFAULT_FONT_SIZE,
            r.debug_info@ == Seq::<char>::empty(),
    {
        Self::with_graphics(
            config,
            GraphicsCapability::Unsupported,
            crate::graphics::DEFAULT_FONT_SIZE,
        )
    }

    /// A manager for a terminal that can show what `capability` says, with
    /// character cells of `font_size` pixels.
    pub fn with_graphics(config: PTuiConfig, capability: GraphicsCapability, font_size: (u16, u16))
        -> (r: Self)
        ensures
            r.cache.entries() == Seq::<CacheEntry>::empty(),
            r.converter == selected_converter(config),
            r.config == config,
            r.capability == capability,
            r.font_size == font_size,
            r.debug_info@ == Seq::<char>::empty(),
    {
        let converter = create_converter(&config);
        PreviewManager {
            cache: PreviewCache::new(),
            converter,
            config,
            capability,
            font_size,
            debug_info: String::new(),
        }
    }

    pub fn get_debug_info(&self) -> (r: &str)
        ensures
            r@ == self.debug_info@,
    {
        self.debug_info.as_str()
    }

    pub fn converter_supports_transitions(&self) -> (r: bool)
        ensures
            r == (self.converter is Jp2a),
    {
        self.converter.supports_transitions()
    }

    /// Whether images are drawn as pixels: the graphical converter is
    /// selected and the terminal can show pixels.
    pub open spec fn spec_uses_graphics(&self) -> bool {
        self.converter is Graphical && self.capability.supports_graphics()
    }

    #[verifier::when_used_as_spec(spec_uses_graphics)]
    pub fn uses_graphics(&self) -> (r: bool)
        ensures
            r == self.spec_uses_graphics(),
    {
        self.converter.is_graphical() && self.capability.supports_graphics()
    }

    pub fn set_message(&mut self, message: String)
        ensures
            final(self).debug_info == message,
            final(self).same_setup(*old(self)),
            final(self).cache == old(self).cache,
    {
        self.debug_info = message;
    }

    /// Whether converter, configuration and terminal are as in `before`.
    pub open spec fn same_setup(self, before: Self) -> bool {
        &&& self.converter == before.converter
        &&& self.config == before.config
        &&& self.capability == before.capability
        &&& self.font_size == before.font_size
    }

    /// Forgets every preview.
    pub fn clear_cache(&mut self)
        ensures
            final(self).cache.entries() == Seq::<CacheEntry>::empty(),
            final(self).same_setup(*old(self)),
            final(self).debug_info == old(self).debug_info,
    {
        self.cache.invalidate_all();
    }

    /// Forgets the preview of `file` for `width` by `height` cells.
    pub fn remove_from_cache(&mut self, file: &FileItem, width: u16, height: u16)
        ensures
            final(self).cache.entries() == after_invalidate(
                old(self).cache.entries(),
                cache_key_of(file.path@, width, height),
            ),
            final(self).same_setup(*old(self)),
            final(self).debug_info == old(self).debug_info,
    {
        let key = cache_key(file.path.as_str(), width, height);
        self.cache.invalidate(key.as_str());
    }

    /// Takes a new configuration: the converter it selects becomes active,
    /// and every preview is forgotten.
    pub fn update_config(&mut self, config: PTuiConfig)
        ensures
            final(self).converter == selected_converter(config),
            final(self).config == config,
            final(self).cache.entries() == Seq::<CacheEntry>::empty(),
            final(self).capability == old(self).capability,
            final(self).font_size == old(self).font_size,
            final(self).debug_info == old(self).debug_info,
    {
        self.converter = create_converter(&config);
        self.config = config;
        self.clear_cache();
    }

    /// Says what is to be done to preview `file`, of kind `kind`, in
    /// `width` by `height` cells, and sets the message.
    ///
    /// An image whose preview is in the cache needs nothing done: no
    /// converter or decoder runs for it again.
    pub fn generate_preview(
        &mut self,
        file: &FileItem,
        kind: FileKind,
        width: u16,
        height: u16,
        messages: &PreviewMessages,
    ) -> (r: PreviewStep)
        ensures
            final(self).same_setup(*old(self)),
            final(self).cache == old(self).cache,
            match kind {
                FileKind::Directory => {
                    &&& final(self).debug_info@ == messages.directory_selected@
                    &&& r matches PreviewStep::Show(text)
                    &&& text == raw_text(messages.directory_selected@)
                },
                FileKind::Image => {
                    &&& final(self).debug_info == old(self).debug_info
                    &&& if old(self).cache.content_of(cache_key_of(file.path@, width, height))
                        is Some {
                        &&& r matches PreviewStep::Cached(key)
                        &&& key@ == cache_key_of(file.path@, width, height)
                    } else {
                        &&& r matches PreviewStep::RenderImage(key)
                        &&& key@ == cache_key_of(file.path@, width, height)
                    }
                },
                FileKind::Ascii => {
                    &&& final(self).debug_info@ == messages.ascii_file_prefix@ + file.name@
                    &&& r is ReadAscii
                },
                FileKind::Text => {
                    &&& final(self).debug_info@ == messages.text_file_prefix@ + file.name@
                    &&& r is ReadText
                },
                FileKind::Unsupported => {
                    &&& final(self).debug_info@ == messages.file_type_not_supported@
                    &&& r matches PreviewStep::Show(text)
                    &&& text == raw_text(messages.not_supported_file_type@)
                },
            },
    {
        match kind {
            FileKind::Directory => {
                self.debug_info = messages.directory_selected.clone();
                PreviewStep::Show(text_from(messages.directory_selected.clone()))
            },
            FileKind::Image => {
                let key = cache_key(file.path.as_str(), width, height);
                if self.cache.contains(key.as_str()) {
                    PreviewStep::Cached(key)
                } else {
                    PreviewStep::RenderImage(key)
                }
            },
            FileKind::Ascii => {
                let mut message = messages.ascii_file_prefix.clone();
                message.append(file.name.as_str());
                self.debug_info = message;
                PreviewStep::ReadAscii
            },
            FileKind::Text => {
                let mut message = messages.text_file_prefix.clone();
                message.append(file.name.as_str());
                self.debug_info = message;
                PreviewStep::ReadText
            },
            FileKind::Unsupported => {
                self.debug_info = messages.file_type_not_supported.clone();
                PreviewStep::Show(text_from(messages.not_supported_file_type.clone()))
            },
        }
    }

    /// The message that planning an image's rendering leaves: the prefix
    /// and the file's name, and a note where the image's size is not known.
    pub open spec fn image_message(prefix: Seq<char>, path: Seq<char>, dimensions: (u32, u32)) -> Seq<
        char,
    > {
        prefix + file_name_of(path) + if dimensions.0 == 0 || dimensions.1 == 0 {
            " | Using fallback dimensions"@
        } else {
            Seq::empty()
        }
    }

    /// Says how the image at `path`, of `dimensions` pixels, is to be
    /// rendered in `max_width` by `max_height` cells, and sets the message.
    ///
    /// As pixels where [`uses_graphics`](Self::uses_graphics) holds; else
    /// as text, by the active converter's command at the size that
    /// [`converter_dimensions`] gives.
    pub fn plan_image(
        &mut self,
        path: &str,
        dimensions: (u32, u32),
        max_width: u16,
        max_height: u16,
        messages: &PreviewMessages,
    ) -> (r: ImagePlan)
        ensures
            final(self).same_setup(*old(self)),
            final(self).cache == old(self).cache,
            final(self).debug_info@ == Self::image_message(
                messages.image_file_prefix@,
                path@,
                dimensions,
            ),
            old(self).uses_graphics() ==> {
                &&& r matches ImagePlan::Graphical { max_dimension, pixel_size }
                &&& max_dimension == display_max_dimension(
                    old(self).config.converter.graphical,
                    max_width,
                    max_height,
                    old(self).font_size,
                )
                &&& pixel_size == graphical_dimensions(
                    dimensions.0,
                    dimensions.1,
                    max_width,
                    max_height,
                    old(self).font_size.0,
                    old(self).font_size.1,
                )
                &&& pixel_size.0 <= max_width * old(self).font_size.0
                &&& pixel_size.1 <= max_height * old(self).font_size.1
            },
            !old(self).uses_graphics() ==> {
                let size = converter_dimensions(dimensions.0, dimensions.1, max_width, max_height);
                &&& r matches ImagePlan::Text(command)
                &&& command.program@ == old(self).converter.program()
                &&& views(command.args@) == old(self).converter.arguments(path@, size.0, size.1)
                &&& size.0 <= max_width
                &&& size.1 <= max_height
            },
    {
        let chars = chars_of(path);
        let mut message = messages.image_file_prefix.clone();
        let len: usize = chars.len();
        match rfind_char(&chars, '/') {
            Some(slash) => {
                push_chars(&mut message, &chars, slash + 1, len);
            },
            None => {
                push_chars(&mut message, &chars, 0, len);
                assert(chars@.subrange(0, len as int) =~= chars@);
            },
        }
        if dimensions.0 == 0 || dimensions.1 == 0 {
            message.append(" | Using fallback dimensions");
        }
        assert(message@ =~= Self::image_message(messages.image_file_prefix@, path@, dimensions));
        self.debug_info = message;
        if self.uses_graphics() {
            ImagePlan::Graphical {
                max_dimension: max_dimension_for(
                    &self.config.converter.graphical,
                    max_width,
                    max_height,
                    self.font_size,
                ),
                pixel_size: calculate_graphical_dimensions(
                    dimensions.0,
                    dimensions.1,
                    max_width,
                    max_height,
                    self.font_size.0,
                    self.font_size.1,
                ),
            }
        } else {
            let (width, height) = calculate_converter_dimensions(
                dimensions.0,
                dimensions.1,
                max_width,
                max_height,
            );
            ImagePlan::Text(self.converter.command(path, width, height))
        }
    }

    /// Turns the end of a conversion into text, and sets the message where
    /// the converter failed.
    pub fn render_with_converter(&mut self, outcome: &ProcessOutcome) -> (r: Text<'static>)
        ensures
            r == converted_text(old(self).converter, *outcome),
            final(self).debug_info@ == converted_message(
                old(self).converter,
                *outcome,
                old(self).debug_info@,
            ),
            final(self).same_setup(*old(self)),
            final(self).cache == old(self).cache,
    {
        match self.converter.interpret(outcome) {
            Ok(output) => {
                match parse_ansi(output.as_str()) {
                    Some(text) => text,
                    None => text_from("Failed to parse ANSI output".to_owned()),
                }
            },
            Err(e) => {
                let name = self.converter.get_name();
                let mut message = name.to_owned();
                message.append(" error: ");
                message.append(e.as_str());
                self.debug_info = message;
                let mut shown = "Failed to execute ".to_owned();
                shown.append(name);
                shown.append(": ");
                shown.append(e.as_str());
                text_from(shown)
            },
        }
    }

    /// Takes the end of the conversion that
    /// [`plan_image`](Self::plan_image) asked for: the text it leads to is
    /// stored under `key` and returned.
    pub fn complete_text_preview(&mut self, key: String, outcome: &ProcessOutcome) -> (r: Text<
        'static,
    >)
        ensures
            r == converted_text(old(self).converter, *outcome),
            final(self).cache.content_of(key@) == Some(PreviewContent::Text(r)),
            final(self).cache.entries() == crate::cache::after_insert(
                old(self).cache.entries(),
                CacheEntry { key, content: PreviewContent::Text(r) },
            ),
            final(self).debug_info@ == converted_message(
                old(self).converter,
                *outcome,
                old(self).debug_info@,
            ),
            final(self).same_setup(*old(self)),
    {
        let text = self.render_with_converter(outcome);
        let copy = clone_text(&text);
        self.cache.insert(key, PreviewContent::Text(text));
        copy
    }

    /// Whether `content` is the graphical preview of `image`, decoded from
    /// the file at `path`, for this manager.
    pub open spec fn shows(self, content: PreviewContent, path: Seq<char>, image: PixelBuffer) -> bool {
        &&& content matches PreviewContent::Graphical(preview)
        &&& preview.native_width == image.spec_width()
        &&& preview.native_height == image.spec_height()
        &&& preview.protocol_type == self.capability
        &&& preview.protocol.is_created(image, path_id(path), self.config.converter.graphical.max_dimension)
    }

    /// Takes the end of the decoding that [`plan_image`](Self::plan_image)
    /// asked for.  An image is stored under `key` as a graphical preview,
    /// and nothing is returned.  A failure becomes the message and, as
    /// text, the preview: it is stored under `key` and returned.  Either
    /// way the next request for the key finds a preview, and no decoder
    /// runs for it again.
    pub fn complete_graphical_preview(
        &mut self,
        key: String,
        path: &str,
        loaded: Result<PixelBuffer, String>,
    ) -> (r: Option<Text<'static>>)
        ensures
            final(self).same_setup(*old(self)),
            match loaded {
                Ok(image) => {
                    &&& r is None
                    &&& final(self).debug_info == old(self).debug_info
                    &&& final(self).cache.content_of(key@) matches Some(content)
                    &&& old(self).shows(content, path@, image)
                    &&& final(self).cache.entries() == crate::cache::after_insert(
                        old(self).cache.entries(),
                        CacheEntry { key, content },
                    )
                },
                Err(e) => {
                    &&& r == Some(raw_text(e@))
                    &&& final(self).debug_info@ == e@
                    &&& final(self).cache.content_of(key@) == Some(
                        PreviewContent::Text(raw_text(e@)),
                    )
                    &&& final(self).cache.entries() == crate::cache::after_insert(
                        old(self).cache.entries(),
                        CacheEntry { key, content: PreviewContent::Text(raw_text(e@)) },
                    )
                },
            },
    {
        match loaded {
            Ok(image) => {
                let native_width = image.width();
                let native_height = image.height();
                let protocol = ViuerKittyProtocol::new_with_config(
                    image,
                    hash_path(path),
                    self.config.converter.graphical.max_dimension,
                );
                let preview = GraphicalPreview {
                    protocol,
                    native_width,
                    native_height,
                    protocol_type: self.capability,
                };
                self.cache.insert(key, PreviewContent::Graphical(preview));
                None
            },
            Err(e) => {
                let shown = text_from(e.clone());
                let copy = clone_text(&shown);
                self.cache.insert(key, PreviewContent::Text(shown));
                self.debug_info = e;
                Some(copy)
            },
        }
    }
}


/// The most lines of a text file that are kept for scrolling.
pub const MAX_TEXT_LINES: usize = 10000;

/// The lines, with a line feed between one and the next.
pub open spec fn lines_joined(lines: Seq<Seq<char>>) -> Seq<char>
    decreases lines.len(),
{
    if lines.len() == 0 {
        Seq::empty()
    } else if lines.len() == 1 {
        lines[0]
    } else {
        lines_joined(lines.drop_last()) + seq!['\n'] + lines.last()
    }
}

/// The lines of a text file as they are kept: all of them where there are
/// at most [`MAX_TEXT_LINES`]; else one more than that many and a notice.
/// Where reading failed before that point, a line says so.
pub open spec fn kept_lines(lines: Seq<Seq<char>>, read_failed: bool) -> Seq<Seq<char>> {
    if lines.len() > MAX_TEXT_LINES {
        lines.take(MAX_TEXT_LINES + 1).push(
            "... (file too large for scrolling, showing first 10000 lines)"@,
        )
    } else if read_failed {
        lines.push("Error reading file"@)
    } else {
        lines
    }
}

/// The lines on screen: `height` lines from line `scroll_offset` on, as far
/// as there are any; a notice where the offset is beyond the last line.
pub open spec fn window(lines: Seq<Seq<char>>, scroll_offset: usize, height: u16) -> Seq<Seq<char>> {
    if scroll_offset >= lines.len() {
        seq!["(End of file)"@]
    } else if scroll_offset + height <= lines.len() {
        lines.subrange(scroll_offset as int, scroll_offset + height)
    } else {
        lines.subrange(scroll_offset as int, lines.len() as int)
    }
}

/// The characters shown for a text file.
pub open spec fn text_preview(
    lines: Option<Seq<Seq<char>>>,
    read_failed: bool,
    scroll_offset: usize,
    height: u16,
) -> Seq<char> {
    match lines {
        Some(lines) => lines_joined(window(kept_lines(lines, read_failed), scroll_offset, height)),
        None => "Error: Could not open file"@,
    }
}

/// The line ranges of `s` from position `i` on, where a line that began at
/// `start` is still open.
pub open spec fn line_spans_from(s: Seq<char>, i: int, start: int) -> Seq<(usize, usize)>
    decreases s.len() - i,
{
    if i >= s.len() {
        if start < s.len() {
            seq![(start as usize, s.len() as usize)]
        } else {
            seq![]
        }
    } else if s[i] == '\n' {
        let end = if i > start && s[i - 1] == '\r' {
            i - 1
        } else {
            i
        };
        seq![(start as usize, end as usize)] + line_spans_from(s, i + 1, i + 1)
    } else {
        line_spans_from(s, i + 1, start)
    }
}

/// The lines of `s`, each as the half-open range of its positions.  A line
/// ends at a line feed, or at a carriage return followed by one; neither
/// belongs to the line.  What follows the last line feed is a line unless
/// it is empty.
pub open spec fn line_spans(s: Seq<char>) -> Seq<(usize, usize)> {
    line_spans_from(s, 0, 0)
}

/// Splits `chars` into its lines, each given as a range of positions.
pub fn split_lines(chars: &Vec<char>) -> (r: Vec<(usize, usize)>)
    ensures
        r@ == line_spans(chars@),
        forall|k: int| 0 <= k < r@.len() ==> (#[trigger] r@[k]).0 <= r@[k].1 <= chars@.len(),
{
    let mut out: Vec<(usize, usize)> = Vec::new();
    let mut start: usize = 0;
    let mut i: usize = 0;
    while i < chars.len()
        invariant
            start <= i <= chars@.len(),
            line_spans(chars@) == out@ + line_spans_from(chars@, i as int, start as int),
            forall|k: int| 0 <= k < out@.len() ==> (#[trigger] out@[k]).0 <= out@[k].1 <= chars@.len(),
        decreases chars@.len() - i,
    {
        if chars[i] == '\n' {
            let end: usize = if i > start && chars[i - 1] == '\r' {
                i - 1
            } else {
                i
            };
            proof {
                assert(out@.push((start, end)) + line_spans_from(chars@, i + 1, i + 1) =~= out@ + (
                seq![(start, end)] + line_spans_from(chars@, i + 1, i + 1)));
            }
            out.push((start, end));
            start = i + 1;
        }
        i += 1;
    }
    if start < i {
        out.push((start, i));
    }
    assert(line_spans(chars@) =~= out@);
    out
}

/// The lines of `s` from line `from` on, with a line feed between one and
/// the next.
pub open spec fn lines_from(s: Seq<char>, spans: Seq<(usize, usize)>, from: int) -> Seq<Seq<char>> {
    Seq::new(
        if from < spans.len() {
            (spans.len() - from) as nat
        } else {
            0
        },
        |k: int| s.subrange(spans[from + k].0 as int, spans[from + k].1 as int),
    )
}

/// The characters shown for a file of ASCII art that does not parse: its
/// lines from line `scroll_offset` on; a notice where the offset is beyond
/// the last line.
pub open spec fn plain_ascii_preview(content: Seq<char>, scroll_offset: usize) -> Seq<char> {
    let spans = line_spans(content);
    if scroll_offset < spans.len() {
        lines_joined(lines_from(content, spans, scroll_offset as int))
    } else {
        "(End of file)"@
    }
}

/// What is shown for a file of ASCII art.
///
/// The content is parsed for ANSI codes, and the first `scroll_offset`
/// lines of the result are left out where it has more lines than that.
/// Content that does not parse is shown as it is, from line
/// `scroll_offset` on.  `None` stands for a file that could not be read.
pub open spec fn ascii_preview_shows(
    text: Text<'static>,
    content: Option<Seq<char>>,
    scroll_offset: usize,
) -> bool {
    match content {
        None => text == raw_text("Error: Could not read ASCII file"@),
        Some(content) => match ansi_parsed(content) {
            Some(parsed) => if 0 < scroll_offset < crate::text::text_lines(parsed).len() {
                crate::text::text_lines(text) == crate::text::text_lines(parsed).skip(
                    scroll_offset as int,
                )
            } else {
                text == parsed
            },
            None => text == raw_text(plain_ascii_preview(content, scroll_offset)),
        },
    }
}

fn push_line(out: &mut String, line: &str, first: bool)
    ensures
        final(out)@ == old(out)@ + (if first {
            Seq::<char>::empty()
        } else {
            seq!['\n']
        }) + line@,
{
    if !first {
        push_char(out, '\n');
    }
    out.append(line);
    assert(out@ =~= old(out)@ + (if first {
        Seq::<char>::empty()
    } else {
        seq!['\n']
    }) + line@);
}

/// Builds what is shown for a text file, given its lines (`None` where the
/// file could not be opened) and whether reading them failed on the way.
pub fn generate_text_preview(
    lines: Option<&Vec<String>>,
    read_failed: bool,
    scroll_offset: usize,
    visible_height: u16,
) -> (r: Text<'static>)
    ensures
        r == raw_text(
            text_preview(
                match lines {
                    Some(l) => Some(views(l@)),
                    None => None,
                },
                read_failed,
                scroll_offset,
                visible_height,
            ),
        ),
{
    match lines {
        None => text_from("Error: Could not open file".to_owned()),
        Some(lines) => {
            let ghost all = views(lines@);
            let ghost kept = kept_lines(all, read_failed);
            let capped: bool = lines.len() > MAX_TEXT_LINES;
            let body: usize = if capped {
                MAX_TEXT_LINES + 1
            } else {
                lines.len()
            };
            let extra: Option<&str> = if capped {
                Some("... (file too large for scrolling, showing first 10000 lines)")
            } else if read_failed {
                Some("Error reading file")
            } else {
                None
            };
            let total: usize = match extra {
                Some(_) => body + 1,
                None => body,
            };
            proof {
                assert(kept.len() == total);
                assert forall|k: int| 0 <= k < body implies kept[k] == lines@[k]@ by {}
                if extra is Some {
                    assert(kept[body as int] == extra->0@);
                }
            }
            if scroll_offset >= total {
                proof {
                    assert(lines_joined(seq!["(End of file)"@]) == "(End of file)"@);
                }
                return text_from("(End of file)".to_owned());
            }
            let end: usize = if visible_height as usize <= total - scroll_offset {
                scroll_offset + visible_height as usize
            } else {
                total
            };
            let ghost shown = window(kept, scroll_offset, visible_height);
            assert(shown =~= kept.subrange(scroll_offset as int, end as int));
            let mut out = String::new();
            let mut i: usize = scroll_offset;
            while i < end
                invariant
                    scroll_offset <= i <= end <= total,
                    total == kept.len(),
                    body <= lines@.len(),
                    total == body || total == body + 1,
                    total == body + 1 ==> extra is Some && kept[body as int] == extra->0@,
                    total == body ==> extra is None,
                    forall|k: int| 0 <= k < body ==> kept[k] == lines@[k]@,
                    out@ == lines_joined(kept.subrange(scroll_offset as int, i as int)),
                decreases end - i,
            {
                let ghost before = kept.subrange(scroll_offset as int, i as int);
                let ghost longer = kept.subrange(scroll_offset as int, i + 1);
                proof {
                    assert(longer.drop_last() =~= before);
                    assert(longer.last() == kept[i as int]);
                }
                if i < body {
                    push_line(&mut out, lines[i].as_str(), i == scroll_offset);
                } else {
                    match extra {
                        Some(notice) => {
                            push_line(&mut out, notice, i == scroll_offset);
                        },
                        None => {},
                    }
                }
                proof {
                    if i == scroll_offset {
                        assert(before.len() == 0);
                        assert(longer.len() == 1);
                        assert(out@ =~= longer[0]);
                    } else {
                        assert(longer.len() > 1);
                    }
                }
                i += 1;
            }
            text_from(out)
        },
    }
}

/// Builds what is shown for a file of ASCII art, given its content (`None`
/// where the file could not be read).
pub fn generate_ascii_preview(content: Option<&str>, scroll_offset: usize) -> (r: Text<'static>)
    ensures
        ascii_preview_shows(
            r,
            match content {
                Some(c) => Some(c@),
                None => None,
            },
            scroll_offset,
        ),
{
    match content {
        None => text_from("Error: Could not read ASCII file".to_owned()),
        Some(content) => {
            match parse_ansi(content) {
                Some(text) => {
                    if scroll_offset > 0 && scroll_offset < crate::text::line_count(&text) {
                        crate::text::drop_lines(text, scroll_offset)
                    } else {
                        text
                    }
                },
                None => {
                    let chars = chars_of(content);
                    let spans = split_lines(&chars);
                    if scroll_offset >= spans.len() {
                        return text_from("(End of file)".to_owned());
                    }
                    let ghost shown = lines_from(chars@, spans@, scroll_offset as int);
                    let mut out = String::new();
                    let mut i: usize = scroll_offset;
                    while i < spans.len()
                        invariant
                            scroll_offset <= i <= spans@.len(),
                            scroll_offset < spans@.len(),
                            shown == lines_from(chars@, spans@, scroll_offset as int),
                            forall|k: int|
                                0 <= k < spans@.len() ==> (#[trigger] spans@[k]).0 <= spans@[k].1
                                    <= chars@.len(),
                            out@ == lines_joined(shown.take(i - scroll_offset)),
                        decreases spans@.len() - i,
                    {
                        let ghost before = shown.take(i - scroll_offset);
                        let ghost longer = shown.take(i - scroll_offset + 1);
                        proof {
                            assert(longer.drop_last() =~= before);
                            assert(longer.last() == chars@.subrange(
                                spans@[i as int].0 as int,
                                spans@[i as int].1 as int,
                            ));
                        }
                        if i > scroll_offset {
                            push_char(&mut out, '\n');
                        }
                        let span = spans[i];
                        push_chars(&mut out, &chars, span.0, span.1);
                        proof {
                            if i == scroll_offset {
                                assert(before.len() == 0);
                                assert(longer.len() == 1);
                                assert(out@ =~= longer[0]);
                            } else {
                                assert(longer.len() > 1);
                                assert(out@ =~= lines_joined(before) + seq!['\n'] + longer.last());
                            }
                        }
                        i += 1;
                    }
                    assert(shown.take(spans@.len() - scroll_offset) =~= shown);
                    text_from(out)
                },
            }
        },
    }
}


/// The name of a file without its extension: what stands before the last
/// dot of the name, or the whole name where it has no dot or begins with
/// its only one.
pub open spec fn stem_of(name: Seq<char>) -> Seq<char> {
    match last_index_of(name, '.') {
        Some(dot) => if dot > 0 {
            name.take(dot)
        } else {
            name
        },
        None => name,
    }
}

/// The path that the ASCII art of the image at `path` is saved to: beside
/// the image, under its name with the extension `.ascii`.  There is none
/// where the path ends in no file name.
pub open spec fn ascii_path_of(path: Seq<char>) -> Option<Seq<char>> {
    let name = file_name_of(path);
    if name.len() == 0 || name == seq!['.'] || name == seq!['.', '.'] {
        None
    } else {
        Some(path.take(path.len() - name.len()) + stem_of(name) + ".ascii"@)
    }
}

/// What saving the ASCII art of a file begins with: the path to save to,
/// or the reason why nothing is saved.
pub open spec fn save_target(
    path: Seq<char>,
    is_image: bool,
    not_image_message: Seq<char>,
) -> Result<Seq<char>, Seq<char>> {
    if !is_image {
        Err(not_image_message)
    } else {
        match ascii_path_of(path) {
            Some(target) => Ok(target),
            None => Err("Could not determine output filename"@),
        }
    }
}

/// Decides where the ASCII art of a file is saved to.  Only an image has
/// any; for any other file, the error is `not_image_message`.
pub fn save_ascii_target(path: &str, is_image: bool, not_image_message: &str) -> (r: Result<
    String,
    String,
>)
    ensures
        result_view(r) == save_target(path@, is_image, not_image_message@),
{
    if !is_image {
        return Err(not_image_message.to_owned());
    }
    let chars = chars_of(path);
    let len: usize = chars.len();
    let start: usize = match rfind_char(&chars, '/') {
        Some(slash) => slash + 1,
        None => 0,
    };
    let ghost name = file_name_of(path@);
    assert(name =~= chars@.subrange(start as int, len as int));
    let name_len: usize = len - start;
    if name_len == 0 || (name_len == 1 && chars[start] == '.') || (name_len == 2 && chars[start]
        == '.' && chars[start + 1] == '.') {
        proof {
            if name_len == 1 {
                assert(name =~= seq!['.']);
            } else if name_len == 2 {
                assert(name =~= seq!['.', '.']);
            }
        }
        return Err("Could not determine output filename".to_owned());
    }
    proof {
        if name == seq!['.'] {
            assert(name[0] == '.');
        }
        if name == seq!['.', '.'] {
            assert(name[0] == '.' && name[1] == '.');
        }
    }
    // The last dot of the name, if it is not the name's first character.
    let mut end: usize = len;
    let mut i: usize = len;
    let mut found: bool = false;
    assert(name.take(len - start) =~= name);
    while i > start && !found
        invariant
            start <= i <= len,
            len == chars@.len(),
            name == chars@.subrange(start as int, len as int),
            !found ==> last_index_of(name, '.') == last_index_of(name.take(i - start), '.'),
            !found ==> end == len,
            found ==> last_index_of(name, '.') == Some(i - start) && i < len,
            found ==> end == if i > start {
                i
            } else {
                len
            },
        decreases (i - start) + (if found {
            0int
        } else {
            1int
        }),
    {
        proof {
            assert(name.take(i - start).last() == chars@[i - 1]);
            assert(name.take(i - start).drop_last() =~= name.take(i - start - 1));
        }
        i -= 1;
        if chars[i] == '.' {
            found = true;
            end = if i > start {
                i
            } else {
                len
            };
        }
    }
    proof {
        if !found {
            assert(name.take(0) =~= Seq::<char>::empty());
        }
        assert(stem_of(name) =~= chars@.subrange(start as int, end as int));
    }
    let mut target = String::new();
    push_chars(&mut target, &chars, 0, end);
    target.append(".ascii");
    proof {
        assert(chars@.subrange(0, end as int) =~= path@.take(path@.len() - name.len()) + stem_of(
            name,
        ));
    }
    Ok(target)
}

} // verus!
