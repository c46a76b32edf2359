//! Rebuilding the pixel buffer that a header announces from the raw data, and the text
//! that shows headers, comments and images on a terminal.

use vstd::prelude::*;
use vstd::slice::slice_subrange;
use crate::errors::{ErrorKind, MalformedFileError};
use crate::parser::{
    covers, enough_data, raw_data, rgb_triples, triples, unpack, unpack_bits, Comment,
    DataBlock, Header, Palette, Rgb,
};
use crate::text::{decimal, push_decimal};

verus! {

/// The glyph of one coloured pixel: the escape sequence that sets the foreground colour,
/// then two full blocks.
pub open spec fn rgb_pixel_text(color: Rgb) -> Seq<char> {
    "\x1b[38;2;"@ + decimal(color.0 as nat) + ";"@ + decimal(color.1 as nat) + ";"@ + decimal(
        color.2 as nat,
    ) + "m\u{2588}\u{2588}"@
}

/// Appends the glyph of one coloured pixel to `s`.
pub fn push_rgb_pixel(s: &mut String, r: u8, g: u8, b: u8)
    ensures
        final(s)@ == old(s)@ + rgb_pixel_text((r, g, b)),
{
    s.append("\x1b[38;2;");
    push_decimal(s, r as u64);
    s.append(";");
    push_decimal(s, g as u64);
    s.append(";");
    push_decimal(s, b as u64);
    s.append("m\u{2588}\u{2588}");
}

/// The glyph of one coloured pixel.
pub fn rgb_pixel(r: u8, g: u8, b: u8) -> (s: String)
    ensures
        s@ == rgb_pixel_text((r, g, b)),
{
    let mut s = String::new();
    push_rgb_pixel(&mut s, r, g, b);
    s
}

/// The words for a pixel type in a header's description.
pub open spec fn mode_text(pixel_type: u8) -> Seq<char> {
    if pixel_type == 0 {
        "black and white"@
    } else if pixel_type == 1 {
        "greyscale"@
    } else if pixel_type == 2 {
        "palette"@
    } else if pixel_type == 3 {
        "24 bit color"@
    } else {
        "found invalid mode \""@ + decimal(pixel_type as nat) + "\""@
    }
}

/// The description of a header: size and pixel type.
pub open spec fn header_text(header: Header) -> Seq<char> {
    "Image info :\n"@ + decimal(header.width as nat) + "x"@ + decimal(header.height as nat)
        + ", "@ + mode_text(header.pixel_type) + "."@
}

/// A comment as it is shown.
pub open spec fn comment_text(content: Seq<char>) -> Seq<char> {
    "Comment : "@ + content
}

impl Header {
    /// The description shown for this header.
    pub fn to_text(&self) -> (s: String)
        ensures
            s@ == header_text(*self),
    {
        let mut s = "Image info :\n".to_owned();
        push_decimal(&mut s, self.width as u64);
        s.append("x");
        push_decimal(&mut s, self.height as u64);
        s.append(", ");
        if self.pixel_type == 0 {
            s.append("black and white");
        } else if self.pixel_type == 1 {
            s.append("greyscale");
        } else if self.pixel_type == 2 {
            s.append("palette");
        } else if self.pixel_type == 3 {
            s.append("24 bit color");
        } else {
            s.append("found invalid mode \"");
            push_decimal(&mut s, self.pixel_type as u64);
            s.append("\"");
        }
        s.append(".");
        s
    }
}

impl Comment {
    /// The line shown for this comment.
    pub fn to_text(&self) -> (s: String)
        ensures
            s@ == comment_text(self@),
    {
        let mut s = "Comment : ".to_owned();
        s.append(self.get_content().as_str());
        s
    }
}

/// A pixel buffer in row-major order: `height` rows of `width` pixels.
pub struct Raster<P> {
    pub pixels: Seq<P>,
    pub width: nat,
    pub height: nat,
}

impl<P> Raster<P> {
    /// The buffer holds exactly the pixels of its rows.
    pub open spec fn wf(self) -> bool {
        self.pixels.len() == self.width * self.height
    }

    /// The number of rows that can be taken from the buffer. A buffer of width zero is
    /// empty and yields no row, whatever its height.
    pub open spec fn row_count(self) -> nat {
        if self.width == 0 {
            0
        } else {
            self.height
        }
    }

    /// Row `r`, counted from the top.
    pub open spec fn row(self, r: int) -> Seq<P> {
        self.pixels.subrange(r * self.width, (r + 1) * self.width)
    }
}

/// A pixel value that has a glyph on a terminal.
pub trait Glyph: Sized {
    /// The characters that show this pixel.
    spec fn glyph(self) -> Seq<char>;

    /// Appends the glyph of this pixel to `s`.
    fn push_glyph(&self, s: &mut String)
        ensures
            final(s)@ == old(s)@ + self.glyph(),
    ;
}

/// A black-and-white pixel is one character: a space for a set bit, `X` for a clear one.
impl Glyph for bool {
    open spec fn glyph(self) -> Seq<char> {
        if self {
            seq![' ']
        } else {
            seq!['X']
        }
    }

    fn push_glyph(&self, s: &mut String) {
        if *self {
            s.push(' ');
        } else {
            s.push('X');
        }
    }
}

/// A coloured pixel is two full blocks in its colour.
impl Glyph for Rgb {
    open spec fn glyph(self) -> Seq<char> {
        rgb_pixel_text(self)
    }

    fn push_glyph(&self, s: &mut String) {
        push_rgb_pixel(s, self.0, self.1, self.2);
    }
}

/// The glyphs of the pixels of one row, left to right.
pub open spec fn glyphs<P: Glyph>(row: Seq<P>) -> Seq<char> {
    row.map_values(|p: P| p.glyph()).flatten()
}

/// One line of output: the glyphs of a row and a line feed.
pub open spec fn line_text<P: Glyph>(row: Seq<P>) -> Seq<char> {
    glyphs(row).push('\n')
}

/// The lines of the first `count` rows, top to bottom.
pub open spec fn lines<P: Glyph>(raster: Raster<P>, count: nat) -> Seq<Seq<char>> {
    Seq::new(count, |r: int| line_text(raster.row(r)))
}

/// The text of a whole buffer: one line for each row.
pub open spec fn rows_text<P: Glyph>(raster: Raster<P>) -> Seq<char> {
    lines(raster, raster.row_count()).flatten()
}

/// The text of a coloured buffer: its rows, then the escape sequence that resets the
/// terminal's colours.
pub open spec fn colored_text(raster: Raster<Rgb>) -> Seq<char> {
    rows_text(raster) + "\x1b[0m"@
}

/// Appends the glyphs of `pixels[start..start + count]` to `s`.
fn push_glyphs<P: Glyph>(s: &mut String, pixels: &Vec<P>, start: usize, count: usize)
    requires
        start + count <= pixels@.len(),
    ensures
        final(s)@ == old(s)@ + glyphs(pixels@.subrange(start as int, start + count)),
{
    let ghost row = pixels@.subrange(start as int, start + count);
    let mut c: usize = 0;
    while c < count
        invariant
            c <= count,
            start + count <= pixels.len(),
            row == pixels@.subrange(start as int, start + count),
            s@ == old(s)@ + glyphs(row.take(c as int)),
        decreases count - c,
    {
        pixels[start + c].push_glyph(s);
        proof {
            let seen = row.take(c as int).map_values(|p: P| p.glyph());
            assert(row.take(c + 1).map_values(|p: P| p.glyph()) =~= seen.push(
                row[c as int].glyph(),
            ));
            seen.lemma_flatten_push(row[c as int].glyph());
        }
        c += 1;
    }
    assert(row.take(count as int) =~= row);
}

/// The text of the buffer `pixels` of `height` rows of `width` pixels.
fn render_rows<P: Glyph>(pixels: &Vec<P>, width: u32, height: u32) -> (text: String)
    requires
        pixels@.len() == width * height,
    ensures
        text@ == rows_text(Raster { pixels: pixels@, width: width as nat, height: height as nat }),
{
    let ghost raster = Raster { pixels: pixels@, width: width as nat, height: height as nat };
    let mut text = String::new();
    if width == 0 {
        return text;
    }
    let mut r: u32 = 0;
    let mut start: usize = 0;
    while r < height
        invariant
            r <= height,
            width > 0,
            pixels.len() == width * height,
            start == r * width,
            raster == (Raster { pixels: pixels@, width: width as nat, height: height as nat }),
            text@ == lines(raster, r as nat).flatten(),
        decreases height - r,
    {
        assert((r + 1) * width <= width * height && (r + 1) * width == r * width + width)
            by (nonlinear_arith)
            requires
                r < height,
        ;
        push_glyphs(&mut text, pixels, start, width as usize);
        text.push('\n');
        proof {
            assert(lines(raster, (r + 1) as nat) =~= lines(raster, r as nat).push(
                line_text(raster.row(r as int)),
            ));
            lines(raster, r as nat).lemma_flatten_push(line_text(raster.row(r as int)));
        }
        start = start + width as usize;
        r += 1;
    }
    text
}

/// The raw-data payloads of `blocks` laid end to end, in order.
pub fn gather(blocks: &Vec<DataBlock>) -> (bytes: Vec<u8>)
    ensures
        bytes@ == raw_data(blocks.deep_view()),
{
    let mut bytes: Vec<u8> = Vec::new();
    let mut i: usize = 0;
    while i < blocks.len()
        invariant
            i <= blocks.len(),
            bytes@ == raw_data(blocks.deep_view().take(i as int)),
        decreases blocks.len() - i,
    {
        bytes.extend_from_slice(blocks[i].get_content().as_slice());
        proof {
            let seen = blocks.deep_view().take(i as int);
            assert(blocks.deep_view().take(i + 1) =~= seen.push(blocks[i as int]@));
            seen.lemma_flatten_push(blocks[i as int]@);
        }
        i += 1;
    }
    assert(blocks.deep_view().take(i as int) =~= blocks.deep_view());
    bytes
}

/// The header of an image of the given size and pixel type.
pub open spec fn size_header(width: u32, height: u32, pixel_type: u8) -> Header {
    Header { width, height, pixel_type }
}

/// The colours of a palette that may be absent.
pub open spec fn palette_colors(palette: Option<Palette>) -> Option<Seq<Rgb>> {
    match palette {
        Some(p) => Some(p@),
        None => None,
    }
}

/// The number of pixels of an image of this size.
fn pixel_count(width: u32, height: u32) -> (count: u64)
    ensures
        count == width * height,
        count <= 0xffff_ffff * 0xffff_ffff,
{
    assert(width * height <= 0xffff_ffff * 0xffff_ffff) by (nonlinear_arith);
    (width as u64) * (height as u64)
}

/// An image rebuilt from raw data. Each representation says which buffer a run of raw
/// bytes becomes for a given size, and which text shows a buffer.
pub trait Image: Sized + View {
    /// The buffer that `data` becomes for an image of `width` by `height` pixels, or the
    /// reason why there is none.
    spec fn reconstruct(
        data: Seq<u8>,
        width: u32,
        height: u32,
        palette: Option<Seq<Rgb>>,
    ) -> Result<Self::V, ErrorKind>;

    /// The text that shows `image`, or the reason why it cannot be shown.
    spec fn render(image: Self::V) -> Result<Seq<char>, ErrorKind>;

    /// Rebuilds the image from the raw-data blocks of a file, taken end to end.
    fn from_blocks(
        blocks: &Vec<DataBlock>,
        width: u32,
        height: u32,
        palette: Option<Palette>,
    ) -> (r: Result<Self, MalformedFileError>)
        ensures
            match r {
                Ok(image) => Self::reconstruct(
                    raw_data(blocks.deep_view()),
                    width,
                    height,
                    palette_colors(palette),
                ) == Ok::<Self::V, ErrorKind>(image@),
                Err(e) => Self::reconstruct(
                    raw_data(blocks.deep_view()),
                    width,
                    height,
                    palette_colors(palette),
                ) == Err::<Self::V, ErrorKind>(e@),
            },
    ;

    /// The text that shows the image on a terminal, all lines together.
    fn display(&self) -> (r: Result<String, MalformedFileError>)
        ensures
            match r {
                Ok(text) => Self::render(self@) == Ok::<Seq<char>, ErrorKind>(text@),
                Err(e) => Self::render(self@) == Err::<Seq<char>, ErrorKind>(e@),
            },
    ;
}

/// A black-and-white image: one boolean for each pixel, `true` for a set bit.
#[derive(Debug)]
pub struct BwImage {
    data: Vec<bool>,
    width: u32,
    height: u32,
}

/// A greyscale image: one intensity for each pixel.
#[derive(Debug)]
pub struct GsImage {
    data: Vec<u8>,
    width: u32,
    height: u32,
}

/// A palette-indexed image: one index for each pixel, and the palette the indices refer
/// to. Indices are looked up when the image is shown, not before.
#[derive(Debug)]
pub struct PalImage {
    data: Vec<u8>,
    palette: Palette,
    width: u32,
    height: u32,
}

/// A colour image: one colour for each pixel.
#[derive(Debug)]
pub struct RgbImage {
    data: Vec<Rgb>,
    width: u32,
    height: u32,
}

/// A buffer of palette indices with its palette.
pub struct Indexed {
    pub raster: Raster<u8>,
    pub palette: Seq<Rgb>,
}

impl View for BwImage {
    type V = Raster<bool>;

    closed spec fn view(&self) -> Raster<bool> {
        Raster { pixels: self.data@, width: self.width as nat, height: self.height as nat }
    }
}

impl View for GsImage {
    type V = Raster<u8>;

    closed spec fn view(&self) -> Raster<u8> {
        Raster { pixels: self.data@, width: self.width as nat, height: self.height as nat }
    }
}

impl View for PalImage {
    type V = Indexed;

    closed spec fn view(&self) -> Indexed {
        Indexed {
            raster: Raster {
                pixels: self.data@,
                width: self.width as nat,
                height: self.height as nat,
            },
            palette: self.palette@,
        }
    }
}

impl View for RgbImage {
    type V = Raster<Rgb>;

    closed spec fn view(&self) -> Raster<Rgb> {
        Raster { pixels: self.data@, width: self.width as nat, height: self.height as nat }
    }
}

/// The colours of greyscale pixels: each intensity on all three channels.
pub open spec fn grey_colors(pixels: Seq<u8>) -> Seq<Rgb> {
    pixels.map_values(|g: u8| (g, g, g))
}

/// Every index in `pixels` has a colour in `palette`.
pub open spec fn indices_in_range(pixels: Seq<u8>, palette: Seq<Rgb>) -> bool {
    forall|i: int| 0 <= i < pixels.len() ==> pixels[i] < palette.len()
}

/// The colours of palette indices.
pub open spec fn palette_lookup(pixels: Seq<u8>, palette: Seq<Rgb>) -> Seq<Rgb> {
    pixels.map_values(|index: u8| palette[index as int])
}

impl Image for BwImage {
    open spec fn reconstruct(
        data: Seq<u8>,
        width: u32,
        height: u32,
        palette: Option<Seq<Rgb>>,
    ) -> Result<Raster<bool>, ErrorKind> {
        if !enough_data(size_header(width, height, 0), data.len()) {
            Err(ErrorKind::InsufficientData)
        } else {
            Ok(
                Raster {
                    pixels: unpack_bits(data).take(width * height),
                    width: width as nat,
                    height: height as nat,
                },
            )
        }
    }

    open spec fn render(image: Raster<bool>) -> Result<Seq<char>, ErrorKind> {
        Ok(rows_text(image))
    }

    fn from_blocks(
        blocks: &Vec<DataBlock>,
        width: u32,
        height: u32,
        _palette: Option<Palette>,
    ) -> (r: Result<Self, MalformedFileError>) {
        let bytes = gather(blocks);
        if !covers(&Header { width, height, pixel_type: 0 }, bytes.len() as u128) {
            return Err(MalformedFileError::new(ErrorKind::InsufficientData));
        }
        let count = pixel_count(width, height);
        let packed = slice_subrange(bytes.as_slice(), 0, ((count + 7) / 8) as usize);
        let mut data = unpack(packed);
        data.truncate(count as usize);
        assert(data@ =~= unpack_bits(bytes@).take(count as int));
        Ok(BwImage { data, width, height })
    }

    fn display(&self) -> (r: Result<String, MalformedFileError>) {
        proof {
            use_type_invariant(self);
        }
        Ok(render_rows(&self.data, self.width, self.height))
    }
}

impl BwImage {
    #[verifier::type_invariant]
    spec fn holds_every_pixel(self) -> bool {
        self.data@.len() == self.width * self.height
    }

    /// The pixel buffer, row after row: `width * height` pixels.
    pub fn get_content(&self) -> (content: &Vec<bool>)
        ensures
            content@ == self@.pixels,
            content@.len() == self@.width * self@.height,
    {
        proof {
            use_type_invariant(self);
        }
        &self.data
    }

    /// The width in pixels.
    pub fn width(&self) -> (width: u32)
        ensures
            width == self@.width,
    {
        self.width
    }

    /// The height in pixels.
    pub fn height(&self) -> (height: u32)
        ensures
            height == self@.height,
    {
        self.height
    }
}

/// The buffer `image` with its pixels replaced by `colors`.
pub open spec fn recolored<P>(image: Raster<P>, colors: Seq<Rgb>) -> Raster<Rgb> {
    Raster { pixels: colors, width: image.width, height: image.height }
}

/// The text of the coloured buffer `colors` of `height` rows of `width` pixels, reset
/// sequence included.
fn render_colored(colors: &Vec<Rgb>, width: u32, height: u32) -> (text: String)
    requires
        colors@.len() == width * height,
    ensures
        text@ == colored_text(
            Raster { pixels: colors@, width: width as nat, height: height as nat },
        ),
{
    let mut text = render_rows(colors, width, height);
    text.append("\x1b[0m");
    text
}

impl Image for GsImage {
    open spec fn reconstruct(
        data: Seq<u8>,
        width: u32,
        height: u32,
        palette: Option<Seq<Rgb>>,
    ) -> Result<Raster<u8>, ErrorKind> {
        if !enough_data(size_header(width, height, 1), data.len()) {
            Err(ErrorKind::InsufficientData)
        } else {
            Ok(
                Raster {
                    pixels: data.take(width * height),
                    width: width as nat,
                    height: height as nat,
                },
            )
        }
    }

    open spec fn render(image: Raster<u8>) -> Result<Seq<char>, ErrorKind> {
        Ok(colored_text(recolored(image, grey_colors(image.pixels))))
    }

    fn from_blocks(
        blocks: &Vec<DataBlock>,
        width: u32,
        height: u32,
        _palette: Option<Palette>,
    ) -> (r: Result<Self, MalformedFileError>) {
        let mut data = gather(blocks);
        if !covers(&Header { width, height, pixel_type: 1 }, data.len() as u128) {
            return Err(MalformedFileError::new(ErrorKind::InsufficientData));
        }
        data.truncate(pixel_count(width, height) as usize);
        Ok(GsImage { data, width, height })
    }

    fn display(&self) -> (r: Result<String, MalformedFileError>) {
        proof {
            use_type_invariant(self);
        }
        let mut colors: Vec<Rgb> = Vec::new();
        let mut i: usize = 0;
        while i < self.data.len()
            invariant
                i <= self.data.len(),
                colors@ == grey_colors(self.data@.take(i as int)),
            decreases self.data.len() - i,
        {
            let g = self.data[i];
            colors.push((g, g, g));
            i += 1;
        }
        assert(self.data@.take(i as int) =~= self.data@);
        Ok(render_colored(&colors, self.width, self.height))
    }
}

impl GsImage {
    #[verifier::type_invariant]
    spec fn holds_every_pixel(self) -> bool {
        self.data@.len() == self.width * self.height
    }

    /// The pixel buffer, row after row: `width * height` pixels.
    pub fn get_content(&self) -> (content: &Vec<u8>)
        ensures
            content@ == self@.pixels,
            content@.len() == self@.width * self@.height,
    {
        proof {
            use_type_invariant(self);
        }
        &self.data
    }

    /// The width in pixels.
    pub fn width(&self) -> (width: u32)
        ensures
            width == self@.width,
    {
        self.width
    }

    /// The height in pixels.
    pub fn height(&self) -> (height: u32)
        ensures
            height == self@.height,
    {
        self.height
    }
}

impl Image for PalImage {
    open spec fn reconstruct(
        data: Seq<u8>,
        width: u32,
        height: u32,
        palette: Option<Seq<Rgb>>,
    ) -> Result<Indexed, ErrorKind> {
        match palette {
            None => Err(ErrorKind::MissingPalette),
            Some(colors) => if !enough_data(size_header(width, height, 2), data.len()) {
                Err(ErrorKind::InsufficientData)
            } else {
                Ok(
                    Indexed {
                        raster: Raster {
                            pixels: data.take(width * height),
                            width: width as nat,
                            height: height as nat,
                        },
                        palette: colors,
                    },
                )
            },
        }
    }

    open spec fn render(image: Indexed) -> Result<Seq<char>, ErrorKind> {
        if !indices_in_range(image.raster.pixels, image.palette) {
            Err(ErrorKind::PaletteIndexOutOfRange)
        } else {
            Ok(
                colored_text(
                    recolored(image.raster, palette_lookup(image.raster.pixels, image.palette)),
                ),
            )
        }
    }

    fn from_blocks(
        blocks: &Vec<DataBlock>,
        width: u32,
        height: u32,
        palette: Option<Palette>,
    ) -> (r: Result<Self, MalformedFileError>) {
        let palette = match palette {
            None => { return Err(MalformedFileError::new(ErrorKind::MissingPalette)); },
            Some(palette) => palette,
        };
        let mut data = gather(blocks);
        if !covers(&Header { width, height, pixel_type: 2 }, data.len() as u128) {
            return Err(MalformedFileError::new(ErrorKind::InsufficientData));
        }
        data.truncate(pixel_count(width, height) as usize);
        Ok(PalImage { data, palette, width, height })
    }

    fn display(&self) -> (r: Result<String, MalformedFileError>) {
        proof {
            use_type_invariant(self);
        }
        let mut colors: Vec<Rgb> = Vec::new();
        let mut i: usize = 0;
        while i < self.data.len()
            invariant
                i <= self.data.len(),
                indices_in_range(self.data@.take(i as int), self.palette@),
                colors@ == palette_lookup(self.data@.take(i as int), self.palette@),
            decreases self.data.len() - i,
        {
            match self.palette.get_index(self.data[i]) {
                Ok(color) => {
                    colors.push(color);
                },
                Err(e) => {
                    return Err(e);
                },
            }
            i += 1;
        }
        assert(self.data@.take(i as int) =~= self.data@);
        Ok(render_colored(&colors, self.width, self.height))
    }
}

impl PalImage {
    #[verifier::type_invariant]
    spec fn holds_every_pixel(self) -> bool {
        self.data@.len() == self.width * self.height
    }

    /// The pixel buffer, row after row: `width * height` pixels.
    pub fn get_content(&self) -> (content: &Vec<u8>)
        ensures
            content@ == self@.raster.pixels,
            content@.len() == self@.raster.width * self@.raster.height,
    {
        proof {
            use_type_invariant(self);
        }
        &self.data
    }

    /// The width in pixels.
    pub fn width(&self) -> (width: u32)
        ensures
            width == self@.raster.width,
    {
        self.width
    }

    /// The height in pixels.
    pub fn height(&self) -> (height: u32)
        ensures
            height == self@.raster.height,
    {
        self.height
    }

    /// The palette the indices refer to.
    pub fn palette(&self) -> (palette: &Palette)
        ensures
            palette@ == self@.palette,
    {
        &self.palette
    }
}

impl Image for RgbImage {
    open spec fn reconstruct(
        data: Seq<u8>,
        width: u32,
        height: u32,
        palette: Option<Seq<Rgb>>,
    ) -> Result<Raster<Rgb>, ErrorKind> {
        if !enough_data(size_header(width, height, 3), data.len()) {
            Err(ErrorKind::InsufficientData)
        } else {
            Ok(
                Raster {
                    pixels: rgb_triples(data).take(width * height),
                    width: width as nat,
                    height: height as nat,
                },
            )
        }
    }

    open spec fn render(image: Raster<Rgb>) -> Result<Seq<char>, ErrorKind> {
        Ok(colored_text(image))
    }

    fn from_blocks(
        blocks: &Vec<DataBlock>,
        width: u32,
        height: u32,
        _palette: Option<Palette>,
    ) -> (r: Result<Self, MalformedFileError>) {
        let bytes = gather(blocks);
        if !covers(&Header { width, height, pixel_type: 3 }, bytes.len() as u128) {
            return Err(MalformedFileError::new(ErrorKind::InsufficientData));
        }
        let count = pixel_count(width, height);
        let used = slice_subrange(bytes.as_slice(), 0, (3 * count) as usize);
        let data = triples(used);
        assert(data@ =~= rgb_triples(bytes@).take(count as int));
        Ok(RgbImage { data, width, height })
    }

    fn display(&self) -> (r: Result<String, MalformedFileError>) {
        proof {
            use_type_invariant(self);
        }
        Ok(render_colored(&self.data, self.width, self.height))
    }
}

impl RgbImage {
    #[verifier::type_invariant]
    spec fn holds_every_pixel(self) -> bool {
        self.data@.len() == self.width * self.height
    }

    /// The pixel buffer, row after row: `width * height` pixels.
    pub fn get_content(&self) -> (content: &Vec<Rgb>)
        ensures
            content@ == self@.pixels,
            content@.len() == self@.width * self@.height,
    {
        proof {
            use_type_invariant(self);
        }
        &self.data
    }

    /// The width in pixels.
    pub fn width(&self) -> (width: u32)
        ensures
            width == self@.width,
    {
        self.width
    }

    /// The height in pixels.
    pub fn height(&self) -> (height: u32)
        ensures
            height == self@.height,
    {
        self.height
    }
}

/// An image in the one of the four representations that its header selects.
#[derive(Debug)]
pub enum DecodedImage {
    Bw(BwImage),
    Gs(GsImage),
    Pal(PalImage),
    Rgb(RgbImage),
}

/// The buffer of a decoded image, tagged by its representation.
pub enum Pixels {
    Bw(Raster<bool>),
    Gs(Raster<u8>),
    Pal(Indexed),
    Rgb(Raster<Rgb>),
}

impl View for DecodedImage {
    type V = Pixels;

    open spec fn view(&self) -> Pixels {
        match *self {
            DecodedImage::Bw(image) => Pixels::Bw(image@),
            DecodedImage::Gs(image) => Pixels::Gs(image@),
            DecodedImage::Pal(image) => Pixels::Pal(image@),
            DecodedImage::Rgb(image) => Pixels::Rgb(image@),
        }
    }
}

/// The image that a header, the raw data of its file and a palette give: the pixel type
/// alone picks the representation, and a pixel type that is none of the four gives
/// `InvalidPixelType`.
pub open spec fn reconstruct(header: Header, data: Seq<u8>, palette: Option<Seq<Rgb>>) -> Result<
    Pixels,
    ErrorKind,
> {
    if header.pixel_type == 0 {
        match BwImage::reconstruct(data, header.width, header.height, palette) {
            Ok(image) => Ok(Pixels::Bw(image)),
            Err(kind) => Err(kind),
        }
    } else if header.pixel_type == 1 {
        match GsImage::reconstruct(data, header.width, header.height, palette) {
            Ok(image) => Ok(Pixels::Gs(image)),
            Err(kind) => Err(kind),
        }
    } else if header.pixel_type == 2 {
        match PalImage::reconstruct(data, header.width, header.height, palette) {
            Ok(image) => Ok(Pixels::Pal(image)),
            Err(kind) => Err(kind),
        }
    } else if header.pixel_type == 3 {
        match RgbImage::reconstruct(data, header.width, header.height, palette) {
            Ok(image) => Ok(Pixels::Rgb(image)),
            Err(kind) => Err(kind),
        }
    } else {
        Err(ErrorKind::InvalidPixelType)
    }
}

/// The text that shows a decoded image.
pub open spec fn render(image: Pixels) -> Result<Seq<char>, ErrorKind> {
    match image {
        Pixels::Bw(raster) => BwImage::render(raster),
        Pixels::Gs(raster) => GsImage::render(raster),
        Pixels::Pal(indexed) => PalImage::render(indexed),
        Pixels::Rgb(raster) => RgbImage::render(raster),
    }
}

/// Rebuilds the image that `header` announces from the raw-data blocks of its file.
pub fn get_image(header: &Header, data: &Vec<DataBlock>, palette: Option<Palette>) -> (r: Result<
    DecodedImage,
    MalformedFileError,
>)
    ensures
        match r {
            Ok(image) => reconstruct(*header, raw_data(data.deep_view()), palette_colors(palette))
                == Ok::<Pixels, ErrorKind>(image@),
            Err(e) => reconstruct(*header, raw_data(data.deep_view()), palette_colors(palette))
                == Err::<Pixels, ErrorKind>(e@),
        },
{
    let (width, height, pixel_type) = header.get_content();
    match pixel_type {
        0 => match BwImage::from_blocks(data, width, height, palette) {
            Ok(image) => Ok(DecodedImage::Bw(image)),
            Err(e) => Err(e),
        },
        1 => match GsImage::from_blocks(data, width, height, palette) {
            Ok(image) => Ok(DecodedImage::Gs(image)),
            Err(e) => Err(e),
        },
        2 => match PalImage::from_blocks(data, width, height, palette) {
            Ok(image) => Ok(DecodedImage::Pal(image)),
            Err(e) => Err(e),
        },
        3 => match RgbImage::from_blocks(data, width, height, palette) {
            Ok(image) => Ok(DecodedImage::Rgb(image)),
            Err(e) => Err(e),
        },
        _ => Err(MalformedFileError::new(ErrorKind::InvalidPixelType)),
    }
}

impl DecodedImage {
    /// The text that shows the image on a terminal, all lines together.
    pub fn display(&self) -> (r: Result<String, MalformedFileError>)
        ensures
            match r {
                Ok(text) => render(self@) == Ok::<Seq<char>, ErrorKind>(text@),
                Err(e) => render(self@) == Err::<Seq<char>, ErrorKind>(e@),
            },
    {
        match self {
            DecodedImage::Bw(image) => image.display(),
            DecodedImage::Gs(image) => image.display(),
            DecodedImage::Pal(image) => image.display(),
            DecodedImage::Rgb(image) => image.display(),
        }
    }
}

} // verus!
