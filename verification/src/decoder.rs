//! The whole way from the bytes of a file to an image: parse, check, rebuild. A failure at
//! any stage ends the run; nothing is rebuilt from a file that was refused.

use vstd::prelude::*;
use crate::display::{get_image, reconstruct, DecodedImage, Pixels};
use crate::errors::{ErrorKind, MalformedFileError};
use crate::format::{file_bytes, header_chunk, lemma_round_trip, Chunk};
use crate::parser::{
    enough_data, integrity, parse_blocks, parse_file, raw_data, unpack_bits,
    validate_file_integrity, Comment, Header, Rgb, TAG_COMMENT, TAG_DATA,
};
use crate::text::latin1;

verus! {

/// What a file decodes to.
#[derive(Debug)]
pub struct DecodedFile {
    pub header: Header,
    pub comments: Vec<Comment>,
    pub image: DecodedImage,
}

/// The content of a decoded file.
pub struct Decoded {
    pub header: Header,
    pub comments: Seq<Seq<char>>,
    pub pixels: Pixels,
}

impl View for DecodedFile {
    type V = Decoded;

    open spec fn view(&self) -> Decoded {
        Decoded {
            header: self.header,
            comments: self.comments.deep_view(),
            pixels: self.image@,
        }
    }
}

/// What the bytes of a file decode to. The stages run in order and the first failure is
/// the result: the file is split into blocks, the blocks are checked against each other,
/// and only then is the image rebuilt. No chunk holds a palette, so none is at hand.
pub open spec fn decode_file(bytes: Seq<u8>) -> Result<Decoded, ErrorKind> {
    match parse_file(bytes) {
        Err(kind) => Err(kind),
        Ok(blocks) => match integrity(blocks.header, raw_data(blocks.data).len(), false) {
            Err(kind) => Err(kind),
            Ok(_) => match reconstruct(blocks.header->Some_0, raw_data(blocks.data), None) {
                Err(kind) => Err(kind),
                Ok(pixels) => Ok(
                    Decoded { header: blocks.header->Some_0, comments: blocks.comments, pixels },
                ),
            },
        },
    }
}

/// Decodes a file: its header, its comments and its image, or the reason why it is
/// refused.
pub fn decode(input: &Vec<u8>) -> (r: Result<DecodedFile, MalformedFileError>)
    ensures
        match r {
            Ok(file) => decode_file(input@) == Ok::<Decoded, ErrorKind>(file@),
            Err(e) => decode_file(input@) == Err::<Decoded, ErrorKind>(e@),
        },
{
    let (header, comments, data, palette) = match parse_blocks(input) {
        Ok(blocks) => blocks,
        Err(e) => { return Err(e); },
    };
    match validate_file_integrity(&header, &data, &palette) {
        Ok(_) => {},
        Err(e) => { return Err(e); },
    }
    let header = header.unwrap();
    match get_image(&header, &data, palette) {
        Ok(image) => Ok(DecodedFile { header, comments, image }),
        Err(e) => Err(e),
    }
}

/// The blocks pass the integrity check exactly when the raw data cover the image, for a
/// header whose pixel type exists and, where that is palette-indexed, with a palette at
/// hand; and what passed the check can always be rebuilt.
pub proof fn lemma_image_iff_enough_data(header: Header, data: Seq<u8>, palette: Option<Seq<Rgb>>)
    requires
        header.pixel_type <= 3,
        header.pixel_type == 2 ==> palette is Some,
    ensures
        integrity(Some(header), data.len(), palette is Some) is Ok <==> enough_data(
            header,
            data.len(),
        ),
        reconstruct(header, data, palette) is Ok <==> enough_data(header, data.len()),
{
}

/// Whatever the header and the palette, blocks that pass the integrity check can be
/// rebuilt into an image.
pub proof fn lemma_checked_blocks_rebuild(
    header: Header,
    data: Seq<u8>,
    palette: Option<Seq<Rgb>>,
)
    requires
        integrity(Some(header), data.len(), palette is Some) is Ok,
    ensures
        reconstruct(header, data, palette) is Ok,
{
}

/// A file that parses and whose header announces a black-and-white, greyscale or colour
/// image decodes exactly when its raw data cover the image.
pub proof fn lemma_decode_iff_enough_data(bytes: Seq<u8>)
    requires
        parse_file(bytes) is Ok,
        parse_file(bytes)->Ok_0.header is Some,
        ({
            let pixel_type = parse_file(bytes)->Ok_0.header->Some_0.pixel_type;
            pixel_type == 0 || pixel_type == 1 || pixel_type == 3
        }),
    ensures
        decode_file(bytes) is Ok <==> enough_data(
            parse_file(bytes)->Ok_0.header->Some_0,
            raw_data(parse_file(bytes)->Ok_0.data).len(),
        ),
{
}

/// A palette-indexed image without a palette is refused with `MissingPalette` by the
/// integrity check, however much raw data there is.
pub proof fn lemma_palette_required(header: Header, total_bytes: nat)
    requires
        header.pixel_type == 2,
    ensures
        integrity(Some(header), total_bytes, false) == Err::<(), ErrorKind>(
            ErrorKind::MissingPalette,
        ),
{
}

/// A file that parses and whose header announces a palette-indexed image is refused with
/// `MissingPalette`: the check fails before anything is rebuilt.
pub proof fn lemma_indexed_file_refused(bytes: Seq<u8>)
    requires
        parse_file(bytes) is Ok,
        parse_file(bytes)->Ok_0.header is Some,
        parse_file(bytes)->Ok_0.header->Some_0.pixel_type == 2,
    ensures
        decode_file(bytes) == Err::<Decoded, ErrorKind>(ErrorKind::MissingPalette),
{
}

/// The size of a pixel buffer that was rebuilt for `header`: it has the header's width and
/// height and holds exactly one pixel for each place.
pub open spec fn sized_for(pixels: Pixels, header: Header) -> bool {
    match pixels {
        Pixels::Bw(raster) => raster.wf() && raster.width == header.width && raster.height
            == header.height,
        Pixels::Gs(raster) => raster.wf() && raster.width == header.width && raster.height
            == header.height,
        Pixels::Pal(indexed) => indexed.raster.wf() && indexed.raster.width == header.width
            && indexed.raster.height == header.height,
        Pixels::Rgb(raster) => raster.wf() && raster.width == header.width && raster.height
            == header.height,
    }
}

/// The representation that a pixel type selects.
pub open spec fn representation_of(pixels: Pixels) -> u8 {
    match pixels {
        Pixels::Bw(_) => 0,
        Pixels::Gs(_) => 1,
        Pixels::Pal(_) => 2,
        Pixels::Rgb(_) => 3,
    }
}

/// An image that was rebuilt has the representation and the size that its header
/// announces: `width * height` pixels, whatever raw data there was beyond them.
pub proof fn lemma_rebuilt_size(header: Header, data: Seq<u8>, palette: Option<Seq<Rgb>>)
    requires
        reconstruct(header, data, palette) is Ok,
    ensures
        sized_for(reconstruct(header, data, palette)->Ok_0, header),
        representation_of(reconstruct(header, data, palette)->Ok_0) == header.pixel_type,
{
}

/// A file made of a header chunk for a black-and-white image, a comment chunk and a
/// raw-data chunk that covers the image decodes to that header, that comment and a
/// black-and-white buffer of `width * height` pixels: the first ones packed in the data.
pub proof fn lemma_round_trip_image(width: u32, height: u32, comment: Seq<u8>, data: Seq<u8>)
    requires
        comment.len() <= u32::MAX,
        data.len() <= u32::MAX,
        8 * data.len() >= width * height,
    ensures
        ({
            let header = Header { width, height, pixel_type: 0 };
            let file = file_bytes(
                seq![
                    header_chunk(header),
                    Chunk { tag: TAG_COMMENT, payload: comment },
                    Chunk { tag: TAG_DATA, payload: data },
                ],
            );
            &&& decode_file(file) is Ok
            &&& decode_file(file)->Ok_0.header == header
            &&& decode_file(file)->Ok_0.comments == seq![latin1(comment)]
            &&& decode_file(file)->Ok_0.pixels is Bw
            &&& decode_file(file)->Ok_0.pixels->Bw_0.pixels == unpack_bits(data).take(
                width * height,
            )
            &&& decode_file(file)->Ok_0.pixels->Bw_0.pixels.len() == width * height
        }),
{
    let header = Header { width, height, pixel_type: 0 };
    lemma_round_trip(header, comment, data);
}

} // verus!
