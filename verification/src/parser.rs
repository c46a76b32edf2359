//! Chunk framing, the block decoders, and the checks that tie the blocks of one file
//! together.

use vstd::prelude::*;
use crate::cursor::{be_u32, ByteCursor};
use crate::errors::{ErrorKind, MalformedFileError};
use crate::text::{latin1, push_latin1};

verus! {

/// The eight bytes every file starts with: `Mini-PNG` in ASCII.
pub const MAGIC_BYTES: [u8; 8] = [0x4d, 0x69, 0x6e, 0x69, 0x2d, 0x50, 0x4e, 0x47];

/// Tag byte of a header chunk, `H`.
pub const TAG_HEADER: u8 = 0x48;

/// Tag byte of a comment chunk, `C`.
pub const TAG_COMMENT: u8 = 0x43;

/// Tag byte of a raw-data chunk, `D`.
pub const TAG_DATA: u8 = 0x44;

/// Payload length of a header chunk.
pub const HEADER_LENGTH: u32 = 9;

/// `bytes` starts with the magic prefix.
pub open spec fn has_magic(bytes: Seq<u8>) -> bool {
    bytes.len() >= 8 && bytes.take(8) == MAGIC_BYTES@
}

/// Accepts a buffer that starts with the magic prefix and rejects every other one, a
/// buffer shorter than the prefix included.
pub fn validate_magic_bytes(input: &Vec<u8>) -> (r: Result<(), MalformedFileError>)
    ensures
        match r {
            Ok(_) => has_magic(input@),
            Err(e) => e@ == ErrorKind::BadMagic && !has_magic(input@),
        },
{
    if input.len() < 8 {
        return Err(MalformedFileError::new(ErrorKind::BadMagic));
    }
    let mut i: usize = 0;
    while i < 8
        invariant
            i <= 8 <= input.len(),
            forall|j: int| 0 <= j < i ==> input@[j] == MAGIC_BYTES@[j],
        decreases 8 - i,
    {
        if input[i] != MAGIC_BYTES[i] {
            return Err(MalformedFileError::new(ErrorKind::BadMagic));
        }
        i += 1;
    }
    assert(input@.take(8) =~= MAGIC_BYTES@);
    Ok(())
}

/// One colour: red, green and blue.
pub type Rgb = (u8, u8, u8);

/// A typed chunk. A kind of block says under which tag it is framed, what a payload of a
/// declared length decodes to, and how many payload bytes a decoded block stands for.
pub trait Block: Sized + View {
    /// The tag byte of this kind of block.
    spec fn tag() -> u8;

    /// The outcome of decoding a chunk of this kind whose declared payload length is
    /// `length` and whose payload starts at the front of `bytes`.
    spec fn decode(bytes: Seq<u8>, length: u32) -> Result<Self::V, ErrorKind>;

    /// The number of payload bytes this block was decoded from.
    spec fn payload_len(&self) -> nat;

    fn get_kind(&self) -> (kind: char)
        ensures
            kind == Self::tag() as char,
    ;

    fn get_length(&self) -> (length: u32)
        ensures
            length == self.payload_len(),
    ;

    /// Decodes one payload of `block_length` bytes from the cursor. On success the cursor
    /// has moved past the payload; on failure it has not moved.
    fn from_raw_data(data: &mut ByteCursor, block_length: u32) -> (r: Result<
        Self,
        MalformedFileError,
    >)
        ensures
            match r {
                Ok(block) => Self::decode(old(data).remaining(), block_length) == Ok::<
                    Self::V,
                    ErrorKind,
                >(block@) && old(data).advanced_by(block_length as nat, final(data))
                    && block.payload_len() == block_length,
                Err(e) => Self::decode(old(data).remaining(), block_length) == Err::<
                    Self::V,
                    ErrorKind,
                >(e@) && *final(data) == *old(data),
            },
    ;
}

/// The header of an image: its size in pixels and the tag of its pixel representation.
/// Pixel types `0` to `3` are black and white, greyscale, palette-indexed and 24-bit
/// colour; a header with another value still decodes and is rejected later.
#[derive(Clone, Copy, Debug, PartialEq, Eq, Structural)]
pub struct Header {
    pub width: u32,
    pub height: u32,
    pub pixel_type: u8,
}

impl View for Header {
    type V = Header;

    open spec fn view(&self) -> Header {
        *self
    }
}

/// The header that a nine-byte payload holds: width and height as big-endian integers,
/// then the pixel type.
pub open spec fn header_of(payload: Seq<u8>) -> Header
    recommends
        payload.len() == 9,
{
    Header {
        width: be_u32(payload.subrange(0, 4)) as u32,
        height: be_u32(payload.subrange(4, 8)) as u32,
        pixel_type: payload[8],
    }
}

impl Block for Header {
    open spec fn tag() -> u8 {
        TAG_HEADER
    }

    open spec fn decode(bytes: Seq<u8>, length: u32) -> Result<Header, ErrorKind> {
        if length != HEADER_LENGTH {
            Err(ErrorKind::MalformedHeader)
        } else if bytes.len() < HEADER_LENGTH {
            Err(ErrorKind::TruncatedInput)
        } else {
            Ok(header_of(bytes.take(HEADER_LENGTH as int)))
        }
    }

    open spec fn payload_len(&self) -> nat {
        HEADER_LENGTH as nat
    }

    fn get_kind(&self) -> (kind: char) {
        'H'
    }

    fn get_length(&self) -> (length: u32) {
        HEADER_LENGTH
    }

    fn from_raw_data(data: &mut ByteCursor, block_length: u32) -> (r: Result<
        Self,
        MalformedFileError,
    >) {
        if block_length != HEADER_LENGTH {
            return Err(MalformedFileError::new(ErrorKind::MalformedHeader));
        }
        if data.remaining_len() < 9 {
            return Err(MalformedFileError::new(ErrorKind::TruncatedInput));
        }
        let width = match data.read_u32_be() {
            Ok(value) => value,
            Err(e) => { return Err(e); },
        };
        let height = match data.read_u32_be() {
            Ok(value) => value,
            Err(e) => { return Err(e); },
        };
        let pixel_type = match data.read_u8() {
            Ok(value) => value,
            Err(e) => { return Err(e); },
        };
        assert(data.remaining() =~= old(data).remaining().skip(9));
        Ok(Header { width, height, pixel_type })
    }
}

impl Header {
    /// Width, height and pixel type.
    pub fn get_content(&self) -> (content: (u32, u32, u8))
        ensures
            content == (self.width, self.height, self.pixel_type),
    {
        (self.width, self.height, self.pixel_type)
    }
}

/// A comment: the payload read as text, one byte for one character.
#[derive(Debug)]
pub struct Comment {
    content: String,
}

impl View for Comment {
    type V = Seq<char>;

    closed spec fn view(&self) -> Seq<char> {
        self.content@
    }
}

impl DeepView for Comment {
    type V = Seq<char>;

    open spec fn deep_view(&self) -> Seq<char> {
        self@
    }
}

impl Block for Comment {
    open spec fn tag() -> u8 {
        TAG_COMMENT
    }

    open spec fn decode(bytes: Seq<u8>, length: u32) -> Result<Seq<char>, ErrorKind> {
        if bytes.len() < length {
            Err(ErrorKind::TruncatedInput)
        } else {
            Ok(latin1(bytes.take(length as int)))
        }
    }

    open spec fn payload_len(&self) -> nat {
        self@.len()
    }

    fn get_kind(&self) -> (kind: char) {
        'C'
    }

    fn get_length(&self) -> (length: u32) {
        proof {
            use_type_invariant(self);
        }
        self.content.as_str().unicode_len() as u32
    }

    fn from_raw_data(data: &mut ByteCursor, block_length: u32) -> (r: Result<
        Self,
        MalformedFileError,
    >) {
        match data.read_n(block_length as usize) {
            Ok(payload) => {
                let mut content = String::new();
                push_latin1(&mut content, payload);
                Ok(Comment { content })
            },
            Err(e) => Err(e),
        }
    }
}

impl Comment {
    #[verifier::type_invariant]
    spec fn fits_length_field(self) -> bool {
        self.content@.len() <= u32::MAX
    }

    /// The text of the comment.
    pub fn get_content(&self) -> (content: &String)
        ensures
            content@ == self@,
    {
        &self.content
    }
}

/// A raw-data chunk: payload bytes kept as they are. What they mean is decided by the
/// header's pixel type when the image is rebuilt.
#[derive(Debug)]
pub struct DataBlock {
    content: Vec<u8>,
}

impl View for DataBlock {
    type V = Seq<u8>;

    closed spec fn view(&self) -> Seq<u8> {
        self.content@
    }
}

impl DeepView for DataBlock {
    type V = Seq<u8>;

    open spec fn deep_view(&self) -> Seq<u8> {
        self@
    }
}

impl Block for DataBlock {
    open spec fn tag() -> u8 {
        TAG_DATA
    }

    open spec fn decode(bytes: Seq<u8>, length: u32) -> Result<Seq<u8>, ErrorKind> {
        if bytes.len() < length {
            Err(ErrorKind::TruncatedInput)
        } else {
            Ok(bytes.take(length as int))
        }
    }

    open spec fn payload_len(&self) -> nat {
        self@.len()
    }

    fn get_kind(&self) -> (kind: char) {
        'D'
    }

    fn get_length(&self) -> (length: u32) {
        proof {
            use_type_invariant(self);
        }
        self.content.len() as u32
    }

    fn from_raw_data(data: &mut ByteCursor, block_length: u32) -> (r: Result<
        Self,
        MalformedFileError,
    >) {
        match data.read_n(block_length as usize) {
            Ok(payload) => Ok(DataBlock { content: vstd::slice::slice_to_vec(payload) }),
            Err(e) => Err(e),
        }
    }
}

impl DataBlock {
    #[verifier::type_invariant]
    spec fn fits_length_field(self) -> bool {
        self.content@.len() <= u32::MAX
    }

    /// The payload bytes.
    pub fn get_content(&self) -> (content: &Vec<u8>)
        ensures
            content@ == self@,
    {
        &self.content
    }
}

/// Pixel `k` of the eight that one byte packs: the most significant bit, `0x80`, is
/// pixel 0 and the least significant, `0x01`, is pixel 7.
pub open spec fn bit_of(byte: u8, k: int) -> bool
    recommends
        0 <= k < 8,
{
    byte & (0x80u8 >> (k as u8)) != 0
}

/// The pixels that packed bytes hold: eight per byte, in byte order.
pub open spec fn unpack_bits(bytes: Seq<u8>) -> Seq<bool> {
    Seq::new(8 * bytes.len(), |i: int| bit_of(bytes[i / 8], i % 8))
}

/// The colours that bytes hold, three bytes for one colour. One or two bytes left over at
/// the end belong to no colour.
pub open spec fn rgb_triples(bytes: Seq<u8>) -> Seq<Rgb> {
    Seq::new(bytes.len() / 3, |i: int| (bytes[3 * i], bytes[3 * i + 1], bytes[3 * i + 2]))
}

/// The pixels packed in `bytes`.
pub fn unpack(bytes: &[u8]) -> (bits: Vec<bool>)
    ensures
        bits@ == unpack_bits(bytes@),
{
    let mut bits: Vec<bool> = Vec::new();
    let mut i: usize = 0;
    while i < bytes.len()
        invariant
            i <= bytes.len(),
            bits@ == unpack_bits(bytes@.take(i as int)),
        decreases bytes.len() - i,
    {
        let byte = bytes[i];
        let mut k: u8 = 0;
        while k < 8
            invariant
                k <= 8,
                i < bytes.len(),
                byte == bytes[i as int],
                bits@ == unpack_bits(bytes@.take(i as int)) + Seq::new(
                    k as nat,
                    |j: int| bit_of(byte, j),
                ),
            decreases 8 - k,
        {
            bits.push(byte & (0x80u8 >> k) != 0);
            k += 1;
        }
        i += 1;
    }
    bits
}

/// The colours held in `bytes`.
pub fn triples(bytes: &[u8]) -> (colors: Vec<Rgb>)
    ensures
        colors@ == rgb_triples(bytes@),
{
    let count: usize = bytes.len() / 3;
    let mut colors: Vec<Rgb> = Vec::new();
    let mut i: usize = 0;
    while i < count
        invariant
            i <= count == bytes.len() / 3,
            colors@ == rgb_triples(bytes@).take(i as int),
        decreases count - i,
    {
        colors.push((bytes[3 * i], bytes[3 * i + 1], bytes[3 * i + 2]));
        i += 1;
    }
    colors
}

/// A raw-data payload unpacked as black-and-white pixels, eight per byte.
#[derive(Debug)]
pub struct BwData {
    content: Vec<bool>,
}

impl View for BwData {
    type V = Seq<bool>;

    closed spec fn view(&self) -> Seq<bool> {
        self.content@
    }
}

impl Block for BwData {
    open spec fn tag() -> u8 {
        TAG_DATA
    }

    open spec fn decode(bytes: Seq<u8>, length: u32) -> Result<Seq<bool>, ErrorKind> {
        if bytes.len() < length {
            Err(ErrorKind::TruncatedInput)
        } else {
            Ok(unpack_bits(bytes.take(length as int)))
        }
    }

    open spec fn payload_len(&self) -> nat {
        self@.len() / 8
    }

    fn get_kind(&self) -> (kind: char) {
        'D'
    }

    fn get_length(&self) -> (length: u32) {
        proof {
            use_type_invariant(self);
        }
        (self.content.len() / 8) as u32
    }

    fn from_raw_data(data: &mut ByteCursor, block_length: u32) -> (r: Result<
        Self,
        MalformedFileError,
    >) {
        match data.read_n(block_length as usize) {
            Ok(payload) => {
                Ok(BwData { content: unpack(payload) })
            },
            Err(e) => Err(e),
        }
    }
}

impl BwData {
    #[verifier::type_invariant]
    spec fn fits_length_field(self) -> bool {
        self.content@.len() <= 8 * u32::MAX
    }

    /// The pixels, `true` for a set bit.
    pub fn get_content(&self) -> (content: &Vec<bool>)
        ensures
            content@ == self@,
    {
        &self.content
    }
}

/// An ordered table of colours, addressed by the index bytes of a palette-indexed image.
#[derive(Debug)]
pub struct Palette {
    colors: Vec<Rgb>,
}

impl View for Palette {
    type V = Seq<Rgb>;

    closed spec fn view(&self) -> Seq<Rgb> {
        self.colors@
    }
}

impl Palette {
    /// What a palette payload of declared length `length` at the front of `bytes` decodes
    /// to: as many colours as the length holds whole triples.
    pub open spec fn decode(bytes: Seq<u8>, length: u32) -> Result<Seq<Rgb>, ErrorKind> {
        if bytes.len() < length {
            Err(ErrorKind::TruncatedInput)
        } else {
            Ok(rgb_triples(bytes.take(length as int)))
        }
    }

    /// Decodes one palette payload of `block_length` bytes from the cursor. On success
    /// the cursor has moved past the payload; on failure it has not moved.
    pub fn from_raw_data(data: &mut ByteCursor, block_length: u32) -> (r: Result<
        Self,
        MalformedFileError,
    >)
        ensures
            match r {
                Ok(palette) => Self::decode(old(data).remaining(), block_length) == Ok::<
                    Seq<Rgb>,
                    ErrorKind,
                >(palette@) && old(data).advanced_by(block_length as nat, final(data)),
                Err(e) => Self::decode(old(data).remaining(), block_length) == Err::<
                    Seq<Rgb>,
                    ErrorKind,
                >(e@) && *final(data) == *old(data),
            },
    {
        match data.read_n(block_length as usize) {
            Ok(payload) => {
                Ok(Palette { colors: triples(payload) })
            },
            Err(e) => Err(e),
        }
    }

    /// The number of colours.
    pub fn len(&self) -> (n: usize)
        ensures
            n == self@.len(),
    {
        self.colors.len()
    }

    /// The colour at `index`, or `PaletteIndexOutOfRange` where the table is shorter.
    pub fn get_index(&self, index: u8) -> (r: Result<Rgb, MalformedFileError>)
        ensures
            match r {
                Ok(color) => index < self@.len() && color == self@[index as int],
                Err(e) => e@ == ErrorKind::PaletteIndexOutOfRange && index >= self@.len(),
            },
    {
        if (index as usize) < self.colors.len() {
            Ok(self.colors[index as usize])
        } else {
            Err(MalformedFileError::new(ErrorKind::PaletteIndexOutOfRange))
        }
    }
}

/// What the chunks of a file hold once they are told apart: the header if one was seen,
/// the comment texts and the raw-data payloads, each list in file order.
pub struct ParsedBlocks {
    pub header: Option<Header>,
    pub comments: Seq<Seq<char>>,
    pub data: Seq<Seq<u8>>,
}

/// The bytes after a payload of `length` bytes that starts at the front of `body`.
pub open spec fn after_payload(body: Seq<u8>, length: u32) -> Seq<u8> {
    body.skip(length as int)
}

/// Reads `bytes` as a run of chunks and adds what they hold to `found`.
///
/// The end of the bytes is the only way to stop; there is no end marker. A chunk is a
/// tag, a big-endian payload length and the payload. Header, comment and raw-data chunks
/// go to their decoders; a second header is an error; a chunk with any other tag is
/// stepped over, its payload unread but present. The first failure, in file order, is the
/// result.
pub open spec fn parse_chunks(bytes: Seq<u8>, found: ParsedBlocks) -> Result<
    ParsedBlocks,
    ErrorKind,
>
    decreases bytes.len(),
{
    if bytes.len() == 0 {
        Ok(found)
    } else if bytes.len() < 5 {
        Err(ErrorKind::TruncatedInput)
    } else {
        let tag = bytes[0];
        let length = be_u32(bytes.subrange(1, 5)) as u32;
        let body = bytes.skip(5);
        if tag == TAG_HEADER {
            match Header::decode(body, length) {
                Err(kind) => Err(kind),
                Ok(header) => if found.header is Some {
                    Err(ErrorKind::DuplicateHeader)
                } else {
                    parse_chunks(
                        after_payload(body, length),
                        ParsedBlocks {
                            header: Some(header),
                            comments: found.comments,
                            data: found.data,
                        },
                    )
                },
            }
        } else if tag == TAG_COMMENT {
            match Comment::decode(body, length) {
                Err(kind) => Err(kind),
                Ok(text) => parse_chunks(
                    after_payload(body, length),
                    ParsedBlocks {
                        header: found.header,
                        comments: found.comments.push(text),
                        data: found.data,
                    },
                ),
            }
        } else if tag == TAG_DATA {
            match DataBlock::decode(body, length) {
                Err(kind) => Err(kind),
                Ok(payload) => parse_chunks(
                    after_payload(body, length),
                    ParsedBlocks {
                        header: found.header,
                        comments: found.comments,
                        data: found.data.push(payload),
                    },
                ),
            }
        } else if body.len() < length {
            Err(ErrorKind::TruncatedInput)
        } else {
            parse_chunks(after_payload(body, length), found)
        }
    }
}

/// What a whole file decodes to: the magic prefix, then chunks to the end.
pub open spec fn parse_file(bytes: Seq<u8>) -> Result<ParsedBlocks, ErrorKind> {
    if !has_magic(bytes) {
        Err(ErrorKind::BadMagic)
    } else {
        parse_chunks(
            bytes.skip(8),
            ParsedBlocks { header: None, comments: Seq::empty(), data: Seq::empty() },
        )
    }
}

/// Splits a file into its typed blocks: the header if there is one, the comments and the
/// raw-data blocks in file order. The format gives palettes no chunk tag, so the fourth
/// component is always `None`; a caller that holds a palette payload decodes it with
/// [`Palette::from_raw_data`].
pub fn parse_blocks(input: &Vec<u8>) -> (r: Result<
    (Option<Header>, Vec<Comment>, Vec<DataBlock>, Option<Palette>),
    MalformedFileError,
>)
    ensures
        match r {
            Ok(blocks) => parse_file(input@) == Ok::<ParsedBlocks, ErrorKind>(
                ParsedBlocks {
                    header: blocks.0,
                    comments: blocks.1.deep_view(),
                    data: blocks.2.deep_view(),
                },
            ) && blocks.3 is None,
            Err(e) => parse_file(input@) == Err::<ParsedBlocks, ErrorKind>(e@),
        },
{
    match validate_magic_bytes(input) {
        Ok(_) => {},
        Err(e) => { return Err(e); },
    }
    let mut cursor = ByteCursor::new(input.as_slice());
    match cursor.read_n(8) {
        Ok(_) => {},
        Err(e) => { return Err(e); },
    }
    let mut header: Option<Header> = None;
    let mut comments: Vec<Comment> = Vec::new();
    let mut data: Vec<DataBlock> = Vec::new();
    assert(comments.deep_view() =~= Seq::<Seq<char>>::empty());
    assert(data.deep_view() =~= Seq::<Seq<u8>>::empty());
    while cursor.remaining_len() > 0
        invariant
            parse_file(input@) == parse_chunks(
                cursor.remaining(),
                ParsedBlocks {
                    header,
                    comments: comments.deep_view(),
                    data: data.deep_view(),
                },
            ),
        decreases cursor.remaining().len(),
    {
        let ghost bytes = cursor.remaining();
        let tag = match cursor.read_u8() {
            Ok(value) => value,
            Err(e) => { return Err(e); },
        };
        let length = match cursor.read_u32_be() {
            Ok(value) => value,
            Err(e) => { return Err(e); },
        };
        assert(cursor.remaining() =~= bytes.skip(5));
        if tag == TAG_HEADER {
            let block = match Header::from_raw_data(&mut cursor, length) {
                Ok(block) => block,
                Err(e) => { return Err(e); },
            };
            if header.is_some() {
                return Err(MalformedFileError::new(ErrorKind::DuplicateHeader));
            }
            header = Some(block);
        } else if tag == TAG_COMMENT {
            let block = match Comment::from_raw_data(&mut cursor, length) {
                Ok(block) => block,
                Err(e) => { return Err(e); },
            };
            let ghost before = comments.deep_view();
            comments.push(block);
            assert(comments.deep_view() =~= before.push(block@));
        } else if tag == TAG_DATA {
            let block = match DataBlock::from_raw_data(&mut cursor, length) {
                Ok(block) => block,
                Err(e) => { return Err(e); },
            };
            let ghost before = data.deep_view();
            data.push(block);
            assert(data.deep_view() =~= before.push(block@));
        } else {
            match cursor.read_n(length as usize) {
                Ok(_) => {},
                Err(e) => { return Err(e); },
            }
        }
    }
    Ok((header, comments, data, None))
}

/// The bits one pixel takes in the raw data: one for black and white, eight for
/// greyscale and for a palette index, twenty-four for colour. Black-and-white rows are
/// not padded to whole bytes. Zero for a pixel type that does not exist.
pub open spec fn bits_per_pixel(pixel_type: u8) -> nat {
    if pixel_type == 0 {
        1
    } else if pixel_type == 1 || pixel_type == 2 {
        8
    } else if pixel_type == 3 {
        24
    } else {
        0
    }
}

/// `total_bytes` of raw data cover every pixel of an image of this size and pixel type.
pub open spec fn enough_data(header: Header, total_bytes: nat) -> bool {
    8 * total_bytes >= header.width * header.height * bits_per_pixel(header.pixel_type)
}

/// The raw-data payloads of a file laid end to end, in file order.
pub open spec fn raw_data(blocks: Seq<Seq<u8>>) -> Seq<u8> {
    blocks.flatten()
}

/// The verdict on the blocks of one file. The rules apply in this order: a header must
/// be there; its pixel type must be one of the four; a palette-indexed image needs a
/// palette; the raw data must cover the image.
pub open spec fn integrity(header: Option<Header>, total_bytes: nat, has_palette: bool) -> Result<
    (),
    ErrorKind,
> {
    match header {
        None => Err(ErrorKind::MissingHeader),
        Some(h) => if h.pixel_type > 3 {
            Err(ErrorKind::InvalidPixelType)
        } else if h.pixel_type == 2 && !has_palette {
            Err(ErrorKind::MissingPalette)
        } else if !enough_data(h, total_bytes) {
            Err(ErrorKind::InsufficientData)
        } else {
            Ok(())
        },
    }
}

/// The number of raw-data bytes in `blocks`, all payloads together.
pub fn total_data_len(blocks: &Vec<DataBlock>) -> (total: u128)
    ensures
        total == raw_data(blocks.deep_view()).len(),
{
    let mut total: u128 = 0;
    let mut i: usize = 0;
    while i < blocks.len()
        invariant
            i <= blocks.len(),
            total == raw_data(blocks.deep_view().take(i as int)).len(),
            total <= i * u32::MAX,
        decreases blocks.len() - i,
    {
        let length = blocks[i].get_length();
        proof {
            let seen = blocks.deep_view().take(i as int);
            assert(blocks.deep_view().take(i + 1) =~= seen.push(blocks[i as int]@));
            seen.lemma_flatten_push(blocks[i as int]@);
        }
        total = total + length as u128;
        i += 1;
    }
    assert(blocks.deep_view().take(i as int) =~= blocks.deep_view());
    total
}

/// Checks the blocks of one file against each other, after parsing and before the image
/// is rebuilt. Nothing is changed.
pub fn validate_file_integrity(
    header: &Option<Header>,
    data: &Vec<DataBlock>,
    palette: &Option<Palette>,
) -> (r: Result<(), MalformedFileError>)
    ensures
        match r {
            Ok(_) => integrity(*header, raw_data(data.deep_view()).len(), palette is Some) is Ok,
            Err(e) => integrity(*header, raw_data(data.deep_view()).len(), palette is Some)
                == Err::<(), ErrorKind>(e@),
        },
{
    let h = match header {
        None => { return Err(MalformedFileError::new(ErrorKind::MissingHeader)); },
        Some(h) => h,
    };
    if h.pixel_type > 3 {
        return Err(MalformedFileError::new(ErrorKind::InvalidPixelType));
    }
    if h.pixel_type == 2 && palette.is_none() {
        return Err(MalformedFileError::new(ErrorKind::MissingPalette));
    }
    let total = total_data_len(data);
    if !covers(h, total) {
        return Err(MalformedFileError::new(ErrorKind::InsufficientData));
    }
    Ok(())
}

/// Whether `total_bytes` of raw data cover the image that `header` announces.
pub fn covers(header: &Header, total_bytes: u128) -> (enough: bool)
    ensures
        enough == enough_data(*header, total_bytes as nat),
{
    let bits: u128 = if header.pixel_type == 0 {
        1
    } else if header.pixel_type == 1 || header.pixel_type == 2 {
        8
    } else if header.pixel_type == 3 {
        24
    } else {
        0
    };
    assert(header.width * header.height <= 0xffff_ffff * 0xffff_ffff) by (nonlinear_arith);
    let pixels: u128 = (header.width as u128) * (header.height as u128);
    let needed_bytes: u128 = (pixels * bits + 7) / 8;
    total_bytes >= needed_bytes
}

} // verus!
