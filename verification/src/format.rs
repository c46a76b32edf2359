//! The layout of a file, written down in the direction opposite to parsing: what bytes a
//! run of chunks makes. The lemmas here show that the parser reads those bytes back as
//! the chunks they were made from, and what it answers to the malformed files that the
//! layout rules out.

use vstd::prelude::*;
use crate::cursor::be_u32;
use crate::errors::ErrorKind;
use crate::parser::{
    has_magic, header_of, parse_chunks, parse_file, Header, ParsedBlocks, HEADER_LENGTH,
    MAGIC_BYTES, TAG_COMMENT, TAG_DATA, TAG_HEADER,
};
use crate::text::latin1;

verus! {

/// The four bytes of `value`, most significant first.
pub open spec fn be_bytes(value: u32) -> Seq<u8> {
    seq![
        (value / 0x100_0000) as u8,
        (value / 0x1_0000 % 0x100) as u8,
        (value / 0x100 % 0x100) as u8,
        (value % 0x100) as u8,
    ]
}

/// One chunk before it is laid out: its tag and its payload.
pub struct Chunk {
    pub tag: u8,
    pub payload: Seq<u8>,
}

impl Chunk {
    /// The payload is short enough for its length to fit the length field.
    pub open spec fn wf(self) -> bool {
        self.payload.len() <= u32::MAX
    }

    /// The bytes of the chunk in a file: tag, payload length, payload.
    pub open spec fn bytes(self) -> Seq<u8> {
        seq![self.tag] + be_bytes(self.payload.len() as u32) + self.payload
    }
}

/// No chunk of the run is a header chunk.
pub open spec fn no_header_in(chunks: Seq<Chunk>) -> bool {
    forall|i: int| 0 <= i < chunks.len() ==> (#[trigger] chunks[i]).tag != TAG_HEADER
}

/// Every chunk of the run is well formed.
pub open spec fn all_wf(chunks: Seq<Chunk>) -> bool {
    forall|i: int| 0 <= i < chunks.len() ==> (#[trigger] chunks[i]).wf()
}

/// The bytes of a run of chunks, one after the other.
pub open spec fn chunks_bytes(chunks: Seq<Chunk>) -> Seq<u8>
    decreases chunks.len(),
{
    if chunks.len() == 0 {
        Seq::empty()
    } else {
        chunks.first().bytes() + chunks_bytes(chunks.drop_first())
    }
}

/// The bytes of a whole file: the magic prefix, then the chunks.
pub open spec fn file_bytes(chunks: Seq<Chunk>) -> Seq<u8> {
    MAGIC_BYTES@ + chunks_bytes(chunks)
}

/// The payload of a header chunk.
pub open spec fn header_payload(header: Header) -> Seq<u8> {
    be_bytes(header.width) + be_bytes(header.height) + seq![header.pixel_type]
}

/// Nothing found yet.
pub open spec fn no_blocks() -> ParsedBlocks {
    ParsedBlocks { header: None, comments: Seq::empty(), data: Seq::empty() }
}

/// What one well-formed chunk adds to the blocks found before it.
pub open spec fn absorb(found: ParsedBlocks, chunk: Chunk) -> Result<ParsedBlocks, ErrorKind> {
    if chunk.tag == TAG_HEADER {
        if chunk.payload.len() != HEADER_LENGTH {
            Err(ErrorKind::MalformedHeader)
        } else if found.header is Some {
            Err(ErrorKind::DuplicateHeader)
        } else {
            Ok(
                ParsedBlocks {
                    header: Some(header_of(chunk.payload)),
                    comments: found.comments,
                    data: found.data,
                },
            )
        }
    } else if chunk.tag == TAG_COMMENT {
        Ok(
            ParsedBlocks {
                header: found.header,
                comments: found.comments.push(latin1(chunk.payload)),
                data: found.data,
            },
        )
    } else if chunk.tag == TAG_DATA {
        Ok(
            ParsedBlocks {
                header: found.header,
                comments: found.comments,
                data: found.data.push(chunk.payload),
            },
        )
    } else {
        Ok(found)
    }
}

/// What a run of well-formed chunks adds, in order; the first chunk that is refused
/// decides.
pub open spec fn absorb_all(found: ParsedBlocks, chunks: Seq<Chunk>) -> Result<
    ParsedBlocks,
    ErrorKind,
>
    decreases chunks.len(),
{
    if chunks.len() == 0 {
        Ok(found)
    } else {
        match absorb(found, chunks.first()) {
            Err(kind) => Err(kind),
            Ok(next) => absorb_all(next, chunks.drop_first()),
        }
    }
}

/// Reading four bytes big-endian undoes writing them.
pub proof fn lemma_be_round_trip(value: u32)
    ensures
        be_bytes(value).len() == 4,
        be_u32(be_bytes(value)) == value,
{
}

/// A header payload is nine bytes and decodes to the header it was made from.
pub proof fn lemma_header_round_trip(header: Header)
    ensures
        header_payload(header).len() == 9,
        header_of(header_payload(header)) == header,
{
}

/// The parser takes one well-formed chunk at the front of the bytes for what it is, and
/// goes on with the bytes behind it.
pub proof fn lemma_parse_chunk(chunk: Chunk, rest: Seq<u8>, found: ParsedBlocks)
    requires
        chunk.wf(),
    ensures
        parse_chunks(chunk.bytes() + rest, found) == match absorb(found, chunk) {
            Err(kind) => Err(kind),
            Ok(next) => parse_chunks(rest, next),
        },
{
    let length = chunk.payload.len() as u32;
    let bytes = chunk.bytes() + rest;
    let body = bytes.skip(5);
    lemma_be_round_trip(length);
    assert(body.take(length as int) =~= chunk.payload);
    assert(body.skip(length as int) =~= rest);
}

/// The parser takes a run of well-formed chunks at the front of the bytes for what they
/// are, and goes on with the bytes behind them.
pub proof fn lemma_parse_chunks(chunks: Seq<Chunk>, rest: Seq<u8>, found: ParsedBlocks)
    requires
        all_wf(chunks),
    ensures
        parse_chunks(chunks_bytes(chunks) + rest, found) == match absorb_all(found, chunks) {
            Err(kind) => Err(kind),
            Ok(next) => parse_chunks(rest, next),
        },
    decreases chunks.len(),
{
    if chunks.len() > 0 {
        let first = chunks.first();
        let others = chunks.drop_first();
        assert(chunks_bytes(chunks) + rest =~= first.bytes() + (chunks_bytes(others) + rest));
        lemma_parse_chunk(first, chunks_bytes(others) + rest, found);
        if let Ok(next) = absorb(found, first) {
            lemma_parse_chunks(others, rest, next);
        }
    }
}

/// A file made of the magic prefix and well-formed chunks parses to what the chunks add
/// up to.
pub proof fn lemma_parse_file(chunks: Seq<Chunk>)
    requires
        all_wf(chunks),
    ensures
        parse_file(file_bytes(chunks)) == absorb_all(no_blocks(), chunks),
{
    let bytes = file_bytes(chunks);
    assert(bytes.take(8) =~= MAGIC_BYTES@);
    assert(bytes.skip(8) =~= chunks_bytes(chunks) + Seq::<u8>::empty());
    lemma_parse_chunks(chunks, Seq::empty(), no_blocks());
}

/// The magic check looks at the first eight bytes and at nothing else: the prefix alone
/// passes, and bytes behind the first eight never change the answer.
pub proof fn lemma_magic_ignores_tail(bytes: Seq<u8>, tail: Seq<u8>)
    ensures
        has_magic(MAGIC_BYTES@),
        has_magic(MAGIC_BYTES@ + tail),
        bytes.len() >= 8 ==> has_magic(bytes + tail) == has_magic(bytes),
{
    assert(MAGIC_BYTES@.take(8) =~= MAGIC_BYTES@);
    assert((MAGIC_BYTES@ + tail).take(8) =~= MAGIC_BYTES@);
    if bytes.len() >= 8 {
        assert((bytes + tail).take(8) =~= bytes.take(8));
    }
}

/// Each of the first eight bytes counts: change any one of them in a buffer that passes
/// the magic check and the buffer fails it.
pub proof fn lemma_magic_every_byte_counts(bytes: Seq<u8>, i: int, byte: u8)
    requires
        has_magic(bytes),
        0 <= i < 8,
        byte != bytes[i],
    ensures
        !has_magic(bytes.update(i, byte)),
{
}

/// The chunk that holds `header`.
pub open spec fn header_chunk(header: Header) -> Chunk {
    Chunk { tag: TAG_HEADER, payload: header_payload(header) }
}

/// A file made of a header chunk, a comment chunk and a raw-data chunk parses to that
/// header, that comment and that payload.
pub proof fn lemma_round_trip(header: Header, comment: Seq<u8>, data: Seq<u8>)
    requires
        comment.len() <= u32::MAX,
        data.len() <= u32::MAX,
    ensures
        parse_file(
            file_bytes(
                seq![
                    header_chunk(header),
                    Chunk { tag: TAG_COMMENT, payload: comment },
                    Chunk { tag: TAG_DATA, payload: data },
                ],
            ),
        ) == Ok::<ParsedBlocks, ErrorKind>(
            ParsedBlocks {
                header: Some(header),
                comments: seq![latin1(comment)],
                data: seq![data],
            },
        ),
{
    let chunks = seq![
        header_chunk(header),
        Chunk { tag: TAG_COMMENT, payload: comment },
        Chunk { tag: TAG_DATA, payload: data },
    ];
    lemma_header_round_trip(header);
    lemma_parse_file(chunks);
    let two = chunks.drop_first();
    let one = two.drop_first();
    let after_header = absorb(no_blocks(), chunks.first())->Ok_0;
    let after_comment = absorb(after_header, two.first())->Ok_0;
    let after_data = absorb(after_comment, one.first())->Ok_0;
    assert(absorb_all(after_data, one.drop_first()) == Ok::<ParsedBlocks, ErrorKind>(after_data));
    assert(absorb_all(after_comment, one) == Ok::<ParsedBlocks, ErrorKind>(after_data));
    assert(absorb_all(after_header, two) == Ok::<ParsedBlocks, ErrorKind>(after_data));
    assert(after_data.data =~= seq![data]);
}

/// Chunks that are not headers are never refused, and leave the header as it was.
pub proof fn lemma_absorb_without_header(found: ParsedBlocks, chunks: Seq<Chunk>)
    requires
        no_header_in(chunks),
    ensures
        absorb_all(found, chunks) is Ok,
        absorb_all(found, chunks)->Ok_0.header == found.header,
    decreases chunks.len(),
{
    if chunks.len() > 0 {
        lemma_absorb_without_header(absorb(found, chunks.first())->Ok_0, chunks.drop_first());
    }
}

/// A second header chunk is an error, whatever stands before the first, between the two
/// and behind the second: the file is refused with `DuplicateHeader`, and neither header
/// is kept.
pub proof fn lemma_duplicate_header(
    before: Seq<Chunk>,
    first: Header,
    between: Seq<Chunk>,
    second: Header,
    tail: Seq<u8>,
)
    requires
        all_wf(before),
        all_wf(between),
        no_header_in(before),
        no_header_in(between),
    ensures
        parse_file(
            MAGIC_BYTES@ + chunks_bytes(before) + header_chunk(first).bytes() + chunks_bytes(
                between,
            ) + header_chunk(second).bytes() + tail,
        ) == Err::<ParsedBlocks, ErrorKind>(ErrorKind::DuplicateHeader),
{
    let bytes = MAGIC_BYTES@ + chunks_bytes(before) + header_chunk(first).bytes() + chunks_bytes(
        between,
    ) + header_chunk(second).bytes() + tail;
    let from_second = header_chunk(second).bytes() + tail;
    let from_between = chunks_bytes(between) + from_second;
    let from_first = header_chunk(first).bytes() + from_between;
    assert(bytes.take(8) =~= MAGIC_BYTES@);
    assert(bytes.skip(8) =~= chunks_bytes(before) + from_first);
    lemma_header_round_trip(first);
    lemma_header_round_trip(second);
    lemma_absorb_without_header(no_blocks(), before);
    lemma_parse_chunks(before, from_first, no_blocks());
    let found0 = absorb_all(no_blocks(), before)->Ok_0;
    lemma_parse_chunk(header_chunk(first), from_between, found0);
    let found1 = absorb(found0, header_chunk(first))->Ok_0;
    lemma_absorb_without_header(found1, between);
    lemma_parse_chunks(between, from_second, found1);
    let found2 = absorb_all(found1, between)->Ok_0;
    lemma_parse_chunk(header_chunk(second), tail, found2);
}

/// A chunk that declares more payload than the bytes behind it hold is refused with
/// `TruncatedInput`. The one chunk this does not hold of is a header chunk that declares
/// a length other than nine: its length is refused first.
pub proof fn lemma_truncated_chunk(tag: u8, length: u32, body: Seq<u8>, found: ParsedBlocks)
    requires
        body.len() < length,
        tag == TAG_HEADER ==> length == HEADER_LENGTH,
    ensures
        parse_chunks(seq![tag] + be_bytes(length) + body, found) == Err::<
            ParsedBlocks,
            ErrorKind,
        >(ErrorKind::TruncatedInput),
{
}

/// A file that ends inside a chunk, after chunks that were accepted, is refused with
/// `TruncatedInput`: whether it ends inside the tag and length fields or inside the
/// payload.
pub proof fn lemma_truncated_file(chunks: Seq<Chunk>, tag: u8, length: u32, body: Seq<u8>, cut: int)
    requires
        all_wf(chunks),
        absorb_all(no_blocks(), chunks) is Ok,
        body.len() < length,
        tag == TAG_HEADER ==> length == HEADER_LENGTH,
        1 <= cut < 5,
    ensures
        parse_file(file_bytes(chunks) + (seq![tag] + be_bytes(length) + body)) == Err::<
            ParsedBlocks,
            ErrorKind,
        >(ErrorKind::TruncatedInput),
        parse_file(file_bytes(chunks) + (seq![tag] + be_bytes(length)).take(cut)) == Err::<
            ParsedBlocks,
            ErrorKind,
        >(ErrorKind::TruncatedInput),
{
    let found = absorb_all(no_blocks(), chunks)->Ok_0;
    let whole = seq![tag] + be_bytes(length) + body;
    let piece = (seq![tag] + be_bytes(length)).take(cut);
    assert((file_bytes(chunks) + whole).take(8) =~= MAGIC_BYTES@);
    assert((file_bytes(chunks) + whole).skip(8) =~= chunks_bytes(chunks) + whole);
    assert((file_bytes(chunks) + piece).take(8) =~= MAGIC_BYTES@);
    assert((file_bytes(chunks) + piece).skip(8) =~= chunks_bytes(chunks) + piece);
    lemma_parse_chunks(chunks, whole, no_blocks());
    lemma_parse_chunks(chunks, piece, no_blocks());
    lemma_truncated_chunk(tag, length, body, found);
}

/// A chunk whose tag is none of header, comment and raw data is stepped over: the file
/// parses as it would without the chunk.
pub proof fn lemma_unknown_chunk_skipped(chunk: Chunk, rest: Seq<u8>, found: ParsedBlocks)
    requires
        chunk.wf(),
        chunk.tag != TAG_HEADER,
        chunk.tag != TAG_COMMENT,
        chunk.tag != TAG_DATA,
    ensures
        parse_chunks(chunk.bytes() + rest, found) == parse_chunks(rest, found),
{
    lemma_parse_chunk(chunk, rest, found);
}

/// Parsing fails in four ways only: on the magic prefix, on a field or payload that runs
/// past the end, on a header of the wrong length, and on a second header.
pub proof fn lemma_parse_failures(bytes: Seq<u8>)
    ensures
        parse_file(bytes) matches Err(kind) ==> kind == ErrorKind::BadMagic || kind
            == ErrorKind::TruncatedInput || kind == ErrorKind::MalformedHeader || kind
            == ErrorKind::DuplicateHeader,
{
    if has_magic(bytes) {
        lemma_chunk_failures(bytes.skip(8), no_blocks());
    }
}

/// Reading chunks fails in three ways only: on a field or payload that runs past the
/// end, on a header of the wrong length, and on a second header.
pub proof fn lemma_chunk_failures(bytes: Seq<u8>, found: ParsedBlocks)
    ensures
        parse_chunks(bytes, found) matches Err(kind) ==> kind == ErrorKind::TruncatedInput || kind
            == ErrorKind::MalformedHeader || kind == ErrorKind::DuplicateHeader,
    decreases bytes.len(),
{
    if bytes.len() >= 5 {
        let tag = bytes[0];
        let length = be_u32(bytes.subrange(1, 5)) as u32;
        let body = bytes.skip(5);
        let rest = body.skip(length as int);
        if body.len() >= length {
            if tag == TAG_HEADER {
                if length == HEADER_LENGTH && found.header is None {
                    lemma_chunk_failures(
                        rest,
                        ParsedBlocks {
                            header: Some(header_of(body.take(HEADER_LENGTH as int))),
                            comments: found.comments,
                            data: found.data,
                        },
                    );
                }
            } else if tag == TAG_COMMENT {
                lemma_chunk_failures(
                    rest,
                    ParsedBlocks {
                        header: found.header,
                        comments: found.comments.push(latin1(body.take(length as int))),
                        data: found.data,
                    },
                );
            } else if tag == TAG_DATA {
                lemma_chunk_failures(
                    rest,
                    ParsedBlocks {
                        header: found.header,
                        comments: found.comments,
                        data: found.data.push(body.take(length as int)),
                    },
                );
            } else {
                lemma_chunk_failures(rest, found);
            }
        }
    }
}

} // verus!
