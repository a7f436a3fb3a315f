use vstd::prelude::*;

verus! {

/// Most source symbols that one source block of the coder holds.
pub const MAX_BLOCK_SYMBOLS: u64 = 56403;

/// Most source blocks that the coder can number.
pub const MAX_SOURCE_BLOCKS: u64 = 255;

/// Bytes that the coder puts in front of every symbol to identify it.
pub const SYMBOL_ID_LEN: usize = 4;

/// `ceil(a / b)` for a positive `b`.
pub open spec fn div_ceil(a: int, b: int) -> int
    recommends
        b > 0,
{
    (a + b - 1) / b
}

/// Length of every symbol that the coder makes for a requested size: from 64
/// bytes on, the request is rounded down to a multiple of 8.
pub open spec fn symbol_len(chunk_size: u16) -> int {
    if chunk_size >= 64 {
        chunk_size - chunk_size % 8
    } else {
        chunk_size as int
    }
}

/// Source symbols that a payload of `len` bytes is cut into.
pub open spec fn source_symbols(len: int, chunk_size: u16) -> int
    recommends
        chunk_size > 0,
{
    div_ceil(len, symbol_len(chunk_size))
}

/// Source blocks that the symbols of a payload are spread over.
pub open spec fn source_blocks(len: int, chunk_size: u16) -> int
    recommends
        chunk_size > 0,
{
    div_ceil(source_symbols(len, chunk_size), MAX_BLOCK_SYMBOLS as int)
}

/// The payloads that the coder takes: not empty, with a positive symbol size,
/// and needing no more source blocks than it can number.
pub open spec fn encodable(len: int, chunk_size: u16) -> bool {
    &&& len > 0
    &&& chunk_size > 0
    &&& source_blocks(len, chunk_size) <= MAX_SOURCE_BLOCKS
}

/// The symbol length for a requested size.
pub fn symbol_size(chunk_size: u16) -> (size: u16)
    ensures
        size == symbol_len(chunk_size),
        chunk_size > 0 ==> 0 < size <= chunk_size,
{
    if chunk_size >= 64 {
        chunk_size - chunk_size % 8
    } else {
        chunk_size
    }
}

/// Tests `encodable`.
pub fn coder_takes(len: usize, chunk_size: u16) -> (ok: bool)
    ensures
        ok == encodable(len as int, chunk_size),
{
    if len == 0 || chunk_size == 0 {
        return false;
    }
    let size: u128 = symbol_size(chunk_size) as u128;
    let symbols: u128 = (len as u128 + size - 1) / size;
    let blocks: u128 = (symbols + (MAX_BLOCK_SYMBOLS as u128) - 1) / (MAX_BLOCK_SYMBOLS as u128);
    blocks <= MAX_SOURCE_BLOCKS as u128
}

/// Symbols that come out for a payload: its source symbols, and `repair` more
/// for every source block.
pub open spec fn symbol_total(len: int, chunk_size: u16, repair: int) -> int
    recommends
        chunk_size > 0,
{
    source_symbols(len, chunk_size) + source_blocks(len, chunk_size) * repair
}

/// The serialized symbols that the coder makes of a payload, block by block,
/// the source symbols of a block before its repair symbols.
pub uninterp spec fn coded_symbols(data: Seq<u8>, chunk_size: u16, repair: u32) -> Seq<Seq<u8>>;

/// The byte rows that a vector of byte vectors holds.
pub open spec fn rows(v: Seq<Vec<u8>>) -> Seq<Seq<u8>> {
    Seq::new(v.len(), |i: int| v[i]@)
}

/// Calls `raptorq::Encoder::with_defaults` on the payload and the symbol size,
/// `Encoder::get_encoded_packets` with the repair count, and
/// `EncodingPacket::serialize` on every packet. Not proved: that the outcome is
/// a function of the three arguments; that it holds the source symbols of the
/// payload and `repair` symbols more per source block; and that every
/// serialized symbol is the four identifying bytes followed by `symbol_len`
/// bytes of data. The `requires` keeps to the payloads on which the coder does
/// not give up: symbol identifiers stay under 2^24.
#[verifier::external_body]
pub(crate) fn encode_symbols(data: &[u8], chunk_size: u16, repair: u32) -> (out: Vec<Vec<u8>>)
    requires
        encodable(data@.len() as int, chunk_size),
        MAX_BLOCK_SYMBOLS + repair < 0x100_0000,
    ensures
        rows(out@) == coded_symbols(data@, chunk_size, repair),
        out@.len() == symbol_total(data@.len() as int, chunk_size, repair as int),
        forall|i: int|
            0 <= i < out@.len() ==> (#[trigger] out@[i])@.len() == SYMBOL_ID_LEN + symbol_len(
                chunk_size,
            ),
{
    raptorq::Encoder::with_defaults(data, chunk_size)
        .get_encoded_packets(repair)
        .iter()
        .map(|packet| packet.serialize())
        .collect()
}

} // verus!
