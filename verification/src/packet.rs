use vstd::prelude::*;
use vstd::arithmetic::div_mod::{lemma_div_is_ordered, lemma_div_is_ordered_by_denominator};
use crate::config::Constants;
use crate::fountain::{
    coded_symbols, coder_takes, div_ceil, encodable, encode_symbols, rows, source_blocks,
    source_symbols, symbol_len, symbol_total, MAX_BLOCK_SYMBOLS, MAX_SOURCE_BLOCKS,
    SYMBOL_ID_LEN,
};

verus! {

/// First payload length that the length header cannot hold: its top bit is
/// the format marker.
pub const PAYLOAD_LIMIT: usize = 0x8000_0000;

/// Most bytes that one matrix code carries in binary mode at the lowest
/// error-correction strength.
pub const MAX_PACKET_LEN: usize = 2953;

/// Bytes of the length header in front of every packet.
pub const HEADER_LEN: usize = 4;

/// Why a payload could not be turned into packets.
#[derive(Debug, Clone, Copy, PartialEq, Eq)]
pub enum PacketizeError {
    /// The payload length does not fit in 31 bits.
    PayloadTooLarge,
    /// The erasure coder does not take the payload: it is empty, the symbol
    /// size is zero, or it needs more source blocks than the coder numbers.
    Unencodable,
    /// The coder handed out symbols of different lengths.
    UnequalPacketLength,
    /// A packet is longer than a matrix code can carry.
    PacketTooLargeForMatrix { len: usize, limit: usize },
}

/// The four bytes in front of every packet of a payload of `len` bytes: the
/// marker bit and the length in 31 bits, big-endian.
pub open spec fn header_bytes(len: int) -> Seq<u8>
    recommends
        0 <= len < 0x8000_0000,
{
    let v = len + 0x8000_0000;
    seq![
        (v / 0x100_0000) as u8,
        (v / 0x1_0000 % 0x100) as u8,
        (v / 0x100 % 0x100) as u8,
        (v % 0x100) as u8,
    ]
}

/// The number that the first four bytes of a packet spell, big-endian.
pub open spec fn header_value(packet: Seq<u8>) -> int
    recommends
        packet.len() >= 4,
{
    packet[0] * 0x100_0000 + packet[1] * 0x1_0000 + packet[2] * 0x100 + packet[3]
}

/// Whether the format marker, the top bit of the header, is set.
pub open spec fn header_marker(packet: Seq<u8>) -> bool
    recommends
        packet.len() >= 4,
{
    header_value(packet) >= 0x8000_0000
}

/// The payload length that a packet announces in the low 31 bits of its header.
pub open spec fn header_payload_len(packet: Seq<u8>) -> int
    recommends
        packet.len() >= 4,
{
    header_value(packet) % 0x8000_0000
}

/// Repair symbols asked of the coder for every source block: none for a
/// payload that fits in one symbol, else as many as whole symbols fit in it.
pub open spec fn repair_count(len: int, chunk_size: u16) -> int {
    if len <= chunk_size {
        0
    } else {
        len / (chunk_size as int)
    }
}

/// Every symbol behind the same header.
pub open spec fn framed(header: Seq<u8>, symbols: Seq<Seq<u8>>) -> Seq<Seq<u8>> {
    Seq::new(symbols.len(), |i: int| header + symbols[i])
}

/// All rows are as long as the first.
pub open spec fn equal_lengths(packets: Seq<Seq<u8>>) -> bool {
    forall|i: int| 0 <= i < packets.len() ==> (#[trigger] packets[i]).len() == packets[0].len()
}

/// The packets made of a set of symbols, or the defect found in them.
pub open spec fn checked_frames(header: Seq<u8>, symbols: Seq<Seq<u8>>) -> Result<
    Seq<Seq<u8>>,
    PacketizeError,
>
    recommends
        symbols.len() > 0,
{
    let packets = framed(header, symbols);
    if !equal_lengths(packets) {
        Err(PacketizeError::UnequalPacketLength)
    } else if packets[0].len() > MAX_PACKET_LEN {
        Err(
            PacketizeError::PacketTooLargeForMatrix {
                len: packets[0].len() as usize,
                limit: MAX_PACKET_LEN,
            },
        )
    } else {
        Ok(packets)
    }
}

/// What `make_data_packs` returns for a payload and a symbol size.
pub open spec fn packetized(payload: Seq<u8>, chunk_size: u16) -> Result<
    Seq<Seq<u8>>,
    PacketizeError,
> {
    let len = payload.len() as int;
    if len >= PAYLOAD_LIMIT {
        Err(PacketizeError::PayloadTooLarge)
    } else if !encodable(len, chunk_size) {
        Err(PacketizeError::Unencodable)
    } else {
        checked_frames(
            header_bytes(len),
            coded_symbols(payload, chunk_size, repair_count(len, chunk_size) as u32),
        )
    }
}

/// Packets that a payload gives where it is taken: one per source symbol, and
/// for every source block the repair symbols.
pub open spec fn packet_count(len: int, chunk_size: u16) -> int {
    symbol_total(len, chunk_size, repair_count(len, chunk_size))
}

/// Length of every packet made with a symbol size: header, symbol identifier
/// and symbol.
pub open spec fn packet_len(chunk_size: u16) -> int {
    HEADER_LEN + SYMBOL_ID_LEN + symbol_len(chunk_size)
}

/// The payloads that become packets: short enough for the length header,
/// taken by the coder, and cut into symbols that a matrix code can carry.
pub open spec fn packable(len: int, chunk_size: u16) -> bool {
    &&& len < PAYLOAD_LIMIT
    &&& encodable(len, chunk_size)
    &&& packet_len(chunk_size) <= MAX_PACKET_LEN
}

/// The error that a payload which is not `packable` is refused with.
pub open spec fn refusal(len: int, chunk_size: u16) -> PacketizeError {
    if len >= PAYLOAD_LIMIT {
        PacketizeError::PayloadTooLarge
    } else if !encodable(len, chunk_size) {
        PacketizeError::Unencodable
    } else {
        PacketizeError::PacketTooLargeForMatrix {
            len: packet_len(chunk_size) as usize,
            limit: MAX_PACKET_LEN,
        }
    }
}

/// The model of a packetizer outcome.
pub open spec fn outcome_view(out: Result<Vec<Vec<u8>>, PacketizeError>) -> Result<
    Seq<Seq<u8>>,
    PacketizeError,
> {
    match out {
        Ok(packets) => Ok(rows(packets@)),
        Err(e) => Err(e),
    }
}

/// Builds the length header of a payload of `len` bytes.
pub fn length_header(len: u32) -> (out: Vec<u8>)
    requires
        len < 0x8000_0000,
    ensures
        out@ == header_bytes(len as int),
{
    let v: u32 = len + 0x8000_0000;
    let mut out: Vec<u8> = Vec::new();
    out.push((v / 0x100_0000) as u8);
    out.push((v / 0x1_0000 % 0x100) as u8);
    out.push((v / 0x100 % 0x100) as u8);
    out.push((v % 0x100) as u8);
    assert(out@ =~= header_bytes(len as int));
    out
}

/// Repair symbols to ask for, per source block.
pub fn repair_packets_per_block(len: u32, chunk_size: u16) -> (repair: u32)
    requires
        chunk_size > 0,
    ensures
        repair == repair_count(len as int, chunk_size),
{
    if len <= chunk_size as u32 {
        0
    } else {
        len / (chunk_size as u32)
    }
}

/// Puts the length header of a payload of `payload_len` bytes in front of
/// every symbol, then looks at what came of it: the packets must be of one
/// length, and short enough for a matrix code.
pub fn frame_symbols(symbols: &Vec<Vec<u8>>, payload_len: u32) -> (out: Result<
    Vec<Vec<u8>>,
    PacketizeError,
>)
    requires
        symbols@.len() > 0,
        payload_len < 0x8000_0000,
    ensures
        outcome_view(out) == checked_frames(header_bytes(payload_len as int), rows(symbols@)),
{
    let header = length_header(payload_len);
    let ghost want = framed(header@, rows(symbols@));
    let mut packets: Vec<Vec<u8>> = Vec::new();
    let mut i: usize = 0;
    while i < symbols.len()
        invariant
            i <= symbols@.len(),
            packets@.len() == i,
            payload_len < 0x8000_0000,
            header@ == header_bytes(payload_len as int),
            want == framed(header@, rows(symbols@)),
            forall|j: int| 0 <= j < i ==> (#[trigger] packets@[j])@ == want[j],
        decreases symbols@.len() - i,
    {
        let mut packet: Vec<u8> = Vec::new();
        packet.extend_from_slice(header.as_slice());
        packet.extend_from_slice(symbols[i].as_slice());
        assert(packet@ =~= header@ + symbols@[i as int]@);
        packets.push(packet);
        i += 1;
    }
    assert(rows(packets@) =~= want);
    let first_len = packets[0].len();
    let mut k: usize = 0;
    while k < packets.len()
        invariant
            k <= packets@.len(),
            packets@.len() > 0,
            first_len == packets@[0]@.len(),
            forall|j: int| 0 <= j < k ==> (#[trigger] packets@[j])@.len() == first_len,
            rows(packets@) == want,
            payload_len < 0x8000_0000,
            symbols@.len() > 0,
            want == framed(header_bytes(payload_len as int), rows(symbols@)),
        decreases packets@.len() - k,
    {
        if packets[k].len() != first_len {
            assert(want[k as int] == packets@[k as int]@ && want[0] == packets@[0]@);
            assert(!equal_lengths(want));
            return Err(PacketizeError::UnequalPacketLength);
        }
        k += 1;
    }
    assert(equal_lengths(want)) by {
        assert forall|j: int| 0 <= j < want.len() implies (#[trigger] want[j]).len()
            == want[0].len() by {
            assert(want[j] == packets@[j]@);
        }
    }
    assert(want[0] == packets@[0]@);
    if first_len > MAX_PACKET_LEN {
        return Err(PacketizeError::PacketTooLargeForMatrix { len: first_len, limit: MAX_PACKET_LEN });
    }
    Ok(packets)
}

/// An encodable payload has at least one source symbol, and asks for fewer
/// repair symbols than the coder can identify.
proof fn lemma_coder_bounds(len: int, chunk_size: u16)
    requires
        encodable(len, chunk_size),
    ensures
        source_symbols(len, chunk_size) >= 1,
        source_blocks(len, chunk_size) >= 1,
        0 <= repair_count(len, chunk_size) <= source_symbols(len, chunk_size),
        source_symbols(len, chunk_size) <= MAX_BLOCK_SYMBOLS * MAX_SOURCE_BLOCKS,
        packet_count(len, chunk_size) <= u32::MAX,
{
    let size = symbol_len(chunk_size);
    let chunk = chunk_size as int;
    assert(0 < size <= chunk);
    lemma_div_is_ordered(size, len + size - 1, size);
    assert(size / size == 1) by (nonlinear_arith)
        requires
            size > 0,
    ;
    if len > chunk {
        lemma_div_is_ordered_by_denominator(len, size, chunk);
        lemma_div_is_ordered(len, len + size - 1, size);
    }
    let blocks = source_blocks(len, chunk_size);
    let repair = repair_count(len, chunk_size);
    assert(blocks * repair <= 255 * repair) by (nonlinear_arith)
        requires
            0 <= blocks <= 255,
            repair >= 0,
    ;
}

/// Turns a payload into its packets: the symbols that the erasure coder makes
/// of it, with the repair symbols that go with its length, each behind the
/// length header.
pub fn make_data_packs(input: Vec<u8>, constants: &Constants) -> (out: Result<
    Vec<Vec<u8>>,
    PacketizeError,
>)
    ensures
        outcome_view(out) == packetized(input@, constants.chunk_size),
        out is Ok <==> packable(input@.len() as int, constants.chunk_size),
        out matches Err(e) ==> e == refusal(input@.len() as int, constants.chunk_size),
        out matches Ok(packets) ==> {
            &&& 1 <= packets@.len() <= u32::MAX
            &&& packets@.len() == packet_count(input@.len() as int, constants.chunk_size)
            &&& forall|i: int|
                0 <= i < packets@.len() ==> {
                    &&& (#[trigger] packets@[i])@.len() == packet_len(constants.chunk_size)
                    &&& packets@[i]@.subrange(0, HEADER_LEN as int) == header_bytes(
                        input@.len() as int,
                    )
                }
        },
{
    let chunk_size = constants.chunk_size;
    if input.len() >= PAYLOAD_LIMIT {
        return Err(PacketizeError::PayloadTooLarge);
    }
    if !coder_takes(input.len(), chunk_size) {
        return Err(PacketizeError::Unencodable);
    }
    let len = input.len() as u32;
    let repair = repair_packets_per_block(len, chunk_size);
    proof {
        lemma_coder_bounds(len as int, chunk_size);
    }
    let symbols = encode_symbols(input.as_slice(), chunk_size, repair);
    let out = frame_symbols(&symbols, len);
    proof {
        let header = header_bytes(len as int);
        let want = framed(header, rows(symbols@));
        assert forall|i: int| 0 <= i < want.len() implies (#[trigger] want[i]).len()
            == packet_len(chunk_size) && want[i].subrange(0, HEADER_LEN as int) == header by {
            assert(rows(symbols@)[i] == symbols@[i]@);
            assert(want[i].subrange(0, HEADER_LEN as int) =~= header);
        }
        assert(equal_lengths(want));
        if out is Ok {
            let packets = out->Ok_0;
            assert forall|i: int| 0 <= i < packets@.len() implies {
                &&& (#[trigger] packets@[i])@.len() == packet_len(chunk_size)
                &&& packets@[i]@.subrange(0, HEADER_LEN as int) == header
            } by {
                assert(rows(packets@)[i] == want[i]);
            }
            assert(rows(packets@).len() == packets@.len());
            assert(want.len() == symbols@.len());
            assert(packets@.len() == packet_count(len as int, chunk_size));
            assert(1 <= packets@.len() <= u32::MAX);
        }
    }
    out
}

/// A header built for a length spells that length back, under a set marker
/// bit.
pub proof fn header_round_trip(len: int)
    requires
        0 <= len < 0x8000_0000,
    ensures
        header_bytes(len).len() == HEADER_LEN,
        header_marker(header_bytes(len)),
        header_payload_len(header_bytes(len)) == len,
{
}

/// A packet that begins with the header of a payload announces the marker
/// bit and the length of that payload, whatever follows the header.
pub proof fn packet_announces_payload(packet: Seq<u8>, len: int)
    requires
        0 <= len < 0x8000_0000,
        packet.len() >= HEADER_LEN,
        packet.subrange(0, HEADER_LEN as int) == header_bytes(len),
    ensures
        header_marker(packet),
        header_payload_len(packet) == len,
{
    let header = packet.subrange(0, HEADER_LEN as int);
    assert(packet[0] == header[0] && packet[1] == header[1] && packet[2] == header[2] && packet[3]
        == header[3]);
    header_round_trip(len);
}

/// Redundancy grows with the payload. Where the requested symbol size is the
/// one the coder uses (under 64 bytes, or a multiple of 8) and the payload
/// fits in one source block: a payload of one symbol or less gives one packet
/// and no repair symbol, a longer one gives its `ceil(len / size)` source
/// symbols and `floor(len / size)` repair symbols.
pub proof fn redundancy_law(len: int, chunk_size: u16)
    requires
        len > 0,
        chunk_size > 0,
        chunk_size < 64 || chunk_size % 8 == 0,
        source_symbols(len, chunk_size) <= MAX_BLOCK_SYMBOLS,
    ensures
        len <= chunk_size ==> repair_count(len, chunk_size) == 0 && packet_count(len, chunk_size)
            == 1,
        len > chunk_size ==> packet_count(len, chunk_size) == div_ceil(len, chunk_size as int) + len
            / (chunk_size as int),
{
    let chunk = chunk_size as int;
    assert(symbol_len(chunk_size) == chunk);
    let symbols = source_symbols(len, chunk_size);
    lemma_div_is_ordered(chunk, len + chunk - 1, chunk);
    assert(chunk / chunk == 1) by (nonlinear_arith)
        requires
            chunk > 0,
    ;
    assert(source_blocks(len, chunk_size) == 1);
    if len <= chunk {
        assert((len + chunk - 1) / chunk == 1) by (nonlinear_arith)
            requires
                0 < len <= chunk,
        ;
    } else {
        assert(symbol_total(len, chunk_size, len / chunk) == symbols + 1 * (len / chunk));
    }
}

/// Every payload that is not empty and shorter than 2^31 bytes becomes
/// packets where the symbol size is at least 152 and at most 2951 bytes: such
/// symbols are few enough for the coder and short enough for a matrix code.
pub proof fn packetize_succeeds(len: int, chunk_size: u16)
    requires
        0 < len < PAYLOAD_LIMIT,
        152 <= chunk_size <= 2951,
    ensures
        packable(len, chunk_size),
{
    let size = symbol_len(chunk_size);
    assert(152 <= size <= 2944);
    lemma_div_is_ordered_by_denominator(len + size - 1, 152, size);
    assert(source_symbols(len, chunk_size) <= (len + size - 1) / 152);
    assert((len + size - 1) / 152 <= (0x7fff_ffff + 2943) / 152);
}

/// A symbol size of 2952 bytes or more gives packets that no matrix code can
/// carry, whatever the payload.
pub proof fn large_symbols_do_not_fit(len: int, chunk_size: u16)
    requires
        chunk_size >= 2952,
    ensures
        !packable(len, chunk_size),
        packet_len(chunk_size) > MAX_PACKET_LEN,
{
}

} // verus!
