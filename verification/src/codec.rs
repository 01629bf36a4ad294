//! Frame codec: pure functions that build and check the wire frames
//! `START | STATION | LEN | CMD | PAYLOAD | BCC | END`, where `LEN` is one
//! more than the payload length, `BCC` is the exclusive-or of every byte
//! from `STATION` through the last payload byte, and `START`/`END` are the
//! fixed markers `0xAA`/`0xBB`.

use vstd::prelude::*;

verus! {

/// Fixed start-of-frame marker.
pub const START_MARKER: u8 = 0xAA;

/// Fixed end-of-frame marker.
pub const END_MARKER: u8 = 0xBB;

/// The closed set of commands the device understands.
#[derive(Clone, Copy, Debug, PartialEq, Eq, Structural)]
pub enum Cmd {
    /// Identity query: asks the device for its 8-byte serial number.
    SysGetSernum,
    /// Read stored data (slots or configuration, chosen by the selector bytes).
    Read,
    /// Write one data slot.
    Write,
}

impl Cmd {
    /// The fixed numeric opcode of each command.
    pub open spec fn opcode_spec(self) -> u8 {
        match self {
            Cmd::SysGetSernum => 0x83,
            Cmd::Read => 0x90,
            Cmd::Write => 0x91,
        }
    }

    /// Numeric opcode placed in the `CMD` byte of a request frame.
    pub fn opcode(self) -> (r: u8)
        ensures
            r == self.opcode_spec(),
    {
        match self {
            Cmd::SysGetSernum => 0x83,
            Cmd::Read => 0x90,
            Cmd::Write => 0x91,
        }
    }
}

/// Decoding failure: start marker, end marker, or checksum mismatch.
/// A frame that fails the check is never partially interpreted.
#[derive(Clone, Copy, Debug, PartialEq, Eq, Structural)]
pub enum FrameError {
    Corrupted,
}

/// Exclusive-or of all bytes of a sequence, with 0 for the empty sequence.
pub open spec fn xor_all(s: Seq<u8>) -> u8
    decreases s.len(),
{
    if s.len() == 0 {
        0u8
    } else {
        (xor_all(s.drop_last()) ^ s.last()) as u8
    }
}

proof fn lemma_xor_all_push(s: Seq<u8>, x: u8)
    ensures
        xor_all(s.push(x)) == (xor_all(s) ^ x) as u8,
{
    assert(s.push(x).drop_last() =~= s);
    assert(s.push(x).last() == x);
}

/// Exclusive-oring one byte of a sequence with `m` exclusive-ors the fold
/// of the whole sequence with `m`.
proof fn lemma_xor_all_update(s: Seq<u8>, j: int, m: u8)
    requires
        0 <= j < s.len(),
    ensures
        xor_all(s.update(j, (s[j] ^ m) as u8)) == (xor_all(s) ^ m) as u8,
    decreases s.len(),
{
    let t = s.update(j, (s[j] ^ m) as u8);
    if j == s.len() - 1 {
        assert(t.drop_last() =~= s.drop_last());
        let a = xor_all(s.drop_last());
        let b = s[j];
        assert((a ^ (b ^ m)) as u8 == ((a ^ b) ^ m) as u8) by (bit_vector);
    } else {
        assert(t.drop_last() =~= s.drop_last().update(j, (s[j] ^ m) as u8));
        lemma_xor_all_update(s.drop_last(), j, m);
        let a = xor_all(s.drop_last());
        let b = s.last();
        assert(((a ^ m) ^ b) as u8 == ((a ^ b) ^ m) as u8) by (bit_vector);
    }
}

/// The checksum of a frame: exclusive-or of station, length byte, command
/// byte and payload.
pub open spec fn bcc_of(station: u8, opcode: u8, payload: Seq<u8>) -> u8 {
    xor_all(seq![station, (payload.len() + 1) as u8, opcode] + payload)
}

/// The full wire frame for a request or reply.
pub open spec fn frame_of(station: u8, opcode: u8, payload: Seq<u8>) -> Seq<u8> {
    seq![START_MARKER, station, (payload.len() + 1) as u8, opcode] + payload
        + seq![bcc_of(station, opcode, payload), END_MARKER]
}

/// Position of the checksum byte, derived from the length byte.
pub open spec fn bcc_pos(data: Seq<u8>) -> int {
    3 + data[2]
}

/// The buffer is long enough to hold the frame its length byte announces,
/// and the length byte covers at least the command byte. Reading outside
/// these bounds is undefined, so decoding demands them.
pub open spec fn frame_shape_ok(data: Seq<u8>) -> bool {
    &&& data.len() >= 3
    &&& data[2] >= 1
    &&& data.len() >= bcc_pos(data) + 2
}

/// Integrity gate: both markers in place and the recomputed checksum equal
/// to the transmitted one.
pub open spec fn frame_ok(data: Seq<u8>) -> bool {
    &&& data[0] == START_MARKER
    &&& data[bcc_pos(data) + 1] == END_MARKER
    &&& xor_all(data.subrange(1, bcc_pos(data))) == data[bcc_pos(data)]
}

/// Status byte of a well-formed reply frame.
pub open spec fn status_of(data: Seq<u8>) -> u8 {
    data[3]
}

/// Payload region of a well-formed reply frame.
pub open spec fn payload_of(data: Seq<u8>) -> Seq<u8> {
    data.subrange(4, bcc_pos(data))
}

/// Encode a command frame. The length byte is one more than the payload
/// length, so the payload may hold at most 127 bytes.
pub fn encode(station: u8, opcode: u8, payload: &Vec<u8>) -> (r: Vec<u8>)
    requires
        payload@.len() <= 127,
    ensures
        r@ == frame_of(station, opcode, payload@),
        r@.len() == payload@.len() + 6,
{
    let len_byte: u8 = 1 + payload.len() as u8;
    let mut body: Vec<u8> = Vec::new();
    body.push(station);
    body.push(len_byte);
    body.push(opcode);
    let mut i: usize = 0;
    while i < payload.len()
        invariant
            i <= payload@.len(),
            payload@.len() <= 127,
            body@ == seq![station, (payload@.len() + 1) as u8, opcode] + payload@.subrange(
                0,
                i as int,
            ),
        decreases payload@.len() - i,
    {
        body.push(payload[i]);
        i += 1;
        proof {
            assert(seq![station, (payload@.len() + 1) as u8, opcode] + payload@.subrange(
                0,
                i - 1,
            ).push(payload@[i - 1]) =~= seq![station, (payload@.len() + 1) as u8, opcode]
                + payload@.subrange(0, i as int));
        }
    }
    proof {
        assert(payload@.subrange(0, payload@.len() as int) =~= payload@);
    }
    let bcc = xor_range(&body, 0, body.len());
    proof {
        assert(body@.subrange(0, body@.len() as int) =~= body@);
    }
    let mut r: Vec<u8> = Vec::new();
    r.push(START_MARKER);
    let mut j: usize = 0;
    while j < body.len()
        invariant
            j <= body@.len(),
            r@ == seq![START_MARKER] + body@.subrange(0, j as int),
        decreases body@.len() - j,
    {
        r.push(body[j]);
        j += 1;
        proof {
            assert(seq![START_MARKER] + body@.subrange(0, j - 1).push(body@[j - 1]) =~= seq![
                START_MARKER,
            ] + body@.subrange(0, j as int));
        }
    }
    r.push(bcc);
    r.push(END_MARKER);
    proof {
        assert(body@.subrange(0, body@.len() as int) =~= body@);
        assert(r@ =~= frame_of(station, opcode, payload@));
    }
    r
}

/// Exclusive-or of the bytes of `data` in positions `lo..hi`.
fn xor_range(data: &Vec<u8>, lo: usize, hi: usize) -> (r: u8)
    requires
        lo <= hi <= data@.len(),
    ensures
        r == xor_all(data@.subrange(lo as int, hi as int)),
{
    let mut acc: u8 = 0;
    let mut i: usize = lo;
    while i < hi
        invariant
            lo <= i <= hi <= data@.len(),
            acc == xor_all(data@.subrange(lo as int, i as int)),
        decreases hi - i,
    {
        proof {
            lemma_xor_all_push(data@.subrange(lo as int, i as int), data@[i as int]);
            assert(data@.subrange(lo as int, i as int).push(data@[i as int]) =~= data@.subrange(
                lo as int,
                i + 1,
            ));
        }
        acc = acc ^ data[i];
        i += 1;
    }
    acc
}

/// Decode a received buffer into its status byte and payload, checking the
/// start marker, the end marker and the checksum; bytes past the announced
/// frame end are ignored. The caller guarantees the buffer holds as many
/// bytes as its length byte announces.
pub fn decode(data: &Vec<u8>) -> (r: Result<(u8, Vec<u8>), FrameError>)
    requires
        frame_shape_ok(data@),
    ensures
        match r {
            Ok(sp) => frame_ok(data@) && sp.0 == status_of(data@) && sp.1@ == payload_of(data@),
            Err(e) => !frame_ok(data@) && e == FrameError::Corrupted,
        },
{
    let len_field = data[2] as usize;
    let bp: usize = 3 + len_field;
    let bcc = xor_range(data, 1, bp);
    if data[0] != START_MARKER || data[bp + 1] != END_MARKER || bcc != data[bp] {
        return Err(FrameError::Corrupted);
    }
    let status = data[3];
    let mut payload: Vec<u8> = Vec::new();
    let mut i: usize = 4;
    while i < bp
        invariant
            4 <= i <= bp,
            bp == 3 + data@[2],
            data@.len() >= bp + 2,
            payload@ == data@.subrange(4, i as int),
        decreases bp - i,
    {
        payload.push(data[i]);
        i += 1;
        proof {
            assert(data@.subrange(4, i - 1).push(data@[i - 1]) =~= data@.subrange(4, i as int));
        }
    }
    Ok((status, payload))
}

/// Decode a buffer of any length: a buffer too short for the frame its
/// length byte announces is treated as corrupted, never read out of
/// bounds.
pub fn decode_checked(data: &Vec<u8>) -> (r: Result<(u8, Vec<u8>), FrameError>)
    ensures
        match r {
            Ok(sp) => frame_shape_ok(data@) && frame_ok(data@) && sp.0 == status_of(data@)
                && sp.1@ == payload_of(data@),
            Err(e) => !(frame_shape_ok(data@) && frame_ok(data@)) && e == FrameError::Corrupted,
        },
{
    if data.len() < 3 {
        return Err(FrameError::Corrupted);
    }
    let len_field = data[2] as usize;
    if len_field < 1 || data.len() < len_field + 5 {
        return Err(FrameError::Corrupted);
    }
    decode(data)
}

/// Checksum round-trip: an encoded frame decodes successfully, its status
/// position holds the opcode that was sent, and its payload region holds
/// exactly the payload that was sent.
pub proof fn lemma_encode_decode_roundtrip(station: u8, opcode: u8, payload: Seq<u8>)
    requires
        payload.len() <= 127,
    ensures
        frame_shape_ok(frame_of(station, opcode, payload)),
        frame_ok(frame_of(station, opcode, payload)),
        status_of(frame_of(station, opcode, payload)) == opcode,
        payload_of(frame_of(station, opcode, payload)) == payload,
{
    let f = frame_of(station, opcode, payload);
    let n = payload.len() as int;
    assert(f.len() == n + 6);
    assert(f[2] == (n + 1) as u8);
    assert(bcc_pos(f) == n + 4);
    assert(f[0] == START_MARKER);
    assert(f[n + 5] == END_MARKER);
    assert(f[n + 4] == bcc_of(station, opcode, payload));
    assert(f.subrange(1, n + 4) =~= seq![station, (payload.len() + 1) as u8, opcode] + payload);
    assert(f.subrange(4, n + 4) =~= payload);
}

/// One corrupted byte: the byte at position `i` exclusive-ored with a
/// non-zero mask (a single-bit mask models a single flipped bit).
pub open spec fn corrupt_byte(data: Seq<u8>, i: int, mask: u8) -> Seq<u8> {
    data.update(i, (data[i] ^ mask) as u8)
}

/// Corruption detection: changing any bits of any single byte of a valid
/// frame, other than the length byte, makes decoding fail. (Changing the
/// length byte re-frames the buffer instead and is not covered: a shorter
/// length can point the checks at bytes that happen to satisfy them.)
pub proof fn lemma_corruption_detected(data: Seq<u8>, i: int, mask: u8)
    requires
        frame_shape_ok(data),
        frame_ok(data),
        0 <= i < bcc_pos(data) + 2,
        i != 2,
        mask != 0,
    ensures
        frame_shape_ok(corrupt_byte(data, i, mask)),
        !frame_ok(corrupt_byte(data, i, mask)),
{
    let c = corrupt_byte(data, i, mask);
    let bp = bcc_pos(data);
    assert(c[2] == data[2]);
    assert(bcc_pos(c) == bp);
    if i == 0 {
        let x = data[0];
        assert((x ^ mask) as u8 != x) by (bit_vector)
            requires
                mask != 0,
        ;
    } else if i == bp + 1 {
        let x = data[i];
        assert((x ^ mask) as u8 != x) by (bit_vector)
            requires
                mask != 0,
        ;
    } else if i == bp {
        assert(c.subrange(1, bp) =~= data.subrange(1, bp));
        let x = data[bp];
        assert((x ^ mask) as u8 != x) by (bit_vector)
            requires
                mask != 0,
        ;
    } else {
        assert(1 <= i < bp);
        assert(c.subrange(1, bp) =~= data.subrange(1, bp).update(
            i - 1,
            (data.subrange(1, bp)[i - 1] ^ mask) as u8,
        ));
        lemma_xor_all_update(data.subrange(1, bp), i - 1, mask);
        let x = xor_all(data.subrange(1, bp));
        assert((x ^ mask) as u8 != x) by (bit_vector)
            requires
                mask != 0,
        ;
        assert(c[bp] == data[bp]);
    }
}

} // verus!
