//! Frames: a payload behind its length, a 32-bit number in the byte order of the
//! machine.

use crate::error::HostError;
use vstd::prelude::*;

verus! {

/// The order in which the bytes of a number stand.
#[derive(Clone, Copy, Debug, PartialEq, Eq, Structural)]
pub enum Endianness {
    Little,
    Big,
}

/// The number that four bytes stand for.
pub open spec fn u32_value(order: Endianness, bytes: Seq<u8>) -> int {
    match order {
        Endianness::Little => bytes[0] + 0x100 * bytes[1] + 0x1_0000 * bytes[2] + 0x100_0000
            * bytes[3],
        Endianness::Big => bytes[3] + 0x100 * bytes[2] + 0x1_0000 * bytes[1] + 0x100_0000
            * bytes[0],
    }
}

/// The four bytes that stand for a number.
pub open spec fn u32_bytes(order: Endianness, n: u32) -> Seq<u8> {
    let least = seq![
        (n % 0x100) as u8,
        (n / 0x100 % 0x100) as u8,
        (n / 0x1_0000 % 0x100) as u8,
        (n / 0x100_0000) as u8,
    ];
    match order {
        Endianness::Little => least,
        Endianness::Big => seq![least[3], least[2], least[1], least[0]],
    }
}

/// A payload behind its length.
pub open spec fn framed(order: Endianness, payload: Seq<u8>) -> Seq<u8> {
    u32_bytes(order, payload.len() as u32) + payload
}

/// Whether a payload fits a frame.
pub open spec fn fits_frame(payload: Seq<u8>) -> bool {
    payload.len() <= u32::MAX
}

/// `LittleEndian::read_u32` of byteorder: the number whose least significant byte
/// comes first.
#[verifier::external_body]
fn read_little(bytes: &[u8; 4]) -> (n: u32)
    ensures
        n == u32_value(Endianness::Little, bytes@),
{
    <byteorder::LittleEndian as byteorder::ByteOrder>::read_u32(bytes)
}

/// `BigEndian::read_u32` of byteorder: the number whose most significant byte comes
/// first.
#[verifier::external_body]
fn read_big(bytes: &[u8; 4]) -> (n: u32)
    ensures
        n == u32_value(Endianness::Big, bytes@),
{
    <byteorder::BigEndian as byteorder::ByteOrder>::read_u32(bytes)
}

/// `NativeEndian::read_u32` of byteorder: an alias for the one or the other of the
/// above, by the machine that the program is built for. Which one is not stated. The
/// contract of [`native_endianness`] speaks of this call.
#[verifier::external_body]
pub fn read_native(bytes: &[u8; 4]) -> (n: u32)
    ensures
        n == u32_value(Endianness::Little, bytes@) || n == u32_value(Endianness::Big, bytes@),
{
    <byteorder::NativeEndian as byteorder::ByteOrder>::read_u32(bytes)
}

/// `LittleEndian::write_u32` of byteorder: the bytes of a number, least significant
/// first.
#[verifier::external_body]
fn write_little(n: u32) -> (bytes: [u8; 4])
    ensures
        bytes@ == u32_bytes(Endianness::Little, n),
{
    let mut bytes = [0u8; 4];
    <byteorder::LittleEndian as byteorder::ByteOrder>::write_u32(&mut bytes, n);
    bytes
}

/// `BigEndian::write_u32` of byteorder: the bytes of a number, most significant
/// first.
#[verifier::external_body]
fn write_big(n: u32) -> (bytes: [u8; 4])
    ensures
        bytes@ == u32_bytes(Endianness::Big, n),
{
    let mut bytes = [0u8; 4];
    <byteorder::BigEndian as byteorder::ByteOrder>::write_u32(&mut bytes, n);
    bytes
}

/// The bytes that tell the byte orders apart.
pub open spec fn probe_bytes() -> Seq<u8> {
    seq![1u8, 0, 0, 0]
}

/// The byte order of a machine that reads the probe bytes as `probe`.
pub open spec fn probed_order(probe: u32) -> Endianness {
    if probe == u32_value(Endianness::Little, probe_bytes()) {
        Endianness::Little
    } else {
        Endianness::Big
    }
}

/// The byte order of a machine that reads the bytes 1, 0, 0, 0 as `probe`.
pub fn endianness_of_probe(probe: u32) -> (order: Endianness)
    ensures
        order == probed_order(probe),
        order == Endianness::Little <==> probe == 1,
{
    if probe == 1 {
        Endianness::Little
    } else {
        Endianness::Big
    }
}

/// The byte order of the machine: the one that follows from how [`read_native`] reads
/// the probe bytes. How it reads them is left open, since that depends on the machine
/// alone.
pub fn native_endianness() -> (order: Endianness)
    ensures
        exists|bytes: &[u8; 4], probe: u32| #[trigger]
            call_ensures(crate::frame::read_native, (bytes,), probe) && bytes@ == probe_bytes()
                && order == probed_order(probe),
{
    let bytes = [1u8, 0, 0, 0];
    let probe: u32 = read_native(&bytes);
    assert(bytes@ =~= probe_bytes());
    endianness_of_probe(probe)
}

/// The length of the payload that follows a frame's first four bytes.
pub fn message_length(order: Endianness, header: &[u8; 4]) -> (n: u32)
    ensures
        n == u32_value(order, header@),
{
    match order {
        Endianness::Little => read_little(header),
        Endianness::Big => read_big(header),
    }
}

/// The first four bytes of a frame whose payload has `n` bytes.
fn header(order: Endianness, n: u32) -> (bytes: [u8; 4])
    ensures
        bytes@ == u32_bytes(order, n),
{
    match order {
        Endianness::Little => write_little(n),
        Endianness::Big => write_big(n),
    }
}

/// The length of a payload as a frame carries it, unless it does not fit 32 bits.
pub fn frame_length(len: usize) -> (r: Result<u32, HostError>)
    ensures
        match r {
            Ok(n) => n == len,
            Err(e) => len > u32::MAX && e == HostError::MessageTooLong,
        },
{
    if len > u32::MAX as usize {
        Err(HostError::MessageTooLong)
    } else {
        Ok(len as u32)
    }
}

/// Puts a payload behind its length, unless the length does not fit 32 bits.
pub fn frame(order: Endianness, payload: &[u8]) -> (r: Result<Vec<u8>, HostError>)
    ensures
        match r {
            Ok(bytes) => fits_frame(payload@) && bytes@ == framed(order, payload@),
            Err(e) => !fits_frame(payload@) && e == HostError::MessageTooLong,
        },
{
    let len: u32 = match frame_length(payload.len()) {
        Ok(len) => len,
        Err(e) => return Err(e),
    };
    let head = header(order, len);
    let mut bytes: Vec<u8> = Vec::new();
    bytes.extend_from_slice(&head);
    bytes.extend_from_slice(payload);
    proof {
        assert(bytes@ =~= framed(order, payload@));
    }
    Ok(bytes)
}

/// The frame that ends a session: one with no payload.
pub fn disconnect(order: Endianness) -> (bytes: Vec<u8>)
    ensures
        bytes@ == framed(order, Seq::<u8>::empty()),
        bytes@ == seq![0u8, 0, 0, 0],
{
    let head = header(order, 0);
    let mut bytes: Vec<u8> = Vec::new();
    bytes.extend_from_slice(&head);
    proof {
        assert(bytes@ =~= u32_bytes(order, 0));
        assert(bytes@ =~= framed(order, Seq::<u8>::empty()));
        assert(bytes@ =~= seq![0u8, 0, 0, 0]);
    }
    bytes
}

proof fn lemma_bytes_of_number(order: Endianness, n: u32)
    ensures
        u32_bytes(order, n).len() == 4,
        u32_value(order, u32_bytes(order, n)) == n,
{
    let q1 = n / 0x100;
    let q2 = n / 0x1_0000;
    let q3 = n / 0x100_0000;
    assert(q2 == q1 / 0x100 && q3 == q2 / 0x100 && q3 < 0x100);
}

/// Law: the number that four bytes stand for has those bytes.
pub proof fn law_number_determines_bytes(order: Endianness, bytes: Seq<u8>)
    requires
        bytes.len() == 4,
    ensures
        0 <= u32_value(order, bytes) <= u32::MAX,
        u32_bytes(order, u32_value(order, bytes) as u32) == bytes,
{
    let n = u32_value(order, bytes) as u32;
    let (a, b, c, d) = match order {
        Endianness::Little => (bytes[0], bytes[1], bytes[2], bytes[3]),
        Endianness::Big => (bytes[3], bytes[2], bytes[1], bytes[0]),
    };
    assert(n == a + 0x100 * b + 0x1_0000 * c + 0x100_0000 * d);
    assert(n % 0x100 == a && n / 0x100 == b + 0x100 * c + 0x1_0000 * d);
    assert(n / 0x100 % 0x100 == b && n / 0x1_0000 == c + 0x100 * d);
    assert(n / 0x1_0000 % 0x100 == c && n / 0x100_0000 == d);
    assert(u32_bytes(order, n) =~= bytes);
}

/// Law: a frame is read back. Its first four bytes give the length of the payload,
/// and the payload is what follows them.
pub proof fn law_frame_is_read_back(order: Endianness, payload: Seq<u8>)
    requires
        fits_frame(payload),
    ensures
        framed(order, payload).len() == 4 + payload.len(),
        u32_value(order, framed(order, payload).take(4)) == payload.len(),
        framed(order, payload).skip(4) == payload,
{
    let n = payload.len() as u32;
    lemma_bytes_of_number(order, n);
    assert(framed(order, payload).take(4) =~= u32_bytes(order, n));
    assert(framed(order, payload).skip(4) =~= payload);
}

/// Law: frames delimit themselves. Where two streams that start with a frame are
/// the same, the payloads are the same and so is what follows the frames.
pub proof fn law_frames_delimit_themselves(
    order: Endianness,
    payload1: Seq<u8>,
    rest1: Seq<u8>,
    payload2: Seq<u8>,
    rest2: Seq<u8>,
)
    requires
        fits_frame(payload1),
        fits_frame(payload2),
        framed(order, payload1) + rest1 == framed(order, payload2) + rest2,
    ensures
        payload1 == payload2,
        rest1 == rest2,
{
    let stream = framed(order, payload1) + rest1;
    law_frame_is_read_back(order, payload1);
    law_frame_is_read_back(order, payload2);
    assert(stream.take(4) =~= framed(order, payload1).take(4));
    assert(stream.take(4) =~= framed(order, payload2).take(4));
    let n = payload1.len() as int;
    assert(payload2.len() == n);
    assert(payload1 =~= stream.subrange(4, 4 + n));
    assert(payload2 =~= stream.subrange(4, 4 + n));
    assert(rest1 =~= stream.skip(4 + n));
    assert(rest2 =~= stream.skip(4 + n));
}

/// Law: a header is read as a number by the weight of its bytes, from the first up or
/// from the last up.
pub proof fn law_header_is_read_by_weight(order: Endianness, header: &[u8; 4], n: u32)
    requires
        call_ensures(message_length, (order, header), n),
    ensures
        order == Endianness::Little ==> n == header@[0] + 256 * header@[1] + 65536 * header@[2]
            + 16777216 * header@[3],
        order == Endianness::Big ==> n == 16777216 * header@[0] + 65536 * header@[1] + 256
            * header@[2] + header@[3],
{
}

/// Law: a payload is framed if and only if its length fits 32 bits. The frame is four
/// bytes, in which the length is written by weight, and then the payload.
pub proof fn law_frame_by_parts(
    order: Endianness,
    payload: &[u8],
    r: Result<Vec<u8>, HostError>,
)
    requires
        call_ensures(frame, (order, payload), r),
    ensures
        r is Ok <==> payload@.len() <= 0xffff_ffff,
        r matches Err(e) ==> e == HostError::MessageTooLong,
        r matches Ok(bytes) ==> {
            &&& bytes@.len() == 4 + payload@.len()
            &&& bytes@.subrange(4, bytes@.len() as int) == payload@
            &&& order == Endianness::Little ==> payload@.len() == bytes@[0] + 256 * bytes@[1]
                + 65536 * bytes@[2] + 16777216 * bytes@[3]
            &&& order == Endianness::Big ==> payload@.len() == 16777216 * bytes@[0] + 65536
                * bytes@[1] + 256 * bytes@[2] + bytes@[3]
        },
{
    if let Ok(bytes) = r {
        law_frame_is_read_back(order, payload@);
        let head = bytes@.take(4);
        assert(head[0] == bytes@[0] && head[1] == bytes@[1] && head[2] == bytes@[2] && head[3]
            == bytes@[3]);
        assert(bytes@.subrange(4, bytes@.len() as int) =~= bytes@.skip(4));
    }
}

/// Law: what one side writes, the other side reads: the length that is read from the first
/// four bytes of a frame is that of the payload.
pub proof fn law_length_is_read_back(
    order: Endianness,
    payload: &[u8],
    bytes: Vec<u8>,
    header: &[u8; 4],
    n: u32,
)
    requires
        call_ensures(frame, (order, payload), Ok(bytes)),
        header@ == bytes@.take(4),
        call_ensures(message_length, (order, header), n),
    ensures
        n == payload@.len(),
        bytes@.skip(4) == payload@,
{
    law_frame_is_read_back(order, payload@);
}

/// Law: the probe tells the byte orders apart. A machine that reads the probe bytes in an
/// order is taken to have that order.
pub proof fn law_probe_tells_the_order(machine: Endianness, probe: u32, order: Endianness)
    requires
        call_ensures(endianness_of_probe, (probe,), order),
    ensures
        order == Endianness::Little <==> probe == 1,
        probe_bytes() == seq![1u8, 0, 0, 0],
        probe == u32_value(machine, probe_bytes()) ==> order == machine,
{
}

/// Law: a length is carried as it is if and only if it fits 32 bits.
pub proof fn law_length_fits_or_is_refused(len: usize, r: Result<u32, HostError>)
    requires
        call_ensures(frame_length, (len,), r),
    ensures
        len <= 0xffff_ffff ==> (r matches Ok(n) && n == len),
        len > 0xffff_ffff ==> r == Err::<u32, HostError>(HostError::MessageTooLong),
{
}

/// Law: the frame that ends a session is the frame of an empty payload, in either order,
/// and no frame of another payload starts with it.
pub proof fn law_end_is_told_apart(
    order: Endianness,
    end: Vec<u8>,
    payload: &[u8],
    bytes: Vec<u8>,
)
    requires
        call_ensures(disconnect, (order,), end),
        call_ensures(frame, (order, payload), Ok(bytes)),
    ensures
        end@ == seq![0u8, 0, 0, 0],
        bytes@.take(4) == end@ <==> payload@.len() == 0,
        payload@.len() == 0 ==> bytes@ == end@,
{
    law_frame_is_read_back(order, payload@);
    let none = Seq::<u8>::empty();
    law_frame_is_read_back(order, none);
    assert(framed(order, none).take(4) =~= end@);
    if payload@.len() == 0 {
        assert(payload@ =~= none);
        assert(bytes@.take(4) =~= end@);
    }
}

} // verus!
