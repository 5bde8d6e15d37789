use vstd::prelude::*;
use vstd::string::StringSliceAdditionalSpecFns;

verus! {

/// Polynomial of the 8-bit checksum shared by the downlink and the uplink.
pub const CRC8_POLY: u8 = 0xd5;

/// One shift round of the checksum register.
pub open spec fn crc8_shift(c: u8) -> u8 {
    if c & 0x80u8 != 0 {
        ((c << 1u8) ^ CRC8_POLY) as u8
    } else {
        (c << 1u8) as u8
    }
}

/// `n` shift rounds applied to the register `c`.
pub open spec fn crc8_rounds(c: u8, n: nat) -> u8
    decreases n,
{
    if n == 0 {
        c
    } else {
        crc8_shift(crc8_rounds(c, (n - 1) as nat))
    }
}

/// The register after one more input byte.
pub open spec fn crc8_update(crc: u8, b: u8) -> u8 {
    crc8_rounds(crc ^ b, 8)
}

/// Checksum of a byte sequence: the register starts at 0, and each byte is
/// folded in by `crc8_update`, with no final transformation.
pub open spec fn crc8_of(s: Seq<u8>) -> u8
    decreases s.len(),
{
    if s.len() == 0 {
        0
    } else {
        crc8_update(crc8_of(s.drop_last()), s.last())
    }
}

/// Calculate the CRC for some arbitrary data.
pub fn crc8(arr: &[u8]) -> (r: u8)
    ensures
        r == crc8_of(arr@),
{
    let mut crc: u8 = 0x00;
    let mut i: usize = 0;
    while i < arr.len()
        invariant
            i <= arr@.len(),
            crc == crc8_of(arr@.subrange(0, i as int)),
        decreases arr@.len() - i,
    {
        let start = crc ^ arr[i];
        crc = start;
        let mut round: u8 = 0;
        while round < 8
            invariant
                round <= 8,
                crc == crc8_rounds(start, round as nat),
            decreases 8 - round,
        {
            if crc & 0x80 > 0 {
                crc = (crc << 1) ^ CRC8_POLY;
            } else {
                crc = crc << 1;
            }
            round = round + 1;
        }
        proof {
            let prefix = arr@.subrange(0, i as int + 1);
            assert(prefix.drop_last() =~= arr@.subrange(0, i as int));
        }
        i = i + 1;
    }
    proof {
        assert(arr@.subrange(0, arr@.len() as int) =~= arr@);
    }
    crc
}

/// The checksum is a function of the bytes alone: two computations over the
/// same bytes agree.
pub proof fn crc8_deterministic(a: Seq<u8>, b: Seq<u8>)
    requires
        a == b,
    ensures
        crc8_of(a) == crc8_of(b),
{
}

/// The checksum of a single byte, with the eight rounds written out.
pub proof fn lemma_crc8_single(x: u8)
    ensures
        crc8_of(seq![x]) == crc8_shift(
            crc8_shift(crc8_shift(crc8_shift(crc8_shift(crc8_shift(crc8_shift(crc8_shift(x))))))),
        ),
{
    reveal_with_fuel(crc8_rounds, 9);
    assert(seq![x].drop_last() =~= Seq::<u8>::empty());
    assert(crc8_of(Seq::<u8>::empty()) == 0);
    assert(0u8 ^ x == x) by (bit_vector);
    assert(crc8_of(seq![x]) == crc8_rounds(x, 8));
}

/// Only the byte 0xD0 has the space character as its checksum.
pub proof fn lemma_crc8_single_is_space(x: u8)
    ensures
        crc8_of(seq![x]) == 0x20 <==> x == 0xD0,
{
    lemma_crc8_single(x);
    assert(crc8_shift(
        crc8_shift(crc8_shift(crc8_shift(crc8_shift(crc8_shift(crc8_shift(crc8_shift(x))))))),
    ) == 0x20 <==> x == 0xD0) by (bit_vector);
}

/// XOR of all bytes of a sequence: the checksum of an NMEA sentence body.
pub open spec fn xor_of(s: Seq<u8>) -> u8
    decreases s.len(),
{
    if s.len() == 0 {
        0
    } else {
        xor_of(s.drop_last()) ^ s.last()
    }
}

/// Calculate the NMEA CRC for some arbitrary data.
pub fn nmea_crc8(arr: &[u8]) -> (r: u8)
    ensures
        r == xor_of(arr@),
{
    let mut crc: u8 = 0x00;
    let mut i: usize = 0;
    while i < arr.len()
        invariant
            i <= arr@.len(),
            crc == xor_of(arr@.subrange(0, i as int)),
        decreases arr@.len() - i,
    {
        crc = crc ^ arr[i];
        proof {
            assert(arr@.subrange(0, i as int + 1).drop_last() =~= arr@.subrange(0, i as int));
        }
        i = i + 1;
    }
    proof {
        assert(arr@.subrange(0, arr@.len() as int) =~= arr@);
    }
    crc
}

/// ASCII of the upper-case hexadecimal digit for `n < 16`.
pub open spec fn hex_digit_of(n: u8) -> u8 {
    if n < 10 {
        (0x30 + n) as u8
    } else {
        (0x41 + n - 10) as u8
    }
}

/// Two upper-case hexadecimal digits of a byte, most significant first.
pub open spec fn hex_pair_of(b: u8) -> Seq<u8> {
    seq![hex_digit_of(b / 16), hex_digit_of(b % 16)]
}

/// The bytes of an NMEA sentence carrying `body`: `$`, the body, `*`, the
/// XOR checksum of the body as two upper-case hex digits, then CR LF.
pub open spec fn nmea_sentence(body: Seq<u8>) -> Seq<u8> {
    seq![0x24u8] + body + seq![0x2Au8] + hex_pair_of(xor_of(body)) + seq![0x0Du8, 0x0Au8]
}

fn hex_digit(n: u8) -> (r: u8)
    requires
        n < 16,
    ensures
        r == hex_digit_of(n),
{
    if n < 10 {
        0x30 + n
    } else {
        0x41 + n - 10
    }
}

/// Create an NMEA sentence to send to a GPS to control it.
pub fn create_nmea_command(cmd: &str) -> (r: Vec<u8>)
    ensures
        r@ == nmea_sentence(cmd.spec_bytes()),
{
    let body = cmd.as_bytes();
    let check = nmea_crc8(body);
    let mut out: Vec<u8> = Vec::new();
    out.push(0x24);
    out.extend_from_slice(body);
    out.push(0x2A);
    out.push(hex_digit(check / 16));
    out.push(hex_digit(check % 16));
    out.push(0x0D);
    out.push(0x0A);
    proof {
        assert(out@ =~= nmea_sentence(cmd.spec_bytes()));
    }
    out
}

} // verus!
