//! The identity hasher: a stable, content-addressed identifier for a record.
//!
//! The identifier is the 64-bit digest of a fixed-seed, non-cryptographic hash
//! fed the UTF-8 bytes of the semantically meaningful fields in a strict fixed
//! order, rendered as 16 lowercase hex characters. It is a cross-system
//! compatibility contract: existing catalogs are keyed by it.

use vstd::prelude::*;
use vstd::utf8::encode_utf8;

use crate::strutil::push_char;

verus! {

/// Seed of the identity hash; fixed forever so identities stay stable.
pub const IDENTITY_SEED: u64 = 0x9f88f860;

/// The 64-bit digest that the fixed-seed hash assigns to a byte sequence.
/// A function of the bytes alone: same bytes, same digest, on every machine.
pub uninterp spec fn xxh64_of(data: Seq<u8>) -> u64;

/// Relies on `twox_hash::XxHash64` (seeded with [`IDENTITY_SEED`]): the
/// digest is a pure function of the byte stream written to the hasher.
#[verifier::external_body]
fn xxh64_digest(data: &[u8]) -> (r: u64)
    ensures
        r == xxh64_of(data@),
{
    let mut hasher = twox_hash::XxHash64::with_seed(IDENTITY_SEED);
    std::hash::Hasher::write(&mut hasher, data);
    std::hash::Hasher::finish(&hasher)
}

/// The lowercase hex character for a value below 16.
pub closed spec fn hex_digit(n: u64) -> char {
    if n == 0 {
        '0'
    } else if n == 1 {
        '1'
    } else if n == 2 {
        '2'
    } else if n == 3 {
        '3'
    } else if n == 4 {
        '4'
    } else if n == 5 {
        '5'
    } else if n == 6 {
        '6'
    } else if n == 7 {
        '7'
    } else if n == 8 {
        '8'
    } else if n == 9 {
        '9'
    } else if n == 10 {
        'a'
    } else if n == 11 {
        'b'
    } else if n == 12 {
        'c'
    } else if n == 13 {
        'd'
    } else if n == 14 {
        'e'
    } else {
        'f'
    }
}

fn hex_char(n: u64) -> (c: char)
    requires
        n < 16,
    ensures
        c == hex_digit(n),
{
    match n {
        0 => '0',
        1 => '1',
        2 => '2',
        3 => '3',
        4 => '4',
        5 => '5',
        6 => '6',
        7 => '7',
        8 => '8',
        9 => '9',
        10 => 'a',
        11 => 'b',
        12 => 'c',
        13 => 'd',
        14 => 'e',
        _ => 'f',
    }
}

/// A 64-bit value rendered as 16 lowercase hex characters, zero-padded,
/// most significant nibble first.
pub open spec fn hex16_of(h: u64) -> Seq<char> {
    Seq::new(16, |i: int| hex_digit((h >> ((60 - 4 * i) as u64)) & 0xf))
}

/// Renders a 64-bit value as its fixed-width lowercase hex string.
pub fn u64_to_hex16(h: u64) -> (r: String)
    ensures
        r@ == hex16_of(h),
        r@.len() == 16,
{
    let mut r = String::new();
    let mut i: u64 = 0;
    while i < 16
        invariant
            i <= 16,
            r@ =~= hex16_of(h).take(i as int),
        decreases 16 - i,
    {
        let shift: u64 = 60 - 4 * i;
        let nibble: u64 = (h >> shift) & 0xf;
        assert(nibble < 16) by (bit_vector)
            requires
                nibble == (h >> shift) & 0xf,
        ;
        push_char(&mut r, hex_char(nibble));
        assert(r@ =~= hex16_of(h).take(i + 1));
        i = i + 1;
    }
    assert(r@ =~= hex16_of(h));
    r
}

/// The byte stream the identity hash is fed: the UTF-8 bytes of the fields,
/// concatenated in this fixed order. Comment and status are deliberately
/// absent: they do not alter the produced artifact's audio content.
pub open spec fn identity_input(
    video_type: Seq<char>,
    video_id: Seq<char>,
    clip_start: Seq<char>,
    clip_end: Seq<char>,
    title: Seq<char>,
    artist: Seq<char>,
    performer: Seq<char>,
) -> Seq<u8> {
    encode_utf8(video_type) + encode_utf8(video_id) + encode_utf8(clip_start) + encode_utf8(
        clip_end,
    ) + encode_utf8(title) + encode_utf8(artist) + encode_utf8(performer)
}

/// The stable content identity of a record with the given field values.
pub open spec fn spec_identity(
    video_type: Seq<char>,
    video_id: Seq<char>,
    clip_start: Seq<char>,
    clip_end: Seq<char>,
    title: Seq<char>,
    artist: Seq<char>,
    performer: Seq<char>,
) -> Seq<char> {
    hex16_of(
        xxh64_of(
            identity_input(video_type, video_id, clip_start, clip_end, title, artist, performer),
        ),
    )
}

/// Computes the stable content identity: the fixed-seed 64-bit digest of the
/// fields' UTF-8 bytes in fixed order, as 16 lowercase hex characters.
pub fn identity_hex(
    video_type: &str,
    video_id: &str,
    clip_start: &str,
    clip_end: &str,
    title: &str,
    artist: &str,
    performer: &str,
) -> (r: String)
    ensures
        r@ == spec_identity(
            video_type@,
            video_id@,
            clip_start@,
            clip_end@,
            title@,
            artist@,
            performer@,
        ),
        r@.len() == 16,
{
    let mut data: Vec<u8> = Vec::new();
    data.extend_from_slice(video_type.as_bytes());
    data.extend_from_slice(video_id.as_bytes());
    data.extend_from_slice(clip_start.as_bytes());
    data.extend_from_slice(clip_end.as_bytes());
    data.extend_from_slice(title.as_bytes());
    data.extend_from_slice(artist.as_bytes());
    data.extend_from_slice(performer.as_bytes());
    assert(data@ =~= identity_input(
        video_type@,
        video_id@,
        clip_start@,
        clip_end@,
        title@,
        artist@,
        performer@,
    ));
    let digest = xxh64_digest(data.as_slice());
    u64_to_hex16(digest)
}

} // verus!
