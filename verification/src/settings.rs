//! Stream settings and certificate identity.
//!
//! The per-session settings are pinned from the client's first message for
//! the life of the session.  The certificate hash that browsers pin is the
//! lowercase hexadecimal SHA-256 of the leaf certificate in DER form.

use vstd::prelude::*;

use sha2::{Digest, Sha256};

verus! {

/// The colorspace negotiated for video.
#[derive(Clone, Copy, Debug, PartialEq, Eq, Structural)]
pub enum Colorspace {
    Rec601,
    Rec709,
    Rec2020,
}

/// Immutable per-session stream settings, built from the client's first
/// message and pinned for the life of the session.
pub struct StreamSettings {
    /// Target bitrate in bits per second.
    pub bitrate: u32,
    /// Packet size in bytes.
    pub packet_size: u32,
    /// Frame rate in frames per second.
    pub fps: u32,
    /// Width in pixels.
    pub width: u32,
    /// Height in pixels.
    pub height: u32,
    /// Video queue depth in frames.
    pub video_frame_queue_size: u32,
    /// Audio queue depth in samples.
    pub audio_sample_queue_size: u32,
    /// Whether audio also plays on the host.
    pub play_audio_local: bool,
    /// Mask of the video formats the client supports.
    pub video_supported_formats: u32,
    /// The negotiated colorspace.
    pub video_colorspace: Colorspace,
    /// Whether the color range is full rather than limited.
    pub video_color_range_full: bool,
    /// Whether input arrives from a separate peer bound by a token.
    pub hybrid_mode: bool,
}

/// The lowercase hexadecimal digit of a value below sixteen.
pub open spec fn hex_digit(n: u8) -> char {
    if n == 0 {
        '0'
    } else if n == 1 {
        '1'
    } else if n == 2 {
        '2'
    } else if n == 3 {
        '3'
    } else if n == 4 {
        '4'
    } else if n == 5 {
        '5'
    } else if n == 6 {
        '6'
    } else if n == 7 {
        '7'
    } else if n == 8 {
        '8'
    } else if n == 9 {
        '9'
    } else if n == 10 {
        'a'
    } else if n == 11 {
        'b'
    } else if n == 12 {
        'c'
    } else if n == 13 {
        'd'
    } else if n == 14 {
        'e'
    } else {
        'f'
    }
}

/// The lowercase hexadecimal rendering of a byte string: two digits per
/// byte, high nibble first.
pub open spec fn hex_of(b: Seq<u8>) -> Seq<char>
    decreases b.len(),
{
    if b.len() == 0 {
        Seq::empty()
    } else {
        hex_of(b.drop_last()) + seq![hex_digit(b.last() / 16), hex_digit(b.last() % 16)]
    }
}

/// The hexadecimal rendering is two characters per byte.
pub proof fn lemma_hex_of_len(b: Seq<u8>)
    ensures
        hex_of(b).len() == 2 * b.len(),
    decreases b.len(),
{
    if b.len() > 0 {
        lemma_hex_of_len(b.drop_last());
    }
}

/// The SHA-256 digest of a byte string.  The digest depends on the bytes
/// alone; its value is not spelt out here.
pub uninterp spec fn sha256_of(b: Seq<u8>) -> Seq<u8>;

/// Relies on sha2's SHA-256 implementation: the digest is a function of the
/// input bytes alone and is 32 bytes long.
#[verifier::external_body]
fn sha256(data: &Vec<u8>) -> (r: Vec<u8>)
    ensures
        r@ == sha256_of(data@),
        r@.len() == 32,
{
    Sha256::digest(data.as_slice()).to_vec()
}

/// Relies on hex::encode: each input byte becomes exactly two lowercase
/// hexadecimal digits, high nibble first.
#[verifier::external_body]
fn to_hex(data: &Vec<u8>) -> (r: String)
    ensures
        r@ == hex_of(data@),
{
    hex::encode(data.as_slice())
}

/// The certificate hash exported to clients: the lowercase hexadecimal
/// SHA-256 of the leaf certificate's DER bytes, 64 characters long.
pub fn cert_hash_hex(der: &Vec<u8>) -> (r: String)
    ensures
        r@ == hex_of(sha256_of(der@)),
        r@.len() == 64,
{
    let digest = sha256(der);
    let r = to_hex(&digest);
    proof {
        lemma_hex_of_len(digest@);
    }
    r
}

} // verus!
