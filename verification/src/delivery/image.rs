//! The transport-only image of a delivery: a blank picture marked with the digest of its id.

use crate::delivery::prompt::{ApiError, ApiErrorV};
use crate::relay::ids::{hex_digest, hex_digest_of};
use crate::text::{first_chars, head, trim, trimmed, Text};
use base64::engine::general_purpose::STANDARD;
use base64::Engine;
use vstd::prelude::*;
use vstd::string::*;
use vstd::utf8::*;

verus! {

/// The blank picture, in base64.
pub const COMPATIBILITY_IMAGE_B64: &'static str = "iVBORw0KGgoAAAANSUhEUgAAACAAAAAgCAYAAABzenr0AAAAKUlEQVR42u3OIQEAAAACIP+f1hkWWEB6FgEBAQEBAQEBAQEBAQEBgXdgl/rw4tnPBf0AAAAASUVORK5CYII=";

/// The bytes that a base64 text stands for, or what is wrong with it.
pub uninterp spec fn base64_bytes(text: Text) -> Result<Seq<u8>, Text>;

/// The CRC-32 checksum of bytes.
pub uninterp spec fn crc32(bytes: Seq<u8>) -> u32;

/// Calls `base64::Engine::decode` of the standard alphabet with padding. Claims that the outcome
/// depends on the text alone.
#[verifier::external_body]
fn decode(text: &str) -> (r: Result<Vec<u8>, String>)
    ensures
        match r {
            Ok(v) => base64_bytes(text@) == Ok::<Seq<u8>, Text>(v@),
            Err(e) => base64_bytes(text@) == Err::<Seq<u8>, Text>(e@),
        },
{
    match STANDARD.decode(text) {
        Ok(v) => Ok(v),
        Err(e) => Err(e.to_string()),
    }
}

/// Calls `crc32fast::hash`. Claims that the checksum depends on the bytes alone.
#[verifier::external_body]
fn checksum(bytes: &Vec<u8>) -> (r: u32)
    ensures
        r == crc32(bytes@),
{
    crc32fast::hash(bytes)
}

/// A number as four bytes, the most significant first.
pub open spec fn big_endian(n: u32) -> Seq<u8> {
    seq![
        (n / 0x100_0000) as u8,
        (n / 0x1_0000 % 0x100) as u8,
        (n / 0x100 % 0x100) as u8,
        (n % 0x100) as u8,
    ]
}

fn push_big_endian(v: &mut Vec<u8>, n: u32)
    ensures
        final(v)@ == old(v)@ + big_endian(n),
{
    let ghost start = v@;
    v.push((n / 0x100_0000) as u8);
    v.push((n / 0x1_0000 % 0x100) as u8);
    v.push((n / 0x100 % 0x100) as u8);
    v.push((n % 0x100) as u8);
    proof {
        assert(v@ =~= start + big_endian(n));
    }
}

fn push_text(v: &mut Vec<u8>, t: &str)
    ensures
        final(v)@ == old(v)@ + encode_utf8(t@),
{
    let b = t.as_bytes();
    let ghost start = v@;
    let mut i: usize = 0;
    proof {
        assert(v@ =~= start + b@.take(0));
    }
    while i < b.len()
        invariant
            i <= b@.len(),
            v@ == start + b@.take(i as int),
        decreases b@.len() - i,
    {
        v.push(b[i]);
        proof {
            assert(v@ =~= start + b@.take(i + 1));
        }
        i += 1;
    }
    proof {
        assert(b@.take(i as int) =~= b@);
    }
}

fn push_bytes(v: &mut Vec<u8>, b: &Vec<u8>, from: usize, to: usize)
    requires
        from <= to <= b@.len(),
    ensures
        final(v)@ == old(v)@ + b@.subrange(from as int, to as int),
{
    let ghost start = v@;
    let mut i: usize = from;
    proof {
        assert(v@ =~= start + b@.subrange(from as int, from as int));
    }
    while i < to
        invariant
            from <= i <= to <= b@.len(),
            v@ == start + b@.subrange(from as int, i as int),
        decreases to - i,
    {
        v.push(b[i]);
        proof {
            assert(v@ =~= start + b@.subrange(from as int, i + 1));
        }
        i += 1;
    }
}

/// The keyword and the text of the chunk that marks a delivery.
pub open spec fn marker(digest: Text) -> Seq<u8> {
    encode_utf8("CCCC-Delivery\0"@) + encode_utf8(digest)
}

/// The text chunk that marks a delivery: length, type, data and checksum.
pub open spec fn marker_chunk(digest: Text) -> Seq<u8> {
    big_endian(marker(digest).len() as u32) + encode_utf8("tEXt"@) + marker(digest) + big_endian(
        crc32(encode_utf8("tEXt"@) + marker(digest)),
    )
}

/// Whether the bytes end with the terminal chunk of a PNG file.
pub open spec fn ends_with_iend(bytes: Seq<u8>) -> bool {
    bytes.len() >= 12 && bytes.subrange(bytes.len() - 8, bytes.len() - 4) == seq![
        0x49u8,
        0x45u8,
        0x4eu8,
        0x44u8,
    ]
}

/// A picture with the chunk that marks a delivery put in before its terminal chunk.
pub open spec fn marked(bytes: Seq<u8>, digest: Text) -> Seq<u8> {
    bytes.take(bytes.len() - 12) + marker_chunk(digest) + bytes.skip(bytes.len() - 12)
}

/// The name of the file that a delivery's picture is kept in.
pub open spec fn image_name(digest: Text) -> Text {
    "cccc-mcp-compat-"@ + first_chars(digest, 16) + ".png"@
}

/// The picture of a delivery made from a blank one: a file name and the bytes.
pub open spec fn image_from(base: Result<Seq<u8>, Text>, delivery_id: Text) -> Result<
    (Text, Seq<u8>),
    ApiErrorV,
> {
    let digest = hex_digest(trimmed(delivery_id));
    if trimmed(delivery_id).len() == 0 {
        Err(ApiErrorV::Bad("compatibility image delivery_id is required"@))
    } else {
        match base {
            Err(e) => Err(ApiErrorV::Bad("decode compatibility image: "@ + e)),
            Ok(bytes) => if !ends_with_iend(bytes) {
                Err(
                    ApiErrorV::Bad("compatibility image is missing its terminal PNG chunk"@),
                )
            } else {
                Ok((image_name(digest), marked(bytes, digest)))
            },
        }
    }
}

fn terminal_at(bytes: &Vec<u8>) -> (r: bool)
    ensures
        r == ends_with_iend(bytes@),
{
    let n: usize = bytes.len();
    if n < 12 {
        return false;
    }
    let r = bytes[n - 8] == 0x49 && bytes[n - 7] == 0x45 && bytes[n - 6] == 0x4e && bytes[n - 5]
        == 0x44;
    proof {
        let s = bytes@.subrange(n - 8, n - 4);
        let t = seq![0x49u8, 0x45u8, 0x4eu8, 0x44u8];
        if r {
            assert(s =~= t);
        } else {
            assert(s[0] == bytes@[n - 8] && s[1] == bytes@[n - 7] && s[2] == bytes@[n - 6] && s[3]
                == bytes@[n - 5]);
            assert(t[0] == 0x49u8 && t[1] == 0x45u8 && t[2] == 0x4eu8 && t[3] == 0x44u8);
        }
    }
    r
}

/// The picture of a delivery made from a blank one.
pub fn mark_image(base: Result<Vec<u8>, String>, delivery_id: &str) -> (r: Result<
    (String, Vec<u8>),
    ApiError,
>)
    ensures
        match r {
            Ok((name, bytes)) => image_from(
                match base {
                    Ok(v) => Ok(v@),
                    Err(e) => Err(e@),
                },
                delivery_id@,
            ) == Ok::<(Text, Seq<u8>), ApiErrorV>((name@, bytes@)),
            Err(e) => image_from(
                match base {
                    Ok(v) => Ok(v@),
                    Err(e) => Err(e@),
                },
                delivery_id@,
            ) == Err::<(Text, Seq<u8>), ApiErrorV>(e@),
        },
{
    let id = trim(delivery_id);
    if id.as_str().is_empty() {
        return Err(ApiError::Bad("compatibility image delivery_id is required".to_owned()));
    }
    let bytes = match base {
        Ok(v) => v,
        Err(e) => {
            let mut m = "decode compatibility image: ".to_owned();
            m.append(e.as_str());
            return Err(ApiError::Bad(m));
        },
    };
    let digest = hex_digest_of(id.as_str());
    if !terminal_at(&bytes) {
        return Err(
            ApiError::Bad("compatibility image is missing its terminal PNG chunk".to_owned()),
        );
    }
    let mut mark: Vec<u8> = Vec::new();
    push_text(&mut mark, "CCCC-Delivery\0");
    push_text(&mut mark, digest.as_str());
    proof {
        assert(mark@ =~= marker(digest@));
        reveal_strlit("CCCC-Delivery\0");
        assert("CCCC-Delivery\0"@.len() == 14);
        lemma_encoded_len("CCCC-Delivery\0"@);
        lemma_encoded_len(digest@);
    }
    let mut typed: Vec<u8> = Vec::new();
    push_text(&mut typed, "tEXt");
    push_bytes(&mut typed, &mark, 0, mark.len());
    proof {
        assert(mark@.subrange(0, mark@.len() as int) =~= mark@);
        assert(typed@ =~= encode_utf8("tEXt"@) + marker(digest@));
    }
    let sum: u32 = checksum(&typed);
    let cut: usize = bytes.len() - 12;
    let mut all: Vec<u8> = Vec::new();
    push_bytes(&mut all, &bytes, 0, cut);
    push_big_endian(&mut all, mark.len() as u32);
    push_bytes(&mut all, &typed, 0, typed.len());
    push_big_endian(&mut all, sum);
    push_bytes(&mut all, &bytes, cut, bytes.len());
    proof {
        assert(typed@.subrange(0, typed@.len() as int) =~= typed@);
        assert(bytes@.subrange(0, cut as int) =~= bytes@.take(cut as int));
        assert(bytes@.subrange(cut as int, bytes@.len() as int) =~= bytes@.skip(cut as int));
        assert(all@ =~= marked(bytes@, digest@));
    }
    let mut name = "cccc-mcp-compat-".to_owned();
    let short = head(digest.as_str(), 16);
    name.append(short.as_str());
    name.append(".png");
    Ok((name, all))
}

proof fn lemma_encoded_len(t: Text)
    ensures
        encode_utf8(t).len() <= 4 * t.len(),
    decreases t.len(),
{
    if t.len() > 0 {
        lemma_encoded_len(t.drop_first());
    }
}

/// The picture of a delivery: a file name and the bytes, both made from the digest of its id, so
/// that the same delivery always has the same picture.
pub fn compatibility_image_for_delivery(delivery_id: &str) -> (r: Result<
    (String, Vec<u8>),
    ApiError,
>)
    ensures
        match r {
            Ok((name, bytes)) => image_from(base64_bytes(COMPATIBILITY_IMAGE_B64@), delivery_id@)
                == Ok::<(Text, Seq<u8>), ApiErrorV>((name@, bytes@)),
            Err(e) => image_from(base64_bytes(COMPATIBILITY_IMAGE_B64@), delivery_id@) == Err::<
                (Text, Seq<u8>),
                ApiErrorV,
            >(e@),
        },
{
    mark_image(decode(COMPATIBILITY_IMAGE_B64), delivery_id)
}

/// Marking keeps the picture: what stood before and after the mark is there, and still ends with
/// the terminal chunk.
pub proof fn marking_keeps_the_picture(bytes: Seq<u8>, digest: Text)
    requires
        ends_with_iend(bytes),
    ensures
        ends_with_iend(marked(bytes, digest)),
        marked(bytes, digest).take(bytes.len() - 12) == bytes.take(bytes.len() - 12),
        marked(bytes, digest).skip(marked(bytes, digest).len() - 12) == bytes.skip(
            bytes.len() - 12,
        ),
{
    let m = marked(bytes, digest);
    assert(m.take(bytes.len() - 12) =~= bytes.take(bytes.len() - 12));
    assert(m.skip(m.len() - 12) =~= bytes.skip(bytes.len() - 12));
    assert(m.subrange(m.len() - 8, m.len() - 4) =~= bytes.subrange(
        bytes.len() - 8,
        bytes.len() - 4,
    ));
}

} // verus!
