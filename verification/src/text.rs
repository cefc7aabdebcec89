//! Byte buffers shown as text: UTF-8 checking with a fallback, and what
//! makes the watch's short ASCII labels valid UTF-8 or not.
use core::str::Utf8Error;
use vstd::prelude::*;
use vstd::string::StringSliceAdditionalSpecFns;
use vstd::utf8::valid_utf8;

verus! {

/// `core::str::Utf8Error`, carried through as it is.
#[verifier::external_type_specification]
#[verifier::external_body]
pub struct ExUtf8Error(Utf8Error);

/// `core::str::from_utf8`: std documents that it gives the bytes back as a
/// string slice when they are valid UTF-8 and an error otherwise.
#[verifier::external_body]
fn str_from_utf8<'a>(v: &'a [u8]) -> (r: Result<&'a str, Utf8Error>)
    ensures
        r is Ok <==> valid_utf8(v@),
        r matches Ok(s) ==> s.spec_bytes() == v@,
{
    core::str::from_utf8(v)
}

/// The bytes as a string slice where they are valid UTF-8, else `fallback`.
pub fn text_or<'a>(bytes: &'a [u8], fallback: &'a str) -> (text: &'a str)
    ensures
        valid_utf8(bytes@) ==> text.spec_bytes() == bytes@,
        !valid_utf8(bytes@) ==> text == fallback,
{
    match str_from_utf8(bytes) {
        Ok(s) => s,
        Err(_) => fallback,
    }
}

/// Every byte below 128.
pub open spec fn all_ascii(bytes: Seq<u8>) -> bool {
    forall|i: int| 0 <= i < bytes.len() ==> #[trigger] bytes[i] < 128
}

/// Bytes that are all ASCII are valid UTF-8.
pub proof fn lemma_ascii_valid_utf8(bytes: Seq<u8>)
    requires
        all_ascii(bytes),
    ensures
        valid_utf8(bytes),
    decreases bytes.len(),
{
    if bytes.len() != 0 {
        let b = bytes[0];
        assert(b < 128);
        assert((b & 0x7f) as u32 == b as u32) by (bit_vector)
            requires
                b < 128,
        ;
        let rest = bytes.subrange(1, bytes.len() as int);
        assert(all_ascii(rest)) by {
            assert forall|i: int| 0 <= i < rest.len() implies #[trigger] rest[i] < 128 by {
                assert(rest[i] == bytes[i + 1]);
            }
        }
        lemma_ascii_valid_utf8(rest);
    }
}

/// An ASCII prefix changes nothing about whether bytes are valid UTF-8.
pub proof fn lemma_ascii_prefix_utf8(head: Seq<u8>, rest: Seq<u8>)
    requires
        all_ascii(head),
    ensures
        valid_utf8(head + rest) <==> valid_utf8(rest),
    decreases head.len(),
{
    if head.len() != 0 {
        let b = head[0];
        assert(b < 128);
        assert((b & 0x7f) as u32 == b as u32) by (bit_vector)
            requires
                b < 128,
        ;
        let tail = head.subrange(1, head.len() as int);
        assert(all_ascii(tail)) by {
            assert forall|i: int| 0 <= i < tail.len() implies #[trigger] tail[i] < 128 by {
                assert(tail[i] == head[i + 1]);
            }
        }
        let whole = head + rest;
        assert(whole[0] == b);
        assert(whole.subrange(1, whole.len() as int) =~= tail + rest);
        lemma_ascii_prefix_utf8(tail, rest);
    } else {
        assert(head + rest =~= rest);
    }
}

/// A byte of 128 or more followed by an ASCII byte cannot begin a UTF-8
/// scalar: it is either no leading byte, or one whose continuation is
/// missing.
pub proof fn lemma_stray_high_byte(bytes: Seq<u8>)
    requires
        bytes.len() >= 2,
        bytes[0] >= 128,
        bytes[1] < 128,
    ensures
        !valid_utf8(bytes),
{
}

} // verus!
