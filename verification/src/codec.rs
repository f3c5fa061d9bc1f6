//! The on-disk blob format: payload text, one `0x00` delimiter byte, then
//! the raw signature bytes.
//!
//! The format has no escaping for `0x00` inside the payload; the payload is
//! textual and must not contain that byte. This is a known limitation of the
//! format, not repaired here: splitting always takes the first `0x00`.

use vstd::prelude::*;
use vstd::utf8;

verus! {

/// Position of the first `0x00` byte of `s` at or after `i`, if any.
pub open spec fn spec_first_zero_from(s: Seq<u8>, i: int) -> Option<int>
    decreases s.len() - i,
{
    if !(0 <= i < s.len()) {
        None
    } else if s[i] == 0u8 {
        Some(i)
    } else {
        spec_first_zero_from(s, i + 1)
    }
}

/// Position of the first `0x00` byte of `s`, if any.
pub open spec fn spec_first_zero(s: Seq<u8>) -> Option<int> {
    spec_first_zero_from(s, 0)
}

/// What splitting a blob yields: the payload text, present only when the
/// delimiter exists and the bytes before it are valid UTF-8, and the
/// signature bytes, present whenever the delimiter exists.
pub open spec fn spec_split(b: Seq<u8>) -> (Option<Seq<u8>>, Option<Seq<u8>>) {
    match spec_first_zero(b) {
        None => (None, None),
        Some(i) => {
            let text = b.subrange(0, i);
            let sig = b.subrange(i + 1, b.len() as int);
            (
                if vstd::utf8::valid_utf8(text) {
                    Some(text)
                } else {
                    None
                },
                Some(sig),
            )
        },
    }
}

/// The blob that carries `payload` and `signature`.
pub open spec fn spec_encode(payload: Seq<u8>, signature: Seq<u8>) -> Seq<u8> {
    payload + seq![0u8] + signature
}

/// Whether `s` is a valid UTF-8 encoding, checked scalar by scalar against
/// `vstd::utf8::valid_utf8`.
pub fn check_utf8(s: &[u8]) -> (r: bool)
    ensures
        r == utf8::valid_utf8(s@),
{
    let n = s.len();
    let mut i: usize = 0;
    proof {
        assert(s@.subrange(0int, n as int) =~= s@);
    }
    while i < n
        invariant
            i <= n,
            n == s.len(),
            utf8::valid_utf8(s@) == utf8::valid_utf8(s@.subrange(i as int, n as int)),
        decreases n - i,
    {
        let ghost suf = s@.subrange(i as int, n as int);
        proof {
            assert(suf.len() == n - i);
            assert(suf[0] == s@[i as int]);
        }
        let b0 = s[i];
        let w: usize;
        if b0 < 0x80 {
            proof {
                assert((b0 & 0x7fu8) as u32 <= 0x7fu32) by (bit_vector);
            }
            w = 1;
        } else if 0xc0 <= b0 && b0 <= 0xdf {
            if n - i < 2 {
                proof {
                    assert(!utf8::valid_first_scalar(suf));
                }
                return false;
            }
            let b1 = s[i + 1];
            proof {
                assert(suf[1] == s@[i as int + 1]);
            }
            if !(0x80 <= b1 && b1 <= 0xbf) {
                proof {
                    assert(!utf8::valid_first_scalar(suf));
                }
                return false;
            }
            let cp = (((b0 & 0x1f) as u32) << 6) | ((b1 & 0x3f) as u32);
            if cp < 0x80 {
                proof {
                    assert(!utf8::not_overlong_encoding(
                        utf8::decode_first_codepoint(suf),
                        utf8::length_of_first_codepoint(suf),
                    ));
                }
                return false;
            }
            proof {
                assert(cp <= 0x7ffu32) by (bit_vector)
                    requires
                        cp == (((b0 & 0x1fu8) as u32) << 6) | ((b1 & 0x3fu8) as u32),
                ;
            }
            w = 2;
        } else if 0xe0 <= b0 && b0 <= 0xef {
            if n - i < 3 {
                proof {
                    assert(!utf8::valid_first_scalar(suf));
                }
                return false;
            }
            let b1 = s[i + 1];
            let b2 = s[i + 2];
            proof {
                assert(suf[1] == s@[i as int + 1]);
                assert(suf[2] == s@[i as int + 2]);
            }
            if !(0x80 <= b1 && b1 <= 0xbf) || !(0x80 <= b2 && b2 <= 0xbf) {
                proof {
                    assert(!utf8::valid_first_scalar(suf));
                }
                return false;
            }
            let cp = (((b0 & 0x0f) as u32) << 12) | (((b1 & 0x3f) as u32) << 6) | ((b2
                & 0x3f) as u32);
            if cp < 0x800 {
                proof {
                    assert(!utf8::not_overlong_encoding(
                        utf8::decode_first_codepoint(suf),
                        utf8::length_of_first_codepoint(suf),
                    ));
                }
                return false;
            }
            if 0xd800 <= cp && cp <= 0xdfff {
                proof {
                    assert(!utf8::not_surrogate(utf8::decode_first_codepoint(suf)));
                }
                return false;
            }
            w = 3;
        } else if 0xf0 <= b0 && b0 <= 0xf7 {
            if n - i < 4 {
                proof {
                    assert(!utf8::valid_first_scalar(suf));
                }
                return false;
            }
            let b1 = s[i + 1];
            let b2 = s[i + 2];
            let b3 = s[i + 3];
            proof {
                assert(suf[1] == s@[i as int + 1]);
                assert(suf[2] == s@[i as int + 2]);
                assert(suf[3] == s@[i as int + 3]);
            }
            if !(0x80 <= b1 && b1 <= 0xbf) || !(0x80 <= b2 && b2 <= 0xbf) || !(0x80 <= b3 && b3
                <= 0xbf) {
                proof {
                    assert(!utf8::valid_first_scalar(suf));
                }
                return false;
            }
            let cp = (((b0 & 0x07) as u32) << 18) | (((b1 & 0x3f) as u32) << 12) | (((b2
                & 0x3f) as u32) << 6) | ((b3 & 0x3f) as u32);
            if cp < 0x10000 || cp > 0x10ffff {
                proof {
                    assert(!utf8::not_overlong_encoding(
                        utf8::decode_first_codepoint(suf),
                        utf8::length_of_first_codepoint(suf),
                    ));
                }
                return false;
            }
            w = 4;
        } else {
            proof {
                assert(!utf8::valid_leading_and_continuation_bytes_first_codepoint(suf));
            }
            return false;
        }
        proof {
            assert(utf8::valid_first_scalar(suf));
            assert(utf8::length_of_first_scalar(suf) == w);
            assert(utf8::pop_first_scalar(suf) =~= s@.subrange(i as int + w as int, n as int));
        }
        i += w;
    }
    proof {
        assert(s@.subrange(i as int, n as int) =~= Seq::<u8>::empty());
    }
    true
}

fn find_zero_from(s: &[u8], i: usize) -> (r: Option<usize>)
    requires
        i <= s.len(),
    ensures
        match r {
            Some(j) => spec_first_zero_from(s@, i as int) == Some(j as int) && i <= j < s.len(),
            None => spec_first_zero_from(s@, i as int) is None,
        },
{
    let mut cur = i;
    while cur < s.len()
        invariant
            i <= cur <= s.len(),
            spec_first_zero_from(s@, i as int) == spec_first_zero_from(s@, cur as int),
        decreases s.len() - cur,
    {
        if s[cur] == 0u8 {
            return Some(cur);
        }
        cur += 1;
    }
    None
}

/// Splits a blob at its first `0x00` byte into payload text and signature.
///
/// Without a delimiter both parts are absent; with one, the signature is the
/// bytes after it and the payload is the bytes before it, kept only when
/// they decode as UTF-8.
pub fn split_blob(input: &[u8]) -> (r: (Option<Vec<u8>>, Option<Vec<u8>>))
    ensures
        r.0.deep_view() == spec_split(input@).0,
        r.1.deep_view() == spec_split(input@).1,
{
    match find_zero_from(input, 0) {
        None => (None, None),
        Some(i) => {
            let text_slice = vstd::slice::slice_subrange(input, 0, i);
            let sig_slice = vstd::slice::slice_subrange(input, i + 1, input.len());
            let sig = vstd::slice::slice_to_vec(sig_slice);
            let text = if check_utf8(text_slice) {
                Some(vstd::slice::slice_to_vec(text_slice))
            } else {
                None
            };
            proof {
                assert(sig.deep_view() =~= input@.subrange(i + 1, input@.len() as int));
                if text is Some {
                    assert(text.deep_view() =~= Some(input@.subrange(0, i as int)));
                }
            }
            (text, Some(sig))
        },
    }
}

/// Assembles the distributable blob from payload text and signature bytes.
pub fn encode_blob(payload: &[u8], signature: &[u8]) -> (r: Vec<u8>)
    ensures
        r@ == spec_encode(payload@, signature@),
{
    let mut out: Vec<u8> = Vec::new();
    out.extend_from_slice(payload);
    out.push(0u8);
    out.extend_from_slice(signature);
    proof {
        assert(out@ =~= payload@ + seq![0u8] + signature@);
    }
    out
}

proof fn lemma_first_zero_from_skips(s: Seq<u8>, i: int, z: int)
    requires
        0 <= i <= z < s.len(),
        s[z] == 0u8,
        forall|k: int| i <= k < z ==> s[k] != 0u8,
    ensures
        spec_first_zero_from(s, i) == Some(z),
    decreases z - i,
{
    if i < z {
        lemma_first_zero_from_skips(s, i + 1, z);
    }
}

/// Law: encoding a payload with its signature and splitting the blob again
/// recovers the payload text and the signature bytes unchanged, for every
/// payload that the format carries (UTF-8 text free of the delimiter byte).
pub proof fn lemma_blob_round_trip(payload: Seq<u8>, signature: Seq<u8>)
    requires
        !payload.contains(0u8),
        vstd::utf8::valid_utf8(payload),
    ensures
        spec_split(spec_encode(payload, signature)) == (Some(payload), Some(signature)),
{
    let blob = spec_encode(payload, signature);
    assert(blob[payload.len() as int] == 0u8);
    assert forall|k: int| 0 <= k < payload.len() implies blob[k] != 0u8 by {
        assert(blob[k] == payload[k]);
        assert(payload[k] != 0u8) by {
            if payload[k] == 0u8 {
                assert(payload.contains(0u8));
            }
        }
    }
    lemma_first_zero_from_skips(blob, 0, payload.len() as int);
    assert(blob.subrange(0, payload.len() as int) =~= payload);
    assert(blob.subrange(payload.len() as int + 1, blob.len() as int) =~= signature);
}

} // verus!
