//! Character-reference obfuscation: rendering text as decimal character
//! references, and the inverse decoding of single-digit references.
//!
//! Decoding splits on `;` and demands of every piece, the one after the last
//! separator included, a `#` followed by a number below ten; the decoded
//! character is that digit. A reference with a larger code point is
//! malformed input to the decoder.

use vstd::prelude::*;
use vstd::string::StrSliceExecFns;
use vstd::string::StringExecFns;

use crate::errors::ErrorKind;
use crate::numbers::{dec_digits, digit_char, digit_to_char, parse_u32, parse_u32_spec, push_decimal};
use crate::text::{find_sub, find_substring, string_push};

verus! {

/// An obfuscation request: the content to transform and the job to perform
/// (`"encode"` or `"decode"`).
pub struct ObfuscRequest {
    pub content: String,
    pub job: String,
}

/// The reference for one character: `&#`, the decimal code point, `;`.
pub open spec fn entity_of(c: char) -> Seq<char> {
    seq!['&', '#'] + dec_digits(c as int) + seq![';']
}

/// The encoding of a text: each character's reference, in order.
pub open spec fn entity_encode(s: Seq<char>) -> Seq<char>
    decreases s.len(),
{
    if s.len() == 0 {
        Seq::empty()
    } else {
        entity_encode(s.drop_last()) + entity_of(s.last())
    }
}

/// The decoding of one piece between separators: everything up to and
/// including the first `#` is discarded, the rest must parse as a number
/// below ten, and the piece decodes to that digit's character.
pub open spec fn decode_segment(seg: Seq<char>) -> Result<char, ErrorKind> {
    match find_sub(seg, seq!['#']) {
        None => Err(ErrorKind::Malformed),
        Some(h) => match parse_u32_spec(seg.skip(h + 1)) {
            Err(e) => Err(e),
            Ok(d) => if d < 10 {
                Ok(digit_char(d as int))
            } else {
                Err(ErrorKind::Malformed)
            },
        },
    }
}

/// The decoding of a text: split on `;`, decode every piece, first failure
/// wins.
pub open spec fn entity_decode(s: Seq<char>) -> Result<Seq<char>, ErrorKind>
    decreases s.len(),
{
    match find_sub(s, seq![';']) {
        None => match decode_segment(s) {
            Err(e) => Err(e),
            Ok(c) => Ok(seq![c]),
        },
        Some(k) => if k < 0 || k >= s.len() {
            Err(ErrorKind::Malformed)
        } else {
            match decode_segment(s.take(k)) {
                Err(e) => Err(e),
                Ok(c) => match entity_decode(s.skip(k + 1)) {
                    Err(e) => Err(e),
                    Ok(rest) => Ok(seq![c] + rest),
                },
            }
        },
    }
}

/// Render every character of the content as its decimal reference.
fn encode_content(content: &str) -> (r: String)
    ensures
        r@ == entity_encode(content@),
{
    let mut target = String::new();
    let len = content.unicode_len();
    let mut i: usize = 0;
    proof {
        assert(content@.take(0) =~= Seq::<char>::empty());
    }
    while i < len
        invariant
            len == content@.len(),
            0 <= i <= len,
            target@ == entity_encode(content@.take(i as int)),
        decreases len - i,
    {
        let c = content.get_char(i);
        let ghost before = target@;
        string_push(&mut target, '&');
        string_push(&mut target, '#');
        push_decimal(&mut target, c as u32);
        string_push(&mut target, ';');
        proof {
            assert(content@.take(i as int + 1).drop_last() =~= content@.take(i as int));
            assert(content@.take(i as int + 1).last() == content@[i as int]);
            assert((c as u32) as int == c as int);
            assert(target@ =~= before + entity_of(content@[i as int]));
        }
        i = i + 1;
    }
    proof {
        assert(content@.take(len as int) =~= content@);
    }
    target
}

/// Decode one piece between separators.
fn decode_piece(seg: &str) -> (r: Result<char, ErrorKind>)
    ensures
        r == decode_segment(seg@),
{
    proof {
        reveal_strlit("#");
        assert("#"@ =~= seq!['#']);
    }
    let h = match find_substring(seg, "#") {
        Some(h) => h,
        None => {
            return Err(ErrorKind::Malformed);
        },
    };
    let seg_len = seg.unicode_len();
    let digits = seg.substring_char(h + 1, seg_len);
    proof {
        assert(digits@ =~= seg@.skip(h + 1));
    }
    match parse_u32(digits) {
        Err(e) => Err(e),
        Ok(d) => {
            if d < 10 {
                Ok(digit_to_char(d))
            } else {
                Err(ErrorKind::Malformed)
            }
        },
    }
}

/// Decode the content from the given position onward.
fn decode_content(s: &str, from: usize) -> (r: Result<String, ErrorKind>)
    requires
        from <= s@.len(),
    ensures
        (match entity_decode(s@.skip(from as int)) {
            Ok(t) => r matches Ok(x) && x@ == t,
            Err(e) => r == Err::<String, ErrorKind>(e),
        }),
    decreases s@.len() - from,
{
    let len = s.unicode_len();
    let rest = s.substring_char(from, len);
    proof {
        reveal_strlit(";");
        assert(";"@ =~= seq![';']);
        assert(rest@ =~= s@.skip(from as int));
    }
    match find_substring(rest, ";") {
        None => {
            let c = match decode_piece(rest) {
                Ok(c) => c,
                Err(e) => {
                    return Err(e);
                },
            };
            let mut out = String::new();
            string_push(&mut out, c);
            proof {
                assert(out@ =~= seq![c]);
            }
            Ok(out)
        },
        Some(k) => {
            let piece = rest.substring_char(0, k);
            proof {
                assert(piece@ =~= s@.skip(from as int).take(k as int));
            }
            let c = match decode_piece(piece) {
                Ok(c) => c,
                Err(e) => {
                    return Err(e);
                },
            };
            proof {
                assert(s@.skip(from as int).skip(k as int + 1) =~= s@.skip(
                    from as int + k as int + 1,
                ));
            }
            let tail = match decode_content(s, from + k + 1) {
                Ok(t) => t,
                Err(e) => {
                    return Err(e);
                },
            };
            let mut out = String::new();
            string_push(&mut out, c);
            out.append(tail.as_str());
            proof {
                assert(out@ =~= seq![c] + tail@);
            }
            Ok(out)
        },
    }
}

/// Transform the content as the job demands: `"encode"` renders every
/// character as a decimal reference, `"decode"` is the inverse for
/// single-digit references, and any other job is malformed.
pub fn handle_obfuscation(req: &ObfuscRequest) -> (r: Result<String, ErrorKind>)
    ensures
        req.job@ == "encode"@ ==> (r matches Ok(t) && t@ == entity_encode(req.content@)),
        req.job@ == "decode"@ ==> (match entity_decode(req.content@) {
            Ok(t) => r matches Ok(x) && x@ == t,
            Err(e) => r == Err::<String, ErrorKind>(e),
        }),
        (req.job@ != "encode"@ && req.job@ != "decode"@) ==> r == Err::<String, ErrorKind>(
            ErrorKind::Malformed,
        ),
{
    proof {
        reveal_strlit("encode");
        reveal_strlit("decode");
        assert("encode"@[0] != "decode"@[0]);
    }
    let encode_job = String::from_str("encode");
    let decode_job = String::from_str("decode");
    if req.job == encode_job {
        Ok(encode_content(req.content.as_str()))
    } else if req.job == decode_job {
        proof {
            assert(req.content@.skip(0) =~= req.content@);
        }
        decode_content(req.content.as_str(), 0)
    } else {
        Err(ErrorKind::Malformed)
    }
}

} // verus!
