//! Fixed-upper-bound byte encoding of a `Message`, used for durable storage.
//!
//! Layout: identifier (8 bytes, little endian), creation stamp (8), update
//! tag (1: absent/present), update stamp (8, zero when absent), the three
//! text lengths (4 each), then the UTF-8 bytes of title, body and
//! attachment URL. Encoding and decoding are mutual inverses on every
//! well-formed message.
use vstd::prelude::*;
use vstd::bytes::{
    lemma_auto_spec_u32_to_from_le_bytes, lemma_auto_spec_u64_to_from_le_bytes,
    spec_u32_to_le_bytes, spec_u64_to_le_bytes, u32_from_le_bytes, u32_to_le_bytes,
    u64_from_le_bytes, u64_to_le_bytes,
};
use vstd::slice::{slice_subrange, slice_to_vec};
use vstd::string::StrSliceExecFns;
use vstd::utf8::{encode_utf8, encode_utf8_decode_utf8, encode_utf8_valid_utf8, valid_utf8};
use crate::model::{
    message_wf, Message, MessageView, HEADER_SIZE, MAX_ENCODED_SIZE, MAX_TEXT_BYTES,
};

verus! {

/// Tag byte that records whether the update stamp is present.
pub open spec fn spec_tag_byte(u: Option<u64>) -> u8 {
    match u {
        Option::Some(_) => 1u8,
        Option::None => 0u8,
    }
}

/// The stamp stored for the optional update time: zero when absent.
pub open spec fn spec_stamp_value(u: Option<u64>) -> u64 {
    match u {
        Option::Some(t) => t,
        Option::None => 0u64,
    }
}

/// The byte encoding of a message view.
pub open spec fn spec_encode(m: MessageView) -> Seq<u8> {
    spec_u64_to_le_bytes(m.id) + spec_u64_to_le_bytes(m.created_at)
        + seq![spec_tag_byte(m.updated_at)]
        + spec_u64_to_le_bytes(spec_stamp_value(m.updated_at))
        + spec_u32_to_le_bytes(encode_utf8(m.title).len() as u32)
        + spec_u32_to_le_bytes(encode_utf8(m.body).len() as u32)
        + spec_u32_to_le_bytes(encode_utf8(m.attachment_url).len() as u32)
        + encode_utf8(m.title) + encode_utf8(m.body) + encode_utf8(m.attachment_url)
}

/// Where each field of the encoding lies: the fixed-offset pieces of
/// `spec_encode` and its total length.
pub proof fn lemma_encode_parts(m: MessageView)
    ensures
        ({
            let e = spec_encode(m);
            let tl = encode_utf8(m.title).len() as int;
            let bl = encode_utf8(m.body).len() as int;
            let ul = encode_utf8(m.attachment_url).len() as int;
            &&& e.len() == HEADER_SIZE + tl + bl + ul
            &&& e.subrange(0, 8) == spec_u64_to_le_bytes(m.id)
            &&& e.subrange(8, 16) == spec_u64_to_le_bytes(m.created_at)
            &&& e[16] == spec_tag_byte(m.updated_at)
            &&& e.subrange(17, 25) == spec_u64_to_le_bytes(spec_stamp_value(m.updated_at))
            &&& e.subrange(25, 29) == spec_u32_to_le_bytes(encode_utf8(m.title).len() as u32)
            &&& e.subrange(29, 33) == spec_u32_to_le_bytes(encode_utf8(m.body).len() as u32)
            &&& e.subrange(33, 37) == spec_u32_to_le_bytes(
                encode_utf8(m.attachment_url).len() as u32,
            )
            &&& e.subrange(37, 37 + tl) == encode_utf8(m.title)
            &&& e.subrange(37 + tl, 37 + tl + bl) == encode_utf8(m.body)
            &&& e.subrange(37 + tl + bl, e.len() as int) == encode_utf8(m.attachment_url)
        }),
{
    lemma_auto_spec_u64_to_from_le_bytes();
    lemma_auto_spec_u32_to_from_le_bytes();
    let e = spec_encode(m);
    let tl = encode_utf8(m.title).len() as int;
    let bl = encode_utf8(m.body).len() as int;
    let ul = encode_utf8(m.attachment_url).len() as int;
    assert(e.subrange(0, 8) =~= spec_u64_to_le_bytes(m.id));
    assert(e.subrange(8, 16) =~= spec_u64_to_le_bytes(m.created_at));
    assert(e.subrange(17, 25) =~= spec_u64_to_le_bytes(spec_stamp_value(m.updated_at)));
    assert(e.subrange(25, 29) =~= spec_u32_to_le_bytes(encode_utf8(m.title).len() as u32));
    assert(e.subrange(29, 33) =~= spec_u32_to_le_bytes(encode_utf8(m.body).len() as u32));
    assert(e.subrange(33, 37) =~= spec_u32_to_le_bytes(
        encode_utf8(m.attachment_url).len() as u32,
    ));
    assert(e.subrange(37, 37 + tl) =~= encode_utf8(m.title));
    assert(e.subrange(37 + tl, 37 + tl + bl) =~= encode_utf8(m.body));
    assert(e.subrange(37 + tl + bl, e.len() as int) =~= encode_utf8(m.attachment_url));
}

/// A well-formed message encodes within the fixed bound.
pub proof fn lemma_encoded_size(m: MessageView)
    requires
        message_wf(m),
    ensures
        HEADER_SIZE <= spec_encode(m).len() <= MAX_ENCODED_SIZE,
{
    lemma_encode_parts(m);
}

/// Relies on `String::from_utf8`: it returns `Ok` exactly when the bytes
/// are valid UTF-8, and the returned string then wraps those very bytes.
#[verifier::external_body]
fn string_from_utf8(v: Vec<u8>) -> (r: Option<String>)
    ensures
        r is Some <==> valid_utf8(v@),
        (match r {
            Option::Some(s) => encode_utf8(s@) == v@,
            Option::None => true,
        }),
{
    String::from_utf8(v).ok()
}

/// Encode a message into its durable byte form.
pub fn encode(m: &Message) -> (r: Vec<u8>)
    requires
        message_wf(m@),
    ensures
        r@ == spec_encode(m@),
        r@.len() <= MAX_ENCODED_SIZE,
{
    proof {
        lemma_auto_spec_u64_to_from_le_bytes();
        lemma_auto_spec_u32_to_from_le_bytes();
        lemma_encoded_size(m@);
    }
    let mut out: Vec<u8> = Vec::new();
    let mut piece = u64_to_le_bytes(m.id);
    out.append(&mut piece);
    let mut piece = u64_to_le_bytes(m.created_at);
    out.append(&mut piece);
    match m.updated_at {
        Option::Some(t) => {
            out.push(1u8);
            let mut stamp = u64_to_le_bytes(t);
            out.append(&mut stamp);
        },
        Option::None => {
            out.push(0u8);
            let mut stamp = u64_to_le_bytes(0u64);
            out.append(&mut stamp);
        },
    }
    let mut tb = m.title.as_str().as_bytes_vec();
    let mut bb = m.body.as_str().as_bytes_vec();
    let mut ub = m.attachment_url.as_str().as_bytes_vec();
    let mut piece = u32_to_le_bytes(tb.len() as u32);
    out.append(&mut piece);
    let mut piece = u32_to_le_bytes(bb.len() as u32);
    out.append(&mut piece);
    let mut piece = u32_to_le_bytes(ub.len() as u32);
    out.append(&mut piece);
    out.append(&mut tb);
    out.append(&mut bb);
    out.append(&mut ub);
    proof {
        assert(out@ =~= spec_encode(m@));
    }
    out
}

/// Decode a durable byte form back into a message.
///
/// Returns `None` exactly on bytes that no well-formed message encodes to;
/// on the encoding of a well-formed message it returns that message.
#[verifier::rlimit(100)]
pub fn decode(bytes: &Vec<u8>) -> (r: Option<Message>)
    ensures
        (match r {
            Option::Some(m) => message_wf(m@) && bytes@ == spec_encode(m@),
            Option::None => true,
        }),
        (forall|mv: MessageView|
            message_wf(mv) && bytes@ == spec_encode(mv) ==> (match r {
                Option::Some(m) => m@ == mv,
                Option::None => false,
            })),
{
    proof {
        lemma_auto_spec_u64_to_from_le_bytes();
        lemma_auto_spec_u32_to_from_le_bytes();
    }
    let n = bytes.len();
    if n < HEADER_SIZE || n > MAX_ENCODED_SIZE {
        proof {
            assert forall|mv: MessageView|
                message_wf(mv) && bytes@ == spec_encode(mv) implies false by {
                lemma_encoded_size(mv);
            }
        }
        return None;
    }
    let s = bytes.as_slice();
    let id = u64_from_le_bytes(slice_subrange(s, 0, 8));
    let created_at = u64_from_le_bytes(slice_subrange(s, 8, 16));
    let tag = bytes[16];
    let stamp = u64_from_le_bytes(slice_subrange(s, 17, 25));
    if tag > 1 || (tag == 0 && stamp != 0) {
        proof {
            assert forall|mv: MessageView|
                message_wf(mv) && bytes@ == spec_encode(mv) implies false by {
                lemma_encode_parts(mv);
            }
        }
        return None;
    }
    let lt = u32_from_le_bytes(slice_subrange(s, 25, 29)) as usize;
    let lb = u32_from_le_bytes(slice_subrange(s, 29, 33)) as usize;
    let lu = u32_from_le_bytes(slice_subrange(s, 33, 37)) as usize;
    if lt > n - HEADER_SIZE || lb > n - HEADER_SIZE - lt || lu != n - HEADER_SIZE - lt - lb {
        proof {
            assert forall|mv: MessageView|
                message_wf(mv) && bytes@ == spec_encode(mv) implies false by {
                lemma_encode_parts(mv);
            }
        }
        return None;
    }
    let tseg = slice_to_vec(slice_subrange(s, 37, 37 + lt));
    let bseg = slice_to_vec(slice_subrange(s, 37 + lt, 37 + lt + lb));
    let useg = slice_to_vec(slice_subrange(s, 37 + lt + lb, n));
    proof {
        assert forall|mv: MessageView|
            message_wf(mv) && bytes@ == spec_encode(mv) implies valid_utf8(tseg@)
            && valid_utf8(bseg@) && valid_utf8(useg@) by {
            lemma_encode_parts(mv);
            encode_utf8_valid_utf8(mv.title);
            encode_utf8_valid_utf8(mv.body);
            encode_utf8_valid_utf8(mv.attachment_url);
            assert(tseg@ =~= encode_utf8(mv.title));
            assert(bseg@ =~= encode_utf8(mv.body));
            assert(useg@ =~= encode_utf8(mv.attachment_url));
        }
    }
    let title = match string_from_utf8(tseg) {
        Option::Some(t) => t,
        Option::None => {
            return None;
        },
    };
    let body = match string_from_utf8(bseg) {
        Option::Some(t) => t,
        Option::None => {
            return None;
        },
    };
    let attachment_url = match string_from_utf8(useg) {
        Option::Some(t) => t,
        Option::None => {
            return None;
        },
    };
    let updated_at = if tag == 1 {
        Some(stamp)
    } else {
        None
    };
    let m = Message { id, title, body, attachment_url, created_at, updated_at };
    proof {
        assert(seq![tag] =~= bytes@.subrange(16, 17));
        assert(bytes@ =~= spec_encode(m@));
        assert forall|mv: MessageView|
            message_wf(mv) && bytes@ == spec_encode(mv) implies m@ == mv by {
            lemma_encode_parts(mv);
            lemma_encode_parts(m@);
            encode_utf8_decode_utf8(m@.title);
            encode_utf8_decode_utf8(mv.title);
            encode_utf8_decode_utf8(m@.body);
            encode_utf8_decode_utf8(mv.body);
            encode_utf8_decode_utf8(m@.attachment_url);
            encode_utf8_decode_utf8(mv.attachment_url);
        }
    }
    Some(m)
}

} // verus!
