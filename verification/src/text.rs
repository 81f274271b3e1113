//! Prefixes of text and prefixes of its bytes: in UTF-8 the two coincide.

use vstd::prelude::*;
use vstd::utf8::char_u32_cast;
use vstd::utf8::decode_first_scalar;
use vstd::utf8::encode_scalar;
use vstd::utf8::encode_utf8;
use vstd::utf8::encode_utf8_first_scalar;
use vstd::utf8::length_of_first_scalar;

verus! {

/// The bytes of a concatenation are the concatenation of the bytes.
pub proof fn lemma_encode_concat(head: Seq<char>, tail: Seq<char>)
    ensures
        encode_utf8(head + tail) == encode_utf8(head) + encode_utf8(tail),
    decreases head.len(),
{
    if head.len() == 0 {
        assert(head + tail =~= tail);
        assert(encode_utf8(head) + encode_utf8(tail) =~= encode_utf8(tail));
    } else {
        let whole = head + tail;
        assert(whole.drop_first() =~= head.drop_first() + tail);
        assert(whole[0] == head[0]);
        lemma_encode_concat(head.drop_first(), tail);
        assert(encode_utf8(whole) =~= encode_utf8(head) + encode_utf8(tail));
    }
}

/// Text that starts with a prefix has bytes that start with the prefix's bytes.
pub proof fn lemma_text_prefix_gives_byte_prefix(prefix: Seq<char>, text: Seq<char>)
    requires
        prefix.is_prefix_of(text),
    ensures
        encode_utf8(prefix).is_prefix_of(encode_utf8(text)),
{
    let rest = text.subrange(prefix.len() as int, text.len() as int);
    assert(text =~= prefix + rest);
    lemma_encode_concat(prefix, rest);
    let bytes = encode_utf8(prefix);
    assert((bytes + encode_utf8(rest)).subrange(0, bytes.len() as int) =~= bytes);
}

/// Text whose bytes start with the bytes of a prefix starts with the prefix.
pub proof fn lemma_byte_prefix_gives_text_prefix(prefix: Seq<char>, text: Seq<char>)
    requires
        encode_utf8(prefix).is_prefix_of(encode_utf8(text)),
    ensures
        prefix.is_prefix_of(text),
    decreases prefix.len(),
{
    let ep = encode_utf8(prefix);
    let et = encode_utf8(text);
    if prefix.len() == 0 {
        assert(prefix =~= text.subrange(0, 0));
    } else {
        encode_utf8_first_scalar(prefix);
        assert(ep.len() >= 1);
        assert(text.len() > 0) by {
            if text.len() == 0 {
                assert(et.len() == 0);
            }
        }
        encode_utf8_first_scalar(text);
        assert forall|i: int| 0 <= i < ep.len() implies ep[i] == et[i] by {
            assert(et.subrange(0, ep.len() as int)[i] == et[i]);
        }
        assert(length_of_first_scalar(ep) == length_of_first_scalar(et));
        assert(decode_first_scalar(ep) == decode_first_scalar(et));
        char_u32_cast(prefix[0], prefix[0] as u32);
        char_u32_cast(text[0], text[0] as u32);
        assert(prefix[0] == text[0]);
        let head = encode_scalar(prefix[0] as u32);
        let rp = encode_utf8(prefix.drop_first());
        let rt = encode_utf8(text.drop_first());
        assert(ep == head + rp);
        assert(et == head + rt);
        assert(rp.is_prefix_of(rt)) by {
            assert(rp.len() <= rt.len());
            assert forall|i: int| 0 <= i < rp.len() implies rp[i] == rt.subrange(
                0,
                rp.len() as int,
            )[i] by {
                assert(ep[head.len() + i] == rp[i]);
                assert(et[head.len() + i] == rt[i]);
            }
            assert(rp =~= rt.subrange(0, rp.len() as int));
        }
        lemma_byte_prefix_gives_text_prefix(prefix.drop_first(), text.drop_first());
        assert forall|i: int| 0 <= i < prefix.len() implies prefix[i] == text.subrange(
            0,
            prefix.len() as int,
        )[i] by {
            if i > 0 {
                assert(prefix.drop_first()[i - 1] == prefix[i]);
                assert(text.drop_first().subrange(0, prefix.len() - 1)[i - 1] == text[i]);
            }
        }
        assert(prefix =~= text.subrange(0, prefix.len() as int));
    }
}

} // verus!
