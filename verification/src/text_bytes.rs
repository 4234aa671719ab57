//! What matching texts by their characters comes to over their bytes.

use vstd::prelude::*;

verus! {

/// A byte with ASCII letters in lower case.
pub open spec fn folded_byte(b: u8) -> u8 {
    if 65 <= b <= 90 {
        (b + 32) as u8
    } else {
        b
    }
}

/// Bytes with ASCII letters in lower case.
pub open spec fn folded_bytes(bytes: Seq<u8>) -> Seq<u8> {
    bytes.map_values(|b: u8| folded_byte(b))
}

/// `bytes` starts with `prefix`.
pub open spec fn has_prefix(bytes: Seq<u8>, prefix: Seq<u8>) -> bool {
    prefix.len() <= bytes.len() && bytes.take(prefix.len() as int) == prefix
}

/// The bytes of characters that are given by their codes.
spec fn bytes_of(codes: Seq<u32>) -> Seq<u8>
    decreases codes.len(),
{
    if codes.len() == 0 {
        Seq::empty()
    } else {
        vstd::utf8::encode_scalar(codes[0]) + bytes_of(codes.drop_first())
    }
}

/// Every code is one of a character.
spec fn all_scalars(codes: Seq<u32>) -> bool {
    forall|i: int| 0 <= i < codes.len() ==> vstd::utf8::is_scalar(#[trigger] codes[i])
}

/// How wide the character is that a byte leads.
spec fn width_led_by(b: u8) -> int {
    if b <= 0x7f {
        1
    } else if b <= 0xdf {
        2
    } else if b <= 0xef {
        3
    } else {
        4
    }
}

/// An ASCII character is its own byte. The bytes of the others are beyond ASCII, and the
/// first of them tells how many there are.
proof fn lemma_scalar_bytes(v: u32)
    requires
        vstd::utf8::is_scalar(v),
    ensures
        vstd::utf8::encode_scalar(v).len() == width_led_by(vstd::utf8::encode_scalar(v)[0]),
        v <= 0x7f ==> vstd::utf8::encode_scalar(v) == seq![v as u8],
        v > 0x7f ==> forall|i: int|
            0 <= i < vstd::utf8::encode_scalar(v).len() ==> #[trigger] vstd::utf8::encode_scalar(
                v,
            )[i] >= 0x80,
{
    if v <= 0x7f {
        assert((v & 0x7f) as u8 == v as u8 && v as u8 <= 0x7f) by (bit_vector)
            requires
                v <= 0x7f,
        ;
        assert(vstd::utf8::encode_scalar(v) =~= seq![v as u8]);
    } else {
        assert(0x80u8 <= (0x80u8 | (v & 0x3f) as u8)) by (bit_vector);
        assert(0x80u8 <= (0x80u8 | ((v >> 6) & 0x3f) as u8)) by (bit_vector);
        assert(0x80u8 <= (0x80u8 | ((v >> 12) & 0x3f) as u8)) by (bit_vector);
        assert(0xc0u8 <= (0xc0u8 | ((v >> 6) & 0x1f) as u8) <= 0xdfu8) by (bit_vector);
        assert(0xe0u8 <= (0xe0u8 | ((v >> 12) & 0x0f) as u8) <= 0xefu8) by (bit_vector);
        assert(0xf0u8 <= (0xf0u8 | ((v >> 18) & 0x7) as u8)) by (bit_vector);
    }
}

/// Characters with the same bytes are the same.
proof fn lemma_scalar_of_bytes(a: u32, b: u32)
    requires
        vstd::utf8::is_scalar(a),
        vstd::utf8::is_scalar(b),
        vstd::utf8::encode_scalar(a) == vstd::utf8::encode_scalar(b),
    ensures
        a == b,
{
    let s = vstd::utf8::encode_scalar(a);
    let t = vstd::utf8::encode_scalar(b);
    lemma_scalar_bytes(a);
    lemma_scalar_bytes(b);
    assert(s.len() == t.len());
    if a <= 0x7f {
        assert(s[0] == a as u8 && t[0] == b as u8);
    } else if a <= 0x7ff {
        assert(s[0] == t[0] && s[1] == t[1]);
        assert(a == b) by (bit_vector)
            requires
                0x80 <= a <= 0x7ff,
                0x80 <= b <= 0x7ff,
                (0xc0u8 | ((a >> 6) & 0x1f) as u8) == (0xc0u8 | ((b >> 6) & 0x1f) as u8),
                (0x80u8 | (a & 0x3f) as u8) == (0x80u8 | (b & 0x3f) as u8),
        ;
    } else if a <= 0xffff {
        assert(s[0] == t[0] && s[1] == t[1] && s[2] == t[2]);
        assert(a == b) by (bit_vector)
            requires
                0x800 <= a <= 0xffff,
                0x800 <= b <= 0xffff,
                (0xe0u8 | ((a >> 12) & 0x0f) as u8) == (0xe0u8 | ((b >> 12) & 0x0f) as u8),
                (0x80u8 | ((a >> 6) & 0x3f) as u8) == (0x80u8 | ((b >> 6) & 0x3f) as u8),
                (0x80u8 | (a & 0x3f) as u8) == (0x80u8 | (b & 0x3f) as u8),
        ;
    } else {
        assert(s[0] == t[0] && s[1] == t[1] && s[2] == t[2] && s[3] == t[3]);
        assert(a == b) by (bit_vector)
            requires
                0x10000 <= a <= 0x10ffff,
                0x10000 <= b <= 0x10ffff,
                (0xf0u8 | ((a >> 18) & 0x7) as u8) == (0xf0u8 | ((b >> 18) & 0x7) as u8),
                (0x80u8 | ((a >> 12) & 0x3f) as u8) == (0x80u8 | ((b >> 12) & 0x3f) as u8),
                (0x80u8 | ((a >> 6) & 0x3f) as u8) == (0x80u8 | ((b >> 6) & 0x3f) as u8),
                (0x80u8 | (a & 0x3f) as u8) == (0x80u8 | (b & 0x3f) as u8),
        ;
    }
}

/// Folding the characters of a text folds its bytes.
proof fn lemma_folded_text(text: Seq<char>)
    ensures
        bytes_of(crate::text::codes(text, true)) == folded_bytes(vstd::utf8::encode_utf8(text)),
        all_scalars(crate::text::codes(text, true)),
    decreases text.len(),
{
    let codes = crate::text::codes(text, true);
    assert forall|i: int| 0 <= i < codes.len() implies vstd::utf8::is_scalar(
        #[trigger] codes[i],
    ) by {
        vstd::utf8::char_is_scalar(text[i]);
    }
    if text.len() == 0 {
        assert(folded_bytes(vstd::utf8::encode_utf8(text)) =~= Seq::<u8>::empty());
    } else {
        let rest = text.drop_first();
        lemma_folded_text(rest);
        assert(codes.drop_first() =~= crate::text::codes(rest, true));
        let v = text[0] as u32;
        vstd::utf8::char_is_scalar(text[0]);
        lemma_scalar_bytes(v);
        lemma_scalar_bytes(codes[0]);
        let head = vstd::utf8::encode_scalar(v);
        assert(vstd::utf8::encode_scalar(codes[0]) =~= folded_bytes(head));
        assert(folded_bytes(head + vstd::utf8::encode_utf8(rest)) =~= folded_bytes(head)
            + folded_bytes(vstd::utf8::encode_utf8(rest)));
    }
}

/// Characters start with others where their bytes do.
proof fn lemma_prefix_over_bytes(text: Seq<u32>, prefix: Seq<u32>)
    requires
        all_scalars(text),
        all_scalars(prefix),
    ensures
        crate::text::stands_at(text, prefix, 0) == has_prefix(bytes_of(text), bytes_of(prefix)),
    decreases prefix.len(),
{
    let all = bytes_of(text);
    let wanted = bytes_of(prefix);
    if prefix.len() == 0 {
        assert(text.subrange(0, 0) =~= prefix);
        assert(all.take(0) =~= wanted);
    } else if text.len() == 0 {
        lemma_scalar_bytes(prefix[0]);
    } else {
        let text_rest = text.drop_first();
        let prefix_rest = prefix.drop_first();
        let s = vstd::utf8::encode_scalar(text[0]);
        let t = vstd::utf8::encode_scalar(prefix[0]);
        lemma_scalar_bytes(text[0]);
        lemma_scalar_bytes(prefix[0]);
        lemma_prefix_over_bytes(text_rest, prefix_rest);
        if crate::text::stands_at(text, prefix, 0) {
            assert(text.subrange(0, prefix.len() as int)[0] == prefix[0]);
            assert(text_rest.subrange(0, prefix_rest.len() as int) =~= text.subrange(
                0,
                prefix.len() as int,
            ).drop_first());
            assert(all.take(wanted.len() as int) =~= t + bytes_of(text_rest).take(
                bytes_of(prefix_rest).len() as int,
            ));
        }
        if has_prefix(all, wanted) {
            assert(all.take(wanted.len() as int)[0] == wanted[0]);
            assert(s[0] == t[0]);
            assert(s.len() == t.len());
            assert forall|i: int| 0 <= i < s.len() implies s[i] == t[i] by {
                assert(all[i] == s[i] && wanted[i] == t[i]);
                assert(all.take(wanted.len() as int)[i] == wanted[i]);
            }
            assert(s =~= t);
            lemma_scalar_of_bytes(text[0], prefix[0]);
            let n = bytes_of(prefix_rest).len() as int;
            assert forall|i: int| 0 <= i < n implies bytes_of(text_rest)[i] == bytes_of(
                prefix_rest,
            )[i] by {
                assert(all[s.len() + i] == bytes_of(text_rest)[i]);
                assert(wanted[s.len() + i] == bytes_of(prefix_rest)[i]);
                assert(all.take(wanted.len() as int)[s.len() + i] == wanted[s.len() + i]);
            }
            assert(bytes_of(text_rest).take(n) =~= bytes_of(prefix_rest));
            assert(text.subrange(0, prefix.len() as int) =~= seq![text[0]] + text_rest.subrange(
                0,
                prefix_rest.len() as int,
            ));
            assert(prefix =~= seq![prefix[0]] + prefix_rest);
        }
    }
}

/// A text starts with a prefix, ASCII case aside, exactly where its bytes start with the
/// bytes of the prefix, ASCII case aside.
pub proof fn folded_prefix_is_one_of_bytes(text: Seq<char>, prefix: Seq<char>)
    ensures
        crate::text::stands_at(
            crate::text::codes(text, true),
            crate::text::codes(prefix, true),
            0,
        ) == has_prefix(
            folded_bytes(vstd::utf8::encode_utf8(text)),
            folded_bytes(vstd::utf8::encode_utf8(prefix)),
        ),
{
    lemma_folded_text(text);
    lemma_folded_text(prefix);
    lemma_prefix_over_bytes(crate::text::codes(text, true), crate::text::codes(prefix, true));
}

/// The ASCII case of a prefix is no matter: one with the same bytes but for that stands at
/// the start of the same texts.
pub proof fn prefix_case_is_no_matter(text: Seq<char>, prefix: Seq<char>, other: Seq<char>)
    requires
        folded_bytes(vstd::utf8::encode_utf8(prefix)) == folded_bytes(
            vstd::utf8::encode_utf8(other),
        ),
    ensures
        crate::text::stands_at(
            crate::text::codes(text, true),
            crate::text::codes(prefix, true),
            0,
        ) == crate::text::stands_at(
            crate::text::codes(text, true),
            crate::text::codes(other, true),
            0,
        ),
{
    folded_prefix_is_one_of_bytes(text, prefix);
    folded_prefix_is_one_of_bytes(text, other);
}

} // verus!
