use vstd::prelude::*;
use vstd::utf8::*;
use vstd::string::*;

verus! {

/// The number of UTF-8 bytes that encode the first `i` characters of `s`.
pub open spec fn byte_pos(s: Seq<char>, i: int) -> int {
    encode_utf8(s.take(i)).len() as int
}

/// The number of UTF-8 bytes that encode `c`.
pub open spec fn char_width(c: char) -> int {
    encode_scalar(c as u32).len() as int
}

/// The encoding of two texts one after the other is their encodings one
/// after the other.
pub proof fn lemma_encode_concat(a: Seq<char>, b: Seq<char>)
    ensures
        encode_utf8(a + b) == encode_utf8(a) + encode_utf8(b),
    decreases a.len(),
{
    if a.len() == 0 {
        assert(a + b =~= b);
    } else {
        assert((a + b).drop_first() =~= a.drop_first() + b);
        lemma_encode_concat(a.drop_first(), b);
        assert(encode_utf8(a + b) =~= encode_utf8(a) + encode_utf8(b));
    }
}

/// One more character moves the byte position by its width.
pub proof fn lemma_byte_pos_step(s: Seq<char>, i: int)
    requires
        0 <= i < s.len(),
    ensures
        byte_pos(s, i + 1) == byte_pos(s, i) + char_width(s[i]),
{
    assert(s.take(i + 1) =~= s.take(i) + seq![s[i]]);
    lemma_encode_concat(s.take(i), seq![s[i]]);
    assert(seq![s[i]].drop_first() =~= Seq::<char>::empty());
    reveal_with_fuel(encode_utf8, 2);
    assert(encode_utf8(seq![s[i]]) =~= encode_scalar(s[i] as u32));
}

/// Byte positions grow with character positions.
pub proof fn lemma_byte_pos_mono(s: Seq<char>, i: int, j: int)
    requires
        0 <= i <= j <= s.len(),
    ensures
        byte_pos(s, i) <= byte_pos(s, j),
{
    assert(s.take(j) =~= s.take(i) + s.subrange(i, j));
    lemma_encode_concat(s.take(i), s.subrange(i, j));
}

/// The width of a character in UTF-8 bytes.
pub fn width_of(c: char) -> (w: usize)
    ensures
        w == char_width(c),
        1 <= w <= 4,
{
    proof {
        char_is_scalar(c);
    }
    let v = c as u32;
    if v <= 0x7f {
        1
    } else if v <= 0x7ff {
        2
    } else if v <= 0xffff {
        3
    } else {
        4
    }
}

/// The characters of `input` together with the byte offset of each of them
/// (and of the end of the input).
pub fn decode_chars(input: &str) -> (r: (Vec<char>, Vec<usize>))
    ensures
        r.0@ == input@,
        r.1@.len() == input@.len() + 1,
        forall|i: int| 0 <= i <= input@.len() ==> #[trigger] r.1@[i] == byte_pos(input@, i),
{
    let mut chars: Vec<char> = Vec::new();
    let mut offs: Vec<usize> = Vec::new();
    let mut pos: usize = 0;
    offs.push(0);
    proof {
        assert(input@.take(0) =~= Seq::<char>::empty());
    }
    let ghost whole = input@;
    let total = input.as_bytes().len();
    proof {
        assert(whole.take(whole.len() as int) =~= whole);
    }
    for c in it: input.chars()
        invariant
            whole == input@,
            it.seq() == whole,
            chars@ == whole.take(it.index() as int),
            offs@.len() == chars@.len() + 1,
            forall|i: int| 0 <= i <= chars@.len() ==> #[trigger] offs@[i] == byte_pos(whole, i),
            pos == byte_pos(whole, chars@.len() as int),
            byte_pos(whole, whole.len() as int) == total,
    {
        let ghost k = chars@.len() as int;
        proof {
            lemma_byte_pos_step(whole, k);
            lemma_byte_pos_mono(whole, k + 1, whole.len() as int);
        }
        let w = width_of(c);
        chars.push(c);
        pos = pos + w;
        offs.push(pos);
    }
    (chars, offs)
}

} // verus!

verus! {

/// The bytes of a stretch of characters are the bytes between their
/// byte positions.
pub proof fn lemma_bytes_between(s: Seq<char>, p: int, e: int)
    requires
        0 <= p <= e <= s.len(),
    ensures
        encode_utf8(s.subrange(p, e)) == encode_utf8(s).subrange(byte_pos(s, p), byte_pos(s, e)),
        byte_pos(s, p) <= byte_pos(s, e) <= encode_utf8(s).len(),
{
    let a = s.take(p);
    let m = s.subrange(p, e);
    let z = s.subrange(e, s.len() as int);
    assert(s.take(e) =~= a + m);
    assert(s =~= (a + m) + z);
    assert(s.take(s.len() as int) =~= s);
    lemma_encode_concat(a, m);
    lemma_encode_concat(a + m, z);
    assert(encode_utf8(s).subrange(byte_pos(s, p), byte_pos(s, e)) =~= encode_utf8(m));
}

} // verus!
