use vstd::prelude::*;
use vstd::string::*;
use vstd::utf8::*;

verus! {

broadcast use vstd::string::group_string_axioms;

/// The number of bytes of the UTF-8 encoding of a character sequence.
pub open spec fn byte_len(s: Seq<char>) -> nat {
    encode_utf8(s).len()
}

/// The UTF-8 encoding of a concatenation is the concatenation of the encodings.
pub proof fn lemma_encode_concat(a: Seq<char>, b: Seq<char>)
    ensures
        encode_utf8(a + b) == encode_utf8(a) + encode_utf8(b),
    decreases a.len(),
{
    if a.len() == 0 {
        assert(a + b =~= b);
        assert(encode_utf8(a) =~= Seq::<u8>::empty());
        assert(encode_utf8(a) + encode_utf8(b) =~= encode_utf8(b));
    } else {
        lemma_encode_concat(a.drop_first(), b);
        assert((a + b).drop_first() =~= a.drop_first() + b);
        assert((a + b)[0] == a[0]);
        assert(encode_utf8(a + b) =~= encode_scalar(a[0] as u32) + encode_utf8(a.drop_first() + b));
        assert(encode_utf8(a) + encode_utf8(b) =~= encode_scalar(a[0] as u32) + (encode_utf8(
            a.drop_first(),
        ) + encode_utf8(b)));
    }
}

/// The byte length of a character sequence is at least its number of characters.
pub proof fn lemma_byte_len_ge_len(a: Seq<char>)
    ensures
        byte_len(a) >= a.len(),
    decreases a.len(),
{
    if a.len() > 0 {
        lemma_byte_len_ge_len(a.drop_first());
    }
}

/// A single ASCII character is encoded in one byte.
pub proof fn lemma_ascii_char_byte_len(c: char)
    requires
        (c as u32) < 0x80,
    ensures
        byte_len(seq![c]) == 1,
{
    assert(seq![c].drop_first() =~= Seq::<char>::empty());
    assert(encode_utf8(seq![c].drop_first()) =~= Seq::<u8>::empty());
}

/// Byte length of a prefix is bounded by the byte length of the whole sequence.
pub proof fn lemma_byte_len_prefix(s: Seq<char>, i: int, j: int)
    requires
        0 <= i <= j <= s.len(),
    ensures
        byte_len(s.take(i)) + byte_len(s.subrange(i, j)) == byte_len(s.take(j)),
        byte_len(s.take(j)) <= byte_len(s),
{
    lemma_encode_concat(s.take(i), s.subrange(i, j));
    assert(s.take(i) + s.subrange(i, j) =~= s.take(j));
    lemma_encode_concat(s.take(j), s.skip(j));
    assert(s.take(j) + s.skip(j) =~= s);
}

/// The end of the encoding of a prefix is a character boundary of the encoding of the whole.
pub proof fn lemma_char_boundary_concat(a: Seq<char>, b: Seq<char>)
    ensures
        valid_utf8(encode_utf8(a + b)),
        is_char_boundary(encode_utf8(a + b), byte_len(a) as int),
    decreases a.len(),
{
    encode_utf8_valid_utf8(a + b);
    if a.len() == 0 {
    } else {
        let ab = a + b;
        encode_utf8_first_scalar(ab);
        assert(ab[0] == a[0]);
        assert(ab.drop_first() =~= a.drop_first() + b);
        let bytes = encode_utf8(ab);
        assert(pop_first_scalar(bytes) =~= encode_utf8(ab.drop_first()));
        lemma_char_boundary_concat(a.drop_first(), b);
        lemma_encode_concat(a, b);
        lemma_encode_concat(a.drop_first(), b);
        assert(byte_len(a) == encode_scalar(a[0] as u32).len() + byte_len(a.drop_first()));
        assert(encode_scalar(a[0] as u32).len() >= 1);
    }
}

/// The characters of a string slice, in order.
pub fn str_chars(s: &str) -> (v: Vec<char>)
    ensures
        v@ == s@,
{
    let n = s.unicode_len();
    let mut v: Vec<char> = Vec::new();
    let mut i: usize = 0;
    while i < n
        invariant
            n == s@.len(),
            i <= n,
            v@ == s@.take(i as int),
        decreases n - i,
    {
        let c = s.get_char(i);
        v.push(c);
        i = i + 1;
        assert(v@ =~= s@.take(i as int));
    }
    assert(s@.take(n as int) =~= s@);
    v
}

/// Whether two strings are equal.
pub fn str_eq(a: &str, b: &str) -> (r: bool)
    ensures
        r == (a@ == b@),
{
    let x = str_chars(a);
    let y = str_chars(b);
    if x.len() != y.len() {
        return false;
    }
    let mut i: usize = 0;
    while i < x.len()
        invariant
            x@ == a@,
            y@ == b@,
            x.len() == y.len(),
            i <= x.len(),
            forall|j: int| 0 <= j < i ==> x@[j] == y@[j],
        decreases x.len() - i,
    {
        if x[i] != y[i] {
            return false;
        }
        i = i + 1;
    }
    proof {
        assert(x@ =~= y@);
    }
    true
}

} // verus!
