//! BLAKE3 hashing of unit fingerprints.

use vstd::prelude::*;
use vstd::string::*;

verus! {

/// The BLAKE3 hasher of the `blake3` crate.
#[verifier::external_type_specification]
#[verifier::external_body]
pub struct ExHasher(blake3::Hasher);

/// The bytes that have been fed to a hasher.
pub uninterp spec fn hasher_input(h: blake3::Hasher) -> Seq<u8>;

/// The 32-byte BLAKE3 hash of an input.
pub uninterp spec fn blake3_digest(input: Seq<u8>) -> Seq<u8>;

/// Calls `blake3::Hasher::new`: a hasher that has been fed nothing.
#[verifier::external_body]
fn new_hasher() -> (h: blake3::Hasher)
    ensures
        hasher_input(h) == Seq::<u8>::empty(),
{
    blake3::Hasher::new()
}

/// Calls `blake3::Hasher::update`: the hasher has been fed `input` after what it was fed before.
#[verifier::external_body]
fn hasher_update(h: &mut blake3::Hasher, input: &[u8])
    ensures
        hasher_input(*final(h)) == hasher_input(*old(h)) + input@,
{
    h.update(input);
}

/// Calls `blake3::Hasher::finalize` and takes the bytes of the hash: the BLAKE3
/// hash of everything the hasher has been fed, as the crate's documentation
/// shows for incremental hashing.
#[verifier::external_body]
fn hasher_finalize(h: &blake3::Hasher) -> (r: [u8; 32])
    ensures
        r@ == blake3_digest(hasher_input(*h)),
{
    *h.finalize().as_bytes()
}

/// Calls `blake3::hash` and takes the bytes of the hash: the BLAKE3 hash of
/// `input`. The crate's documentation of `hash` shows it equal to feeding the
/// input to a new `Hasher` and finalizing it, which `blake3_digest` names.
#[verifier::external_body]
pub(crate) fn blake3_hash(input: &[u8]) -> (r: [u8; 32])
    ensures
        r@ == blake3_digest(input@),
{
    *blake3::hash(input).as_bytes()
}

/// The lowercase hexadecimal digit of a number below sixteen.
pub open spec fn hex_digit(n: u8) -> char {
    if n < 10 {
        (48 + n) as char
    } else {
        (87 + n) as char
    }
}

/// The lowercase hexadecimal encoding of bytes, two digits per byte, high digit first.
pub open spec fn lower_hex(b: Seq<u8>) -> Seq<char>
    decreases b.len(),
{
    if b.len() == 0 {
        Seq::empty()
    } else {
        lower_hex(b.drop_last()) + seq![hex_digit(b.last() / 16), hex_digit(b.last() % 16)]
    }
}

fn hex_digit_str(n: u8) -> (s: &'static str)
    requires
        n < 16,
    ensures
        s@ == seq![hex_digit(n)],
{
    proof {
        reveal_strlit("0");
        reveal_strlit("1");
        reveal_strlit("2");
        reveal_strlit("3");
        reveal_strlit("4");
        reveal_strlit("5");
        reveal_strlit("6");
        reveal_strlit("7");
        reveal_strlit("8");
        reveal_strlit("9");
        reveal_strlit("a");
        reveal_strlit("b");
        reveal_strlit("c");
        reveal_strlit("d");
        reveal_strlit("e");
        reveal_strlit("f");
    }
    if n == 0 {
        "0"
    } else if n == 1 {
        "1"
    } else if n == 2 {
        "2"
    } else if n == 3 {
        "3"
    } else if n == 4 {
        "4"
    } else if n == 5 {
        "5"
    } else if n == 6 {
        "6"
    } else if n == 7 {
        "7"
    } else if n == 8 {
        "8"
    } else if n == 9 {
        "9"
    } else if n == 10 {
        "a"
    } else if n == 11 {
        "b"
    } else if n == 12 {
        "c"
    } else if n == 13 {
        "d"
    } else if n == 14 {
        "e"
    } else {
        "f"
    }
}

/// The lowercase hexadecimal encoding of a hash, as `blake3::Hash::to_hex`
/// and the hash's `Display` give it: two digits per byte, high digit first.
pub fn hash_to_hex(bytes: &[u8; 32]) -> (r: String)
    ensures
        r@ == lower_hex(bytes@),
{
    let mut r = String::new();
    let mut i: usize = 0;
    proof {
        assert(bytes@.take(0) =~= Seq::<u8>::empty());
    }
    while i < 32
        invariant
            i <= 32,
            bytes@.len() == 32,
            r@ == lower_hex(bytes@.take(i as int)),
        decreases 32 - i,
    {
        let b = bytes[i];
        r.append(hex_digit_str(b / 16));
        r.append(hex_digit_str(b % 16));
        proof {
            assert(bytes@.take(i + 1).drop_last() =~= bytes@.take(i as int));
            assert(bytes@.take(i + 1).last() == b);
            assert(r@ =~= lower_hex(bytes@.take(i + 1)));
        }
        i += 1;
    }
    proof {
        assert(bytes@.take(32) =~= bytes@);
    }
    r
}

/// The bytes of a list of chunks, in order.
pub open spec fn concat_chunks(chunks: Seq<Vec<u8>>) -> Seq<u8>
    decreases chunks.len(),
{
    if chunks.len() == 0 {
        Seq::empty()
    } else {
        concat_chunks(chunks.drop_last()) + chunks.last()@
    }
}

/// The bytes of chunks are those of each chunk, in order: no chunk is
/// dropped, and the bytes of two lists of chunks put together are those of
/// the first list followed by those of the second.
pub proof fn lemma_concat_chunks(a: Seq<Vec<u8>>, b: Seq<Vec<u8>>, c: Vec<u8>)
    ensures
        concat_chunks(Seq::<Vec<u8>>::empty()) == Seq::<u8>::empty(),
        concat_chunks(seq![c]) == c@,
        concat_chunks(a + b) == concat_chunks(a) + concat_chunks(b),
        concat_chunks(a + b).len() == concat_chunks(a).len() + concat_chunks(b).len(),
    decreases b.len(),
{
    assert(seq![c].drop_last() =~= Seq::<Vec<u8>>::empty());
    assert(seq![c].last() == c);
    assert(concat_chunks(seq![c]) == concat_chunks(Seq::<Vec<u8>>::empty()) + c@);
    assert(Seq::<u8>::empty() + c@ =~= c@);
    if b.len() == 0 {
        assert(a + b =~= a);
        assert(concat_chunks(a) + Seq::<u8>::empty() =~= concat_chunks(a));
    } else {
        lemma_concat_chunks(a, b.drop_last(), c);
        assert((a + b).drop_last() =~= a + b.drop_last());
        assert((a + b).last() == b.last());
        assert(concat_chunks(a) + concat_chunks(b.drop_last()) + b.last()@ =~= concat_chunks(a) + (
        concat_chunks(b.drop_last()) + b.last()@));
    }
}

/// The BLAKE3 hash of the chunks fed in order to one hasher.
pub fn hash_chunks(chunks: &Vec<Vec<u8>>) -> (r: [u8; 32])
    ensures
        r@ == blake3_digest(concat_chunks(chunks@)),
{
    let mut h = new_hasher();
    let mut i: usize = 0;
    while i < chunks.len()
        invariant
            i <= chunks@.len(),
            hasher_input(h) == concat_chunks(chunks@.take(i as int)),
        decreases chunks@.len() - i,
    {
        hasher_update(&mut h, chunks[i].as_slice());
        proof {
            assert(chunks@.take(i + 1).drop_last() =~= chunks@.take(i as int));
        }
        i += 1;
    }
    proof {
        assert(chunks@.take(i as int) =~= chunks@);
    }
    hasher_finalize(&h)
}

} // verus!
