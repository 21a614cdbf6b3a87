//! Wire encoding of records. A numeric record is a tuple of 64-bit words
//! (the bit patterns of its elements), written as 8 big-endian bytes per
//! word in tuple order with no delimiter. A text record is written as its
//! raw bytes, again with no delimiter. A decoder for the numeric form is
//! provided so the encoding can be checked against what was pushed.

use vstd::prelude::*;

verus! {

/// A record type that knows its own wire form.
pub trait Record: Sized + Clone {
    /// The wire bytes of this record.
    spec fn enc(self) -> Seq<u8>;

    /// Encode this record for the wire.
    fn encode(&self) -> (r: Vec<u8>)
        ensures
            r@ == self.enc(),
    ;

    /// A clone of a record has the very same wire form, so a copy handed
    /// out by a store encodes as the stored record does.
    proof fn enc_respects_clone(a: Self, b: Self)
        requires
            cloned(a, b),
        ensures
            b.enc() == a.enc(),
    ;
}

/// The 8 big-endian bytes of one 64-bit word.
pub open spec fn be_bytes(x: u64) -> Seq<u8> {
    seq![
        ((x >> 56) & 0xff) as u8,
        ((x >> 48) & 0xff) as u8,
        ((x >> 40) & 0xff) as u8,
        ((x >> 32) & 0xff) as u8,
        ((x >> 24) & 0xff) as u8,
        ((x >> 16) & 0xff) as u8,
        ((x >> 8) & 0xff) as u8,
        (x & 0xff) as u8,
    ]
}

/// The wire bytes of a tuple of 64-bit words: 8 bytes per word, in order,
/// no delimiter.
pub open spec fn enc_words(s: Seq<u64>) -> Seq<u8>
    decreases s.len(),
{
    if s.len() == 0 {
        Seq::empty()
    } else {
        be_bytes(s[0]) + enc_words(s.drop_first())
    }
}

/// The word packed from 8 big-endian bytes.
pub open spec fn word_of(b: Seq<u8>) -> u64 {
    ((b[0] as u64) << 56) | ((b[1] as u64) << 48) | ((b[2] as u64) << 40) | ((b[3] as u64) << 32)
        | ((b[4] as u64) << 24) | ((b[5] as u64) << 16) | ((b[6] as u64) << 8) | (b[7] as u64)
}

/// The words packed from a run of whole 8-byte groups; a trailing partial
/// group yields nothing.
pub open spec fn dec_words(b: Seq<u8>) -> Seq<u64>
    decreases b.len(),
{
    if b.len() < 8 {
        Seq::empty()
    } else {
        seq![word_of(b.take(8))] + dec_words(b.skip(8))
    }
}

/// Encoding distributes over concatenation of word tuples.
proof fn lemma_enc_words_app(a: Seq<u64>, b: Seq<u64>)
    ensures
        enc_words(a + b) == enc_words(a) + enc_words(b),
    decreases a.len(),
{
    if a.len() == 0 {
        assert(a + b =~= b);
        assert(enc_words(a) + enc_words(b) =~= enc_words(b));
    } else {
        assert((a + b).drop_first() =~= a.drop_first() + b);
        lemma_enc_words_app(a.drop_first(), b);
        assert((a + b)[0] == a[0]);
        assert(enc_words(a + b) =~= enc_words(a) + enc_words(b));
    }
}

/// Each word contributes exactly 8 bytes.
pub proof fn lemma_enc_words_len(s: Seq<u64>)
    ensures
        enc_words(s).len() == 8 * s.len(),
    decreases s.len(),
{
    if s.len() > 0 {
        lemma_enc_words_len(s.drop_first());
    }
}

/// Packing the big-endian bytes of a word gives the word back.
proof fn lemma_word_of_be(x: u64)
    ensures
        word_of(be_bytes(x)) == x,
{
    assert((((x >> 56) & 0xff) as u8 as u64) << 56 | (((x >> 48) & 0xff) as u8 as u64) << 48 | (((x
        >> 40) & 0xff) as u8 as u64) << 40 | (((x >> 32) & 0xff) as u8 as u64) << 32 | (((x >> 24)
        & 0xff) as u8 as u64) << 24 | (((x >> 16) & 0xff) as u8 as u64) << 16 | (((x >> 8)
        & 0xff) as u8 as u64) << 8 | ((x & 0xff) as u8 as u64) == x) by (bit_vector);
}

/// Round trip: decoding the wire bytes of any tuple of words gives back
/// exactly the words that were encoded.
pub proof fn lemma_words_round_trip(s: Seq<u64>)
    ensures
        dec_words(enc_words(s)) == s,
    decreases s.len(),
{
    if s.len() == 0 {
        assert(dec_words(enc_words(s)) =~= s);
    } else {
        let rest = s.drop_first();
        lemma_enc_words_len(rest);
        assert(enc_words(s).take(8) =~= be_bytes(s[0]));
        assert(enc_words(s).skip(8) =~= enc_words(rest));
        lemma_word_of_be(s[0]);
        lemma_words_round_trip(rest);
        assert(dec_words(enc_words(s)) =~= s);
    }
}

/// Append the 8 big-endian bytes of `x` to `out`.
fn push_be_bytes(out: &mut Vec<u8>, x: u64)
    ensures
        final(out)@ == old(out)@ + be_bytes(x),
{
    out.push(((x >> 56) & 0xff) as u8);
    out.push(((x >> 48) & 0xff) as u8);
    out.push(((x >> 40) & 0xff) as u8);
    out.push(((x >> 32) & 0xff) as u8);
    out.push(((x >> 24) & 0xff) as u8);
    out.push(((x >> 16) & 0xff) as u8);
    out.push(((x >> 8) & 0xff) as u8);
    out.push((x & 0xff) as u8);
    proof {
        assert(out@ =~= old(out)@ + be_bytes(x));
    }
}

/// A clone of a word tuple carries exactly the same words.
pub proof fn lemma_clone_keeps_words(a: Vec<u64>, b: Vec<u64>)
    requires
        cloned(a, b),
    ensures
        b@ == a@,
{
    if a != b {
        assert forall|i: int| 0 <= i < a@.len() implies b@[i] == a@[i] by {
            assert(cloned::<u64>(a[i], b[i]));
        }
        assert(b@ =~= a@);
    }
}

/// A clone of a byte record carries exactly the same bytes.
pub proof fn lemma_clone_keeps_bytes(a: Vec<u8>, b: Vec<u8>)
    requires
        cloned(a, b),
    ensures
        b@ == a@,
{
    if a != b {
        assert forall|i: int| 0 <= i < a@.len() implies b@[i] == a@[i] by {
            assert(cloned::<u8>(a[i], b[i]));
        }
        assert(b@ =~= a@);
    }
}

impl Record for Vec<u64> {
    /// A numeric record: 8 big-endian bytes per word, in tuple order.
    open spec fn enc(self) -> Seq<u8> {
        enc_words(self@)
    }

    proof fn enc_respects_clone(a: Self, b: Self) {
        lemma_clone_keeps_words(a, b);
    }

    fn encode(&self) -> (r: Vec<u8>) {
        let mut out: Vec<u8> = Vec::new();
        let mut i: usize = 0;
        while i < self.len()
            invariant
                i <= self@.len(),
                out@ == enc_words(self@.take(i as int)),
            decreases self@.len() - i,
        {
            push_be_bytes(&mut out, self[i]);
            proof {
                assert(self@.take(i + 1) =~= self@.take(i as int) + seq![self@[i as int]]);
                lemma_enc_words_app(self@.take(i as int), seq![self@[i as int]]);
                assert(seq![self@[i as int]].drop_first() =~= Seq::<u64>::empty());
                assert(enc_words(Seq::<u64>::empty()) =~= Seq::<u8>::empty());
                assert(enc_words(seq![self@[i as int]]) =~= be_bytes(self@[i as int]));
            }
            i = i + 1;
        }
        proof {
            assert(self@.take(self@.len() as int) =~= self@);
        }
        out
    }
}

impl Record for Vec<u8> {
    /// A text record: its raw bytes, unchanged.
    open spec fn enc(self) -> Seq<u8> {
        self@
    }

    proof fn enc_respects_clone(a: Self, b: Self) {
        lemma_clone_keeps_bytes(a, b);
    }

    fn encode(&self) -> (r: Vec<u8>) {
        let mut out: Vec<u8> = Vec::new();
        let mut i: usize = 0;
        while i < self.len()
            invariant
                i <= self@.len(),
                out@ == self@.take(i as int),
            decreases self@.len() - i,
        {
            out.push(self[i]);
            proof {
                assert(self@.take(i + 1) =~= self@.take(i as int) + seq![self@[i as int]]);
            }
            i = i + 1;
        }
        proof {
            assert(self@.take(self@.len() as int) =~= self@);
        }
        out
    }
}

/// Decoding distributes over concatenation after any run of whole groups.
proof fn lemma_dec_words_app(a: Seq<u8>, b: Seq<u8>)
    requires
        a.len() % 8 == 0,
    ensures
        dec_words(a + b) == dec_words(a) + dec_words(b),
    decreases a.len(),
{
    if a.len() == 0 {
        assert(a + b =~= b);
        assert(dec_words(a) + dec_words(b) =~= dec_words(b));
    } else {
        assert((a + b).take(8) =~= a.take(8));
        assert((a + b).skip(8) =~= a.skip(8) + b);
        lemma_dec_words_app(a.skip(8), b);
        assert(dec_words(a + b) =~= dec_words(a) + dec_words(b));
    }
}

/// Unpack whole 8-byte groups back into words. Succeeds exactly on byte
/// strings made of whole groups, and then returns exactly the words whose
/// encoding the input is.
pub fn decode_words(bytes: &Vec<u8>) -> (r: Option<Vec<u64>>)
    ensures
        match r {
            Some(v) => bytes@.len() % 8 == 0 && v@ == dec_words(bytes@),
            None => bytes@.len() % 8 != 0,
        },
{
    if bytes.len() % 8 != 0 {
        return None;
    }
    let mut out: Vec<u64> = Vec::new();
    let mut i: usize = 0;
    while i < bytes.len()
        invariant
            i <= bytes@.len(),
            i % 8 == 0,
            bytes@.len() % 8 == 0,
            out@ == dec_words(bytes@.take(i as int)),
        decreases bytes@.len() - i,
    {
        proof {
            lemma_whole_groups_left(i as int, bytes@.len() as int);
        }
        let x: u64 = ((bytes[i] as u64) << 56) | ((bytes[i + 1] as u64) << 48) | ((bytes[i
            + 2] as u64) << 40) | ((bytes[i + 3] as u64) << 32) | ((bytes[i + 4] as u64) << 24) | ((
        bytes[i + 5] as u64) << 16) | ((bytes[i + 6] as u64) << 8) | (bytes[i + 7] as u64);
        out.push(x);
        proof {
            let pre = bytes@.take(i as int);
            let grp = bytes@.subrange(i as int, i + 8);
            assert(bytes@.take(i + 8) =~= pre + grp);
            lemma_dec_words_app(pre, grp);
            assert(grp.take(8) =~= grp);
            assert(grp.skip(8) =~= Seq::<u8>::empty());
            assert(dec_words(Seq::<u8>::empty()) =~= Seq::<u64>::empty());
            assert(dec_words(grp) =~= seq![word_of(grp)]);
            assert(x == word_of(grp));
        }
        i = i + 8;
    }
    proof {
        assert(bytes@.take(bytes@.len() as int) =~= bytes@);
    }
    Some(out)
}

/// Inside a byte string of whole 8-byte groups, a group starting at a group
/// boundary lies entirely inside the string.
proof fn lemma_whole_groups_left(i: int, len: int)
    by (nonlinear_arith)
    requires
        0 <= i < len,
        i % 8 == 0,
        len % 8 == 0,
    ensures
        i + 8 <= len,
{
}

} // verus!
