use vstd::prelude::*;

use vstd::arithmetic::div_mod::{lemma_add_mod_noop_right, lemma_mul_mod_noop_left};
use vstd::string::StrSliceExecFns;

use crate::alphabet::{
    index_spec, lemma_index_range, lemma_index_symbol, lemma_symbol_index, nth_symbol, symbol_spec,
};
use crate::digits::{
    digit_seq, digits128, fold_value, lemma_digits_in_range, lemma_digits_len_bounds,
    lemma_fold_value_from_zero, lemma_value_of_digit_seq, pow128,
};

verus! {

/// Why an encode or decode call was refused.
#[derive(Debug, Clone, Copy, PartialEq, Eq)]
pub enum CodecError {
    /// The scramble offset handed to an encode call lies outside [0, 128).
    InvalidSeed,
    /// The string handed to decode has fewer than the two symbols every
    /// encoding carries (seed symbol plus at least one digit symbol).
    TooShort,
    /// The named symbol met during decoding is not in the alphabet.
    UnknownSymbol(char),
}

/// The alphabet as a sequence: position `i` holds `symbol_spec(i)`.
pub open spec fn alphabet_seq() -> Seq<char> {
    Seq::new(128, |i: int| symbol_spec(i))
}

/// Each digit scrambled by the seed (a modular offset) and mapped to its
/// symbol.
pub open spec fn scrambled_symbols(ds: Seq<int>, seed: int) -> Seq<char> {
    ds.map(|_i: int, d: int| symbol_spec((d + seed) % 128))
}

/// The one string `encode_with_seed` yields for `n` under `seed`: the seed's
/// own symbol, then the scrambled digits, most significant first.
pub open spec fn encoded_spec(n: nat, seed: int) -> Seq<char> {
    seq![symbol_spec(seed)] + scrambled_symbols(digit_seq(n), seed)
}

/// A scrambled position taken back to the digit it stood for.
pub open spec fn unscramble(idx: int, seed: int) -> int {
    (idx - seed + 128) % 128
}

/// Decoding of the digit symbols after the seed symbol, left to right with an
/// accumulator; stops at the first symbol the reverse map does not know.
pub open spec fn decode_digits(cs: Seq<char>, seed: int, acc: int) -> Result<int, CodecError>
    decreases cs.len(),
{
    if cs.len() == 0 {
        Ok(acc)
    } else if index_spec(cs.first()) < 0 {
        Err(CodecError::UnknownSymbol(cs.first()))
    } else {
        decode_digits(cs.drop_first(), seed, acc * 128 + unscramble(index_spec(cs.first()), seed))
    }
}

/// The number a symbol sequence decodes to, or the error decoding stops with:
/// under two symbols is too short; then the first symbol names the seed, and
/// the rest are unscrambled digits.
pub open spec fn decode_spec(cs: Seq<char>) -> Result<int, CodecError> {
    if cs.len() < 2 {
        Err(CodecError::TooShort)
    } else if index_spec(cs.first()) < 0 {
        Err(CodecError::UnknownSymbol(cs.first()))
    } else {
        decode_digits(cs.drop_first(), index_spec(cs.first()), 0)
    }
}

/// The codec: the fixed 128-symbol alphabet, built once at construction and
/// read-only afterwards. Looking a symbol up in the table realizes the
/// reverse map.
pub struct HangulNumberConverter {
    symbols: Vec<char>,
}

impl HangulNumberConverter {
    /// The table holds exactly the 128-symbol alphabet.
    pub closed spec fn wf(&self) -> bool {
        self.symbols@ == alphabet_seq()
    }

    /// Builds the converter's symbol table. The table's length of 128 and the
    /// distinctness of its entries are established statically, so the
    /// malformed-alphabet case needs no run-time answer.
    pub fn new() -> (c: Self)
        ensures
            c.wf(),
    {
        let mut symbols: Vec<char> = Vec::new();
        for d in 0..128usize
            invariant
                symbols@.len() == d,
                forall|k: int| 0 <= k < d ==> symbols@[k] == symbol_spec(k),
        {
            symbols.push(nth_symbol(d as u8));
        }
        let c = HangulNumberConverter { symbols };
        proof {
            assert(c.symbols@ =~= alphabet_seq());
        }
        c
    }

    /// The reverse lookup: the position of `c` in the alphabet, if any.
    fn index_of(&self, c: char) -> (r: Option<u8>)
        requires
            self.wf(),
        ensures
            match r {
                Some(d) => index_spec(c) == d as int && d < 128,
                None => index_spec(c) == -1,
            },
    {
        let mut i: usize = 0;
        while i < 128
            invariant
                self.wf(),
                i <= 128,
                forall|k: int| 0 <= k < i ==> symbol_spec(k) != c,
            decreases 128 - i,
        {
            if self.symbols[i] == c {
                proof {
                    lemma_symbol_index(i as int);
                }
                return Some(i as u8);
            }
            i = i + 1;
        }
        proof {
            lemma_index_range(c);
            if index_spec(c) >= 0 {
                lemma_index_symbol(c);
                assert(false);
            }
        }
        None
    }

    /// Encodes `num` under the given scramble offset: the seed's symbol, then
    /// the base-128 digits of `num` (most significant first, a single zero
    /// digit for zero), each offset by the seed modulo 128 and mapped to its
    /// symbol. Refused exactly when the seed is outside [0, 128).
    pub fn encode_with_seed(&self, num: u64, seed: usize) -> (r: Result<String, CodecError>)
        requires
            self.wf(),
        ensures
            seed >= 128 ==> r == Err::<String, CodecError>(CodecError::InvalidSeed),
            seed < 128 ==> (r matches Ok(out) && out@ == encoded_spec(num as nat, seed as int)),
    {
        if seed >= 128 {
            return Err(CodecError::InvalidSeed);
        }
        let mut out = String::new();
        push_char(&mut out, self.symbols[seed]);
        if num == 0 {
            push_char(&mut out, self.symbols[seed]);
            proof {
                assert(digit_seq(0)[0] == 0);
                assert(scrambled_symbols(digit_seq(0), seed as int)[0] == symbol_spec(
                    seed as int,
                ));
                assert(out@ =~= encoded_spec(0, seed as int));
            }
            return Ok(out);
        }
        let mut lsb: Vec<u8> = Vec::new();
        let mut temp = num;
        while temp > 0
            invariant
                digits128(num as nat) =~= digits128(temp as nat) + lsb@.map_values(
                    |x: u8| x as int,
                ).reverse(),
            decreases temp,
        {
            let d = (temp % 128) as u8;
            proof {
                let pre = lsb@.map_values(|x: u8| x as int).reverse();
                let post = lsb@.push(d).map_values(|x: u8| x as int).reverse();
                assert(post =~= seq![d as int] + pre);
                assert(digits128(temp as nat) == digits128((temp / 128) as nat).push(d as int));
                assert(digits128((temp / 128) as nat) + post =~= digits128(temp as nat) + pre);
            }
            lsb.push(d);
            temp = temp / 128;
        }
        let n = lsb.len();
        proof {
            assert(digits128((temp / 128) as nat) =~= Seq::<int>::empty());
            assert(digits128(num as nat) =~= lsb@.map_values(|x: u8| x as int).reverse());
            assert(digits128(num as nat).len() == n);
        }
        for k in 0..n
            invariant
                self.wf(),
                n == lsb.len(),
                digits128(num as nat) =~= lsb@.map_values(|x: u8| x as int).reverse(),
                seed < 128,
                out@ =~= seq![symbol_spec(seed as int)] + scrambled_symbols(
                    digits128(num as nat).take(k as int),
                    seed as int,
                ),
        {
            let d = lsb[n - 1 - k];
            proof {
                assert(digits128(num as nat)[k as int] == lsb@.map_values(|x: u8| x as int)[n - 1
                    - k]);
                lemma_digits_in_range(num as nat);
            }
            let scrambled = (d as usize + seed) % 128;
            push_char(&mut out, self.symbols[scrambled]);
            proof {
                let ds = digits128(num as nat);
                assert(scrambled_symbols(ds.take(k + 1), seed as int) =~= scrambled_symbols(
                    ds.take(k as int),
                    seed as int,
                ).push(symbol_spec((ds[k as int] + seed as int) % 128)));
            }
        }
        proof {
            let ds = digits128(num as nat);
            assert(ds.take(n as int) =~= ds);
            assert(out@ =~= encoded_spec(num as nat, seed as int));
        }
        Ok(out)
    }

    /// Encodes `num` under a scramble offset drawn from the clock's
    /// subsecond nanoseconds; whatever that draw was, the result is one of
    /// the 128 encodings of `num` and decodes back to it.
    pub fn encode(&self, num: u64) -> (r: Result<String, CodecError>)
        requires
            self.wf(),
        ensures
            r matches Ok(out) && (exists|sd: int|
                0 <= sd < 128 && out@ == encoded_spec(num as nat, sd)),
            r matches Ok(out) ==> decode_spec(out@) == Ok::<int, CodecError>(num as int),
    {
        let nanos = subsec_nanos_now();
        let seed = (nanos % 128) as usize;
        let r = self.encode_with_seed(num, seed);
        proof {
            lemma_round_trip(num, seed as int);
        }
        if let Ok(out) = &r {
            proof {
                assert(seed < 128 && out@ == encoded_spec(num as nat, seed as int));
            }
        }
        r
    }

    /// Encodes `num` once under every seed 0..127, in ascending seed order.
    /// Infallible: every seed the loop hands over is in range.
    pub fn encode_all(&self, num: u64) -> (r: Result<Vec<String>, CodecError>)
        requires
            self.wf(),
        ensures
            r matches Ok(v) && v@.len() == 128,
            r matches Ok(v) ==> forall|sd: int|
                0 <= sd < 128 ==> (#[trigger] v@[sd])@ == encoded_spec(num as nat, sd),
            r matches Ok(v) ==> forall|sd: int|
                0 <= sd < 128 ==> decode_spec((#[trigger] v@[sd])@) == Ok::<int, CodecError>(
                    num as int,
                ),
    {
        let mut results: Vec<String> = Vec::new();
        for seed in 0..128usize
            invariant
                self.wf(),
                results@.len() == seed,
                forall|sd: int|
                    0 <= sd < seed ==> (#[trigger] results@[sd])@ == encoded_spec(num as nat, sd),
        {
            match self.encode_with_seed(num, seed) {
                Ok(s) => results.push(s),
                Err(_) => {
                    proof {
                        assert(false);
                    }
                },
            }
        }
        proof {
            assert forall|sd: int| 0 <= sd < 128 implies decode_spec((#[trigger] results@[sd])@)
                == Ok::<int, CodecError>(num as int) by {
                lemma_round_trip(num, sd);
            }
        }
        Ok(results)
    }

    /// Decodes an encoded string back to the number it spells: the first
    /// symbol names the seed, each later symbol is unscrambled to a base-128
    /// digit, and the digits accumulate most significant first. The exact
    /// outcome, errors included, is `decode_spec` of the string's symbols; a
    /// value past the 64-bit range (no encoding of this codec yields one, but
    /// arbitrary input can) is truncated modulo 2^64.
    pub fn decode(&self, s: &str) -> (r: Result<u64, CodecError>)
        requires
            self.wf(),
        ensures
            decode_spec(s@) matches Ok(v) ==> (r matches Ok(u) && u as int == v
                % 0x1_0000_0000_0000_0000),
            decode_spec(s@) matches Ok(v) ==> (v <= u64::MAX ==> r == Ok::<u64, CodecError>(
                v as u64,
            )),
            decode_spec(s@) matches Err(e) ==> r == Err::<u64, CodecError>(e),
    {
        let total = s.unicode_len();
        if total < 2 {
            return Err(CodecError::TooShort);
        }
        let seed_sym = s.get_char(0);
        let seed: u8 = match self.index_of(seed_sym) {
            Some(d) => d,
            None => {
                return Err(CodecError::UnknownSymbol(seed_sym));
            },
        };
        let mut acc: u64 = 0;
        let ghost mut tv: int = 0;
        let mut i: usize = 1;
        while i < total
            invariant
                self.wf(),
                1 <= i <= total,
                total == s@.len(),
                2 <= s@.len(),
                seed < 128,
                seed as int == index_spec(s@[0]),
                tv >= 0,
                acc as int == tv % 0x1_0000_0000_0000_0000,
                decode_digits(s@.skip(1), seed as int, 0) == decode_digits(
                    s@.skip(i as int),
                    seed as int,
                    tv,
                ),
            decreases total - i,
        {
            let c = s.get_char(i);
            proof {
                assert(s@.skip(i as int).first() == s@[i as int]);
            }
            let d: u8 = match self.index_of(c) {
                Some(d) => d,
                None => {
                    return Err(CodecError::UnknownSymbol(c));
                },
            };
            let orig = ((d as usize) + 128 - (seed as usize)) % 128;
            proof {
                assert(s@.skip(i as int).drop_first() =~= s@.skip(i as int + 1));
                assert(orig as int == unscramble(d as int, seed as int));
                lemma_mul_mod_noop_left(tv, 128, 0x1_0000_0000_0000_0000);
                lemma_add_mod_noop_right(orig as int, tv * 128, 0x1_0000_0000_0000_0000);
            }
            acc = acc.wrapping_mul(128).wrapping_add(orig as u64);
            proof {
                tv = tv * 128 + orig;
            }
            i = i + 1;
        }
        proof {
            assert(s@.skip(total as int) =~= Seq::<char>::empty());
            if tv <= u64::MAX {
                assert(tv % 0x1_0000_0000_0000_0000 == tv);
            }
        }
        Ok(acc)
    }
}

impl Default for HangulNumberConverter {
    /// A fresh converter over the fixed alphabet.
    fn default() -> (c: Self)
        ensures
            c.wf(),
    {
        Self::new()
    }
}

/// Relies on String::push: appends the given character to the end of the
/// string.
#[verifier::external_body]
pub(crate) fn push_char(s: &mut String, c: char)
    ensures
        final(s)@ == old(s)@.push(c),
{
    s.push(c);
}

/// Relies on std::time::SystemTime::now and SystemTime::duration_since: the
/// subsecond-nanoseconds of the current time past the Unix epoch, or zero on
/// a clock standing before the epoch. Nothing is promised of the value.
#[verifier::external_body]
fn subsec_nanos_now() -> u32 {
    match std::time::SystemTime::now().duration_since(std::time::UNIX_EPOCH) {
        Ok(d) => d.subsec_nanos(),
        Err(_) => 0,
    }
}

/// Scrambling then decoding gives the digits back: reading the scrambled
/// symbols of in-range digits under the seed they were scrambled with folds
/// up exactly the digits' value.
pub proof fn lemma_decode_scrambled(ds: Seq<int>, seed: int, acc: int)
    requires
        0 <= seed < 128,
        forall|i: int| 0 <= i < ds.len() ==> 0 <= #[trigger] ds[i] < 128,
    ensures
        decode_digits(scrambled_symbols(ds, seed), seed, acc) == Ok::<int, CodecError>(
            fold_value(ds, acc),
        ),
    decreases ds.len(),
{
    if ds.len() == 0 {
        assert(scrambled_symbols(ds, seed) =~= Seq::<char>::empty());
    } else {
        let cs = scrambled_symbols(ds, seed);
        let d = ds.first();
        let m = (d + seed) % 128;
        assert(cs.first() == symbol_spec(m));
        lemma_symbol_index(m);
        assert(m == if d + seed < 128 {
            d + seed
        } else {
            d + seed - 128
        });
        assert(unscramble(m, seed) == d);
        assert(cs.drop_first() =~= scrambled_symbols(ds.drop_first(), seed));
        lemma_decode_scrambled(ds.drop_first(), seed, acc * 128 + d);
    }
}

/// The round trip: for every number and every seed in [0, 128), decoding the
/// encoding recovers the number exactly.
pub proof fn lemma_round_trip(num: u64, seed: int)
    requires
        0 <= seed < 128,
    ensures
        decode_spec(encoded_spec(num as nat, seed)) == Ok::<int, CodecError>(num as int),
{
    let cs = encoded_spec(num as nat, seed);
    let ds = digit_seq(num as nat);
    lemma_digits_in_range(num as nat);
    assert(forall|i: int| 0 <= i < ds.len() ==> 0 <= #[trigger] ds[i] < 128);
    assert(ds.len() >= 1);
    assert(cs.len() == 1 + ds.len());
    assert(cs.first() == symbol_spec(seed));
    lemma_symbol_index(seed);
    assert(cs.drop_first() =~= scrambled_symbols(ds, seed));
    lemma_decode_scrambled(ds, seed, 0);
    lemma_fold_value_from_zero(ds);
    lemma_value_of_digit_seq(num as nat);
}

/// Seed independence: which in-range seed produced an encoding of `num` does
/// not matter to the decoder; every one of them decodes to `num`.
pub proof fn lemma_seed_independence(num: u64, seed1: int, seed2: int)
    requires
        0 <= seed1 < 128,
        0 <= seed2 < 128,
    ensures
        decode_spec(encoded_spec(num as nat, seed1)) == decode_spec(encoded_spec(num as nat, seed2)),
        decode_spec(encoded_spec(num as nat, seed1)) == Ok::<int, CodecError>(num as int),
{
    lemma_round_trip(num, seed1);
    lemma_round_trip(num, seed2);
}

/// Two different in-range seeds never spell a number the same way: the seed
/// symbol in front already differs, the alphabet's symbols being pairwise
/// distinct.
pub proof fn lemma_distinct_seeds_distinct_encodings(num: u64, seed1: int, seed2: int)
    requires
        0 <= seed1 < 128,
        0 <= seed2 < 128,
        seed1 != seed2,
    ensures
        encoded_spec(num as nat, seed1) != encoded_spec(num as nat, seed2),
{
    lemma_symbol_index(seed1);
    lemma_symbol_index(seed2);
    assert(encoded_spec(num as nat, seed1).first() == symbol_spec(seed1));
    assert(encoded_spec(num as nat, seed2).first() == symbol_spec(seed2));
}

/// Zero's encoding has exactly two symbols under every seed: the seed symbol
/// and one digit symbol.
pub proof fn lemma_encode_zero_length(seed: int)
    requires
        0 <= seed < 128,
    ensures
        encoded_spec(0, seed).len() == 2,
{
}

/// The encoded length is one seed symbol plus the minimal base-128 digit
/// count of the number: one digit for zero, and for a positive number the
/// unique count k with 128^(k-1) <= num < 128^k.
pub proof fn lemma_encoded_length(num: u64, seed: int)
    requires
        0 <= seed < 128,
    ensures
        encoded_spec(num as nat, seed).len() == 1 + digit_seq(num as nat).len(),
        num == 0 ==> digit_seq(num as nat).len() == 1,
        num > 0 ==> pow128((digit_seq(num as nat).len() - 1) as nat) <= num < pow128(
            digit_seq(num as nat).len() as nat,
        ),
{
    if num > 0 {
        lemma_digits_len_bounds(num as nat);
    }
}

} // verus!
