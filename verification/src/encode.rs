//! Assembling the model's inputs.
//!
//! Inference takes three tensors: the token ids as one rectangular
//! `int64` batch, the style vector, and a scalar speed.  The id sequence
//! is delimited by the pad id on both ends, the batch is flattened
//! row-major after a rectangularity check, and the speed — a 32-bit
//! floating-point word carried here as its bit pattern — must be
//! positive.  All of that bookkeeping is verified; the engine call itself
//! happens outside, on exactly these values.

use vstd::prelude::*;

use crate::cleaner::{TextCleaner, clean_spec};
use crate::errors::TtsError;

verus! {

/// Wraps a token sequence in the pad id that marks utterance edges.
pub fn pad_token_sequence(tokens: Vec<i64>) -> (r: Vec<i64>)
    ensures
        r@ == seq![0i64] + tokens@ + seq![0i64],
        r@.len() == tokens@.len() + 2,
{
    let ghost orig = tokens@;
    let mut r = tokens;
    r.insert(0, 0);
    r.push(0);
    proof {
        assert(r@ =~= seq![0i64] + orig + seq![0i64]);
    }
    r
}

/// Turns a phoneme string into the padded id sequence fed to inference:
/// the cleaned ids between two pad ids.  The result always has at least
/// the two delimiters.
pub fn encode_phonemes(cleaner: &TextCleaner, phonemes: &str) -> (r: Vec<i64>)
    requires
        cleaner.wf(),
    ensures
        r@ == seq![0i64] + clean_spec(phonemes@) + seq![0i64],
        r@.len() >= 2,
{
    let tokens = cleaner.clean(phonemes);
    pad_token_sequence(tokens)
}

/// Row-major concatenation of a batch's rows.
pub open spec fn flatten_rows(rows: Seq<Seq<i64>>) -> Seq<i64>
    decreases rows.len(),
{
    if rows.len() == 0 {
        Seq::empty()
    } else {
        rows[0] + flatten_rows(rows.drop_first())
    }
}

/// A batch is rectangular when it is non-empty and every row has the
/// first row's length.
pub open spec fn rectangular(rows: Seq<Seq<i64>>) -> bool {
    rows.len() > 0 && forall|i: int| 0 <= i < rows.len()
        ==> (#[trigger] rows[i]).len() == rows[0].len()
}

/// Checks that the batch is rectangular and flattens it row-major,
/// returning the two tensor dimensions and the flat data.  A batch the
/// graph cannot take — empty, or ragged — is an inference error.
pub fn flatten_token_batch(batch: &Vec<Vec<i64>>) -> (r: Result<(usize, usize, Vec<i64>), TtsError>)
    ensures
        r is Ok <==> rectangular(batch.deep_view()),
        r matches Ok((b, t, flat)) ==> {
            &&& b == batch@.len()
            &&& t == batch.deep_view()[0].len()
            &&& flat@ == flatten_rows(batch.deep_view())
            &&& flat@.len() == b * t
        },
        r matches Err(e) ==> e matches TtsError::Inference { .. },
{
    let b: usize = batch.len();
    if b == 0 {
        return Err(TtsError::Inference { message: "empty token batch".to_owned() });
    }
    let t: usize = batch[0].len();
    let ghost deep = batch.deep_view();
    let mut flat: Vec<i64> = Vec::new();
    let mut i: usize = 0;
    proof {
        assert(deep.skip(0) =~= deep);
    }
    while i < b
        invariant
            b == batch@.len(),
            deep == batch.deep_view(),
            deep.len() == b,
            t == deep[0].len(),
            i <= b,
            forall|k: int| 0 <= k < i ==> (#[trigger] deep[k]).len() == t,
            flat@.len() == i * t,
            flatten_rows(deep) == flat@ + flatten_rows(deep.skip(i as int)),
        decreases b - i,
    {
        let row = &batch[i];
        if row.len() != t {
            return Err(TtsError::Inference { message: "ragged token batch".to_owned() });
        }
        proof {
            assert(row@.take(0) =~= Seq::<i64>::empty());
            assert(flatten_rows(deep).take((i * t) as int) =~= flat@);
        }
        let mut j: usize = 0;
        while j < t
            invariant
                b == batch@.len(),
                deep == batch.deep_view(),
                i < b,
                t == deep[0].len(),
                row@ == batch@[i as int]@,
                row@.len() == t,
                j <= t,
                flat@.len() == i * t + j,
                flat@ == flatten_rows(deep).take((i * t) as int) + row@.take(j as int),
            decreases t - j,
        {
            flat.push(row[j]);
            proof {
                assert(flat@ =~= flatten_rows(deep).take((i * t) as int) + row@.take(j + 1));
            }
            j = j + 1;
        }
        proof {
            let rest = deep.skip(i as int);
            assert(rest[0] == deep[i as int]);
            assert(deep[i as int] == batch@[i as int]@);
            assert(rest.drop_first() =~= deep.skip(i + 1));
            assert(row@.take(t as int) =~= row@);
            assert(flatten_rows(deep).take((i * t) as int) + row@
                =~= flat@);
            assert(flatten_rows(rest) == rest[0] + flatten_rows(rest.drop_first()));
            assert(flatten_rows(deep) =~= (flat@ + flatten_rows(deep.skip(i + 1))));
            assert((i + 1) * t == i * t + t) by (nonlinear_arith);
        }
        i = i + 1;
    }
    proof {
        assert(deep.skip(b as int) =~= Seq::<Seq<i64>>::empty());
        assert(flat@ =~= flatten_rows(deep));
    }
    Ok((b, t, flat))
}

/// Whether a 32-bit IEEE 754 floating-point word compares strictly
/// greater than zero: sign clear, magnitude non-zero, and not a NaN
/// (exponent all ones with a non-zero fraction).
pub open spec fn f32_bits_positive(bits: u32) -> bool {
    &&& bits & 0x8000_0000 == 0
    &&& bits & 0x7FFF_FFFF != 0
    &&& !((bits & 0x7F80_0000) == 0x7F80_0000 && (bits & 0x007F_FFFF) != 0)
}

/// Decides whether the speed word is a positive floating-point value.
pub fn speed_bits_positive(bits: u32) -> (r: bool)
    ensures
        r == f32_bits_positive(bits),
{
    (bits & 0x8000_0000) == 0 && (bits & 0x7FFF_FFFF) != 0
        && !((bits & 0x7F80_0000) == 0x7F80_0000 && (bits & 0x007F_FFFF) != 0)
}

} // verus!
