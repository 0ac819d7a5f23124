//! From the scores of the model to text.
//!
//! The model answers a batch with one score per batch item, time frame and label. For
//! each time frame of a batch item the label with the best score is taken; the path of
//! these labels is then decoded. Scores are held as integers that are ordered as the
//! scores are; a score that is not a number is held as `None`.

use crate::decoder::{decoded_text, tokens_in_range, Decoder};
use crate::error::ErrorKind;
use vstd::prelude::*;

verus! {

/// The bits of a 32-bit IEEE number say that it is not a number: the exponent is all
/// ones and the fraction is not zero.
pub open spec fn is_nan_bits(bits: u32) -> bool {
    (bits & 0x7f80_0000) == 0x7f80_0000 && (bits & 0x007f_ffff) != 0
}

/// The integer that stands for a 32-bit IEEE number in the order of the numbers: the
/// bits below the sign bit, negated where the sign bit is set. The two zeros get the
/// same integer. What is not a number gets none.
pub open spec fn ordered_key(bits: u32) -> Option<int> {
    if is_nan_bits(bits) {
        None
    } else if bits & 0x8000_0000 != 0 {
        Some(-((bits & 0x7fff_ffff) as int))
    } else {
        Some((bits & 0x7fff_ffff) as int)
    }
}

/// The score that stands for a 32-bit IEEE number, given by its bits.
pub fn score_key(bits: u32) -> (r: Option<i32>)
    ensures
        match r {
            Some(key) => ordered_key(bits) == Some(key as int),
            None => ordered_key(bits) is None,
        },
{
    let exponent = bits & 0x7f80_0000;
    let fraction = bits & 0x007f_ffff;
    if exponent == 0x7f80_0000 && fraction != 0 {
        return None;
    }
    let low = bits & 0x7fff_ffff;
    assert(low <= 0x7fff_ffff) by (bit_vector)
        requires
            low == bits & 0x7fff_ffff,
    ;
    let magnitude = low as i32;
    if bits & 0x8000_0000 != 0 {
        Some(-magnitude)
    } else {
        Some(magnitude)
    }
}

/// Both scores are numbers, and `a` is no less than `b`.
pub open spec fn at_least(a: Option<i32>, b: Option<i32>) -> bool {
    match (a, b) {
        (Some(x), Some(y)) => x >= y,
        _ => false,
    }
}

/// The index that a scan from the left ends on. The scan holds the first index and moves
/// on to a later one wherever the score it holds is not at least the later score.
pub open spec fn best_index(scores: Seq<Option<i32>>) -> int
    decreases scores.len(),
{
    if scores.len() <= 1 {
        0
    } else {
        let held = best_index(scores.drop_last());
        if at_least(scores[held], scores.last()) {
            held
        } else {
            scores.len() - 1
        }
    }
}

/// The scan ends on an index of the sequence.
pub proof fn lemma_best_index_in_range(scores: Seq<Option<i32>>)
    requires
        scores.len() > 0,
    ensures
        0 <= best_index(scores) < scores.len(),
    decreases scores.len(),
{
    if scores.len() > 1 {
        lemma_best_index_in_range(scores.drop_last());
    }
}

/// Where every score is a number, the scan ends on the first occurrence of the
/// greatest score.
pub proof fn lemma_best_index_is_first_maximum(scores: Seq<Option<i32>>)
    requires
        scores.len() > 0,
        forall|i: int| 0 <= i < scores.len() ==> (#[trigger] scores[i]) is Some,
    ensures
        0 <= best_index(scores) < scores.len(),
        forall|i: int|
            0 <= i < scores.len() ==> (#[trigger] scores[i]).unwrap() <= scores[best_index(
                scores,
            )].unwrap(),
        forall|i: int|
            0 <= i < best_index(scores) ==> (#[trigger] scores[i]).unwrap() < scores[best_index(
                scores,
            )].unwrap(),
    decreases scores.len(),
{
    if scores.len() > 1 {
        let before = scores.drop_last();
        lemma_best_index_is_first_maximum(before);
        assert forall|i: int| 0 <= i < before.len() implies before[i] == scores[i] by {}
    }
}

/// The scores that the model gave for one batch: `batches` items of `frames` time
/// frames of `labels` scores each, item after item and frame after frame.
pub struct ScoreTensor {
    values: Vec<Option<i32>>,
    batches: usize,
    frames: usize,
    labels: usize,
}

impl ScoreTensor {
    #[verifier::type_invariant]
    spec fn well_formed(&self) -> bool {
        self.values.len() == self.batches * self.frames * self.labels
    }

    /// All scores, in the order in which they are held.
    pub closed spec fn values(&self) -> Seq<Option<i32>> {
        self.values@
    }

    /// The number of batch items.
    pub closed spec fn spec_batches(&self) -> nat {
        self.batches as nat
    }

    /// The number of time frames of each batch item.
    pub closed spec fn spec_frames(&self) -> nat {
        self.frames as nat
    }

    /// The number of labels that each time frame has a score for.
    pub closed spec fn spec_labels(&self) -> nat {
        self.labels as nat
    }

    /// The scores of the labels at one time frame of one batch item.
    pub open spec fn row(&self, batch: int, frame: int) -> Seq<Option<i32>> {
        let start = (batch * self.spec_frames() + frame) * self.spec_labels();
        self.values().subrange(start, start + self.spec_labels())
    }

    /// The best label at each time frame of one batch item.
    pub open spec fn path(&self, batch: int) -> Seq<usize> {
        Seq::new(self.spec_frames(), |frame: int| best_index(self.row(batch, frame)) as usize)
    }

    /// Takes the scores of a batch together with their shape. The shape is accepted
    /// when it accounts for every score.
    pub fn new(values: Vec<Option<i32>>, batches: usize, frames: usize, labels: usize) -> (r:
        Option<ScoreTensor>)
        ensures
            match r {
                Some(tensor) => {
                    &&& tensor.values() == values@
                    &&& tensor.spec_batches() == batches
                    &&& tensor.spec_frames() == frames
                    &&& tensor.spec_labels() == labels
                    &&& values.len() == batches * frames * labels
                },
                None => values.len() != batches * frames * labels,
            },
    {
        if batches == 0 || frames == 0 || labels == 0 {
            assert(batches * frames * labels == 0) by (nonlinear_arith)
                requires
                    batches == 0 || frames == 0 || labels == 0,
            ;
            if values.len() == 0 {
                return Some(ScoreTensor { values, batches, frames, labels });
            }
            return None;
        }
        let cells = match batches.checked_mul(frames) {
            Some(rows) => rows.checked_mul(labels),
            None => {
                assert(batches * frames * labels >= batches * frames) by (nonlinear_arith)
                    requires
                        labels >= 1,
                ;
                None
            },
        };
        match cells {
            Some(n) => {
                if n == values.len() {
                    Some(ScoreTensor { values, batches, frames, labels })
                } else {
                    None
                }
            },
            None => None,
        }
    }

    /// The number of batch items.
    pub fn batches(&self) -> (r: usize)
        ensures
            r == self.spec_batches(),
    {
        self.batches
    }

    /// The number of time frames of each batch item.
    pub fn frames(&self) -> (r: usize)
        ensures
            r == self.spec_frames(),
    {
        self.frames
    }

    /// The number of labels that each time frame has a score for.
    pub fn labels(&self) -> (r: usize)
        ensures
            r == self.spec_labels(),
    {
        self.labels
    }

    /// The label with the best score at one time frame of one batch item. Among equal
    /// scores the label with the lowest index is taken.
    pub fn best_label(&self, batch: usize, frame: usize) -> (r: usize)
        requires
            batch < self.spec_batches(),
            frame < self.spec_frames(),
            self.spec_labels() > 0,
        ensures
            r == best_index(self.row(batch as int, frame as int)),
            r < self.spec_labels(),
    {
        proof {
            use_type_invariant(self);
            lemma_row_fits(
                self.batches as int,
                self.frames as int,
                self.labels as int,
                batch as int,
                frame as int,
            );
            assert(self.batches * self.frames <= self.batches * self.frames * self.labels)
                by (nonlinear_arith)
                requires
                    self.labels >= 1,
            ;
        }
        let start = (batch * self.frames + frame) * self.labels;
        let ghost row = self.row(batch as int, frame as int);
        let mut best: usize = 0;
        let mut label: usize = 1;
        assert(row.take(1).drop_last() =~= Seq::<Option<i32>>::empty());
        while label < self.labels
            invariant
                1 <= label <= self.labels,
                start + self.labels <= self.values.len(),
                row == self.values@.subrange(start as int, start + self.labels),
                best == best_index(row.take(label as int)),
                best < label,
            decreases self.labels - label,
        {
            proof {
                assert(row.take(label + 1).drop_last() =~= row.take(label as int));
            }
            let held = self.values[start + best];
            let next = self.values[start + label];
            let keep = match (held, next) {
                (Some(x), Some(y)) => x >= y,
                _ => false,
            };
            if !keep {
                best = label;
            }
            label += 1;
        }
        proof {
            assert(row.take(label as int) =~= row);
        }
        best
    }

    /// The best label at each time frame of one batch item, in order.
    pub fn token_path(&self, batch: usize) -> (r: Vec<usize>)
        requires
            batch < self.spec_batches(),
            self.spec_labels() > 0,
        ensures
            r@ == self.path(batch as int),
            forall|k: int| 0 <= k < r.len() ==> r[k] < self.spec_labels(),
    {
        let mut tokens: Vec<usize> = Vec::new();
        let mut frame: usize = 0;
        while frame < self.frames
            invariant
                frame <= self.frames,
                batch < self.spec_batches(),
                self.spec_labels() > 0,
                tokens.len() == frame,
                forall|k: int|
                    0 <= k < frame ==> tokens[k] == best_index(self.row(batch as int, k)) as usize,
                forall|k: int| 0 <= k < frame ==> tokens[k] < self.spec_labels(),
            decreases self.frames - frame,
        {
            let token = self.best_label(batch, frame);
            tokens.push(token);
            frame += 1;
        }
        assert(tokens@ =~= self.path(batch as int));
        tokens
    }
}

/// The scores of one time frame lie within the scores of the batch.
proof fn lemma_row_fits(batches: int, frames: int, labels: int, batch: int, frame: int)
    requires
        0 <= batch < batches,
        0 <= frame < frames,
        0 <= labels,
    ensures
        0 <= batch * frames <= batch * frames + frame < batches * frames,
        0 <= (batch * frames + frame) * labels,
        (batch * frames + frame) * labels + labels <= batches * frames * labels,
{
    assert(0 <= batch * frames && batch * frames + frames <= batches * frames)
        by (nonlinear_arith)
        requires
            0 <= batch < batches,
            0 <= frames,
    ;
    let row = batch * frames + frame;
    let rows = batches * frames;
    assert(0 <= row * labels && row * labels + labels <= rows * labels) by (nonlinear_arith)
        requires
            0 <= row < rows,
            0 <= labels,
    ;
}

/// Decodes the scores that the model gave for a batch of `batch_len` items: one text
/// per item, in order. The scores must be over the labels of the decoder's vocabulary
/// and over as many items as the batch had.
pub fn decode_scores(decoder: &Decoder, scores: &ScoreTensor, batch_len: usize) -> (r: Result<
    Vec<String>,
    ErrorKind,
>)
    ensures
        match r {
            Ok(texts) => {
                &&& scores.spec_labels() == decoder@.len()
                &&& scores.spec_batches() == batch_len
                &&& texts.len() == batch_len
                &&& forall|b: int|
                    0 <= b < batch_len ==> (#[trigger] texts[b])@ == decoded_text(
                        decoder@,
                        scores.path(b),
                    )
            },
            Err(e) => {
                &&& e == ErrorKind::ShapeMismatch
                &&& (scores.spec_labels() != decoder@.len() || scores.spec_batches() != batch_len)
            },
        },
{
    let vocabulary = decoder.labels();
    if scores.labels() != vocabulary.len() || scores.batches() != batch_len {
        return Err(ErrorKind::ShapeMismatch);
    }
    let mut texts: Vec<String> = Vec::new();
    let mut batch: usize = 0;
    while batch < batch_len
        invariant
            batch <= batch_len,
            scores.spec_batches() == batch_len,
            scores.spec_labels() == decoder@.len(),
            decoder@.len() > 0,
            texts.len() == batch,
            forall|b: int|
                0 <= b < batch ==> (#[trigger] texts[b])@ == decoded_text(
                    decoder@,
                    scores.path(b),
                ),
        decreases batch_len - batch,
    {
        let tokens = scores.token_path(batch);
        assert(tokens_in_range(decoder@, tokens@));
        match decoder.decode(tokens.as_slice()) {
            Ok(text) => texts.push(text),
            Err(e) => {
                return Err(e);
            },
        }
        batch += 1;
    }
    Ok(texts)
}

} // verus!
