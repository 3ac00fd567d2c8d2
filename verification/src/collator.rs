//! The natural order of paths: language-aware collation in which a run of
//! digits counts by its value, so that `file2` sorts before `file10`.
//!
//! The collator takes a run of digits in segments and does not come back
//! from every run that is longer than one segment. A text is collated only
//! where none of its runs can be that long.

use icu_collator::{Collator, CollatorError, CollatorOptions, Numeric};
use std::cmp::Ordering;
use vstd::prelude::*;
use vstd::string::StringSliceAdditionalSpecFns;
use vstd::utf8::encode_utf8;

verus! {

#[verifier::external_type_specification]
#[verifier::external_body]
pub struct ExCollator(icu_collator::Collator);

#[verifier::external_type_specification]
#[verifier::external_body]
pub struct ExCollatorError(icu_collator::CollatorError);

/// The most digits that the collator takes as one segment.
pub const LONGEST_RUN: usize = 254;

/// A byte that is no part of a digit in any script: one of the ASCII
/// characters other than `0` to `9`.
pub open spec fn digit_free(byte: u8) -> bool {
    byte < 0x80 && !(0x30 <= byte <= 0x39)
}

/// How many bytes at the end of `bytes` may all belong to digits.
pub open spec fn trailing_run(bytes: Seq<u8>) -> nat
    decreases bytes.len(),
{
    if bytes.len() == 0 || digit_free(bytes.last()) {
        0
    } else {
        trailing_run(bytes.drop_last()) + 1
    }
}

/// No stretch of bytes that may all belong to digits is longer than one
/// segment.
pub open spec fn runs_are_short(bytes: Seq<u8>) -> bool
    decreases bytes.len(),
{
    bytes.len() == 0 || (runs_are_short(bytes.drop_last()) && trailing_run(bytes) <= LONGEST_RUN)
}

/// A text that can be collated: in its UTF-8 form no run of ASCII digits
/// and bytes outside ASCII is longer than one segment. Every digit, of
/// whatever script, lies in such a run, so no run of digits is longer.
pub open spec fn collatable(text: Seq<char>) -> bool {
    runs_are_short(encode_utf8(text))
}

/// Where the runs of a byte string are short, so are those of what it
/// begins with.
pub proof fn lemma_runs_are_short_of_start(bytes: Seq<u8>, len: int)
    requires
        runs_are_short(bytes),
        0 <= len <= bytes.len(),
    ensures
        runs_are_short(bytes.take(len)),
    decreases bytes.len(),
{
    if len < bytes.len() {
        lemma_runs_are_short_of_start(bytes.drop_last(), len);
        assert(bytes.drop_last().take(len) =~= bytes.take(len));
    } else {
        assert(bytes.take(len) =~= bytes);
    }
}

/// Whether `text` can be collated.
pub fn is_collatable(text: &str) -> (fits: bool)
    ensures
        fits == collatable(text@),
{
    let bytes = text.as_bytes();
    let mut run: usize = 0;
    let mut at: usize = 0;
    assert(bytes@.take(0) =~= Seq::empty());
    while at < bytes.len()
        invariant
            at <= bytes.len(),
            bytes@ == encode_utf8(text@),
            run <= LONGEST_RUN,
            run == trailing_run(bytes@.take(at as int)),
            runs_are_short(bytes@.take(at as int)),
        decreases bytes.len() - at,
    {
        let byte: u8 = bytes[at];
        proof {
            let next = bytes@.take(at + 1);
            assert(next.drop_last() =~= bytes@.take(at as int));
            assert(next.last() == byte);
        }
        if byte < 0x80 && !(0x30 <= byte && byte <= 0x39) {
            run = 0;
        } else {
            if run == LONGEST_RUN {
                proof {
                    let next = bytes@.take(at + 1);
                    assert(!digit_free(next.last()));
                    assert(trailing_run(next) == trailing_run(next.drop_last()) + 1);
                    assert(!runs_are_short(next));
                    if runs_are_short(bytes@) {
                        lemma_runs_are_short_of_start(bytes@, at + 1);
                    }
                }
                return false;
            }
            run = run + 1;
        }
        at = at + 1;
    }
    assert(bytes@.take(at as int) =~= bytes@);
    true
}

/// How `icu_collator::Collator::compare_utf8` ranks `left` against `right`
/// under the root collation with numeric ordering on: negative where `left`
/// sorts first, zero where neither does, positive where `right` sorts first.
pub uninterp spec fn natural_rank(left: Seq<char>, right: Seq<char>) -> int;

/// A collator for the natural order: that of the root locale with numeric
/// ordering on. The only way to one is `try_new`, so every value ranks
/// alike.
pub struct NaturalCollator {
    collator: Collator,
}

/// Calls `icu_collator::Collator::try_new` for the root locale, with
/// numeric ordering switched on and every other option left at its default.
///
/// Trusted: nothing is claimed of the outcome.
#[verifier::external_body]
fn numeric_collator() -> Result<NaturalCollator, CollatorError> {
    let mut options = CollatorOptions::new();
    options.numeric = Some(Numeric::On);
    match Collator::try_new(&Default::default(), options) {
        Ok(collator) => Ok(NaturalCollator { collator }),
        Err(error) => Err(error),
    }
}

/// Calls `icu_collator::Collator::compare_utf8` on the bytes of the two
/// strings and gives the ordering as a number.
///
/// Trusted: the call comes back where no run of digits in either string is
/// longer than a segment, and the outcome is the named rank. Every natural
/// collator is made the same way, so the outcome depends on the two strings
/// alone.
#[verifier::external_body]
fn collate(natural: &NaturalCollator, left: &str, right: &str) -> (rank: i8)
    requires
        collatable(left@),
        collatable(right@),
    ensures
        rank == natural_rank(left@, right@),
{
    match natural.collator.compare_utf8(left.as_bytes(), right.as_bytes()) {
        Ordering::Less => -1,
        Ordering::Equal => 0,
        Ordering::Greater => 1,
    }
}

impl NaturalCollator {
    /// Sets the collator up. Whether that succeeds lies with the collation
    /// data, not with the caller.
    pub fn try_new() -> Result<NaturalCollator, CollatorError> {
        numeric_collator()
    }

    /// Ranks `left` against `right`, negative, zero or positive, where both
    /// can be collated; `None` where one of them cannot.
    pub fn rank(&self, left: &str, right: &str) -> (rank: Option<i8>)
        ensures
            match rank {
                Some(found) => collatable(left@) && collatable(right@) && found == natural_rank(
                    left@,
                    right@,
                ),
                None => !(collatable(left@) && collatable(right@)),
            },
    {
        if is_collatable(left) && is_collatable(right) {
            Some(collate(self, left, right))
        } else {
            None
        }
    }
}

} // verus!
