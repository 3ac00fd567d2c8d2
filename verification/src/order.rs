//! The orders by which a plan can arrange its targets.

use crate::collator::{collatable, is_collatable, natural_rank, NaturalCollator};
use icu_collator::CollatorError;
use crate::error::PlanError;
use crate::sort::total_preorder;
use vstd::prelude::*;
use vstd::string::StringSliceAdditionalSpecFns;
use vstd::relations::antisymmetric;
use vstd::utf8::{encode_utf8, encode_utf8_decode_utf8};

verus! {

/// Lexicographic order on byte strings: at the first place where the two
/// differ the smaller byte decides, and a string sorts after its prefixes.
pub open spec fn bytes_le(left: Seq<u8>, right: Seq<u8>) -> bool
    decreases left.len(),
{
    if left.len() == 0 {
        true
    } else if right.len() == 0 {
        false
    } else if left[0] != right[0] {
        left[0] < right[0]
    } else {
        bytes_le(left.drop_first(), right.drop_first())
    }
}

/// Of two byte strings one sorts no later than the other.
pub proof fn lemma_bytes_le_total(left: Seq<u8>, right: Seq<u8>)
    ensures
        bytes_le(left, right) || bytes_le(right, left),
    decreases left.len(),
{
    if left.len() > 0 && right.len() > 0 && left[0] == right[0] {
        lemma_bytes_le_total(left.drop_first(), right.drop_first());
    }
}

/// The lexicographic order is transitive.
pub proof fn lemma_bytes_le_transitive(left: Seq<u8>, middle: Seq<u8>, right: Seq<u8>)
    requires
        bytes_le(left, middle),
        bytes_le(middle, right),
    ensures
        bytes_le(left, right),
    decreases left.len(),
{
    if left.len() > 0 && middle.len() > 0 && right.len() > 0 {
        if left[0] == middle[0] && middle[0] == right[0] {
            lemma_bytes_le_transitive(
                left.drop_first(),
                middle.drop_first(),
                right.drop_first(),
            );
        }
    }
}

/// Two byte strings that sort no later than each other are one string.
pub proof fn lemma_bytes_le_antisymmetric(left: Seq<u8>, right: Seq<u8>)
    requires
        bytes_le(left, right),
        bytes_le(right, left),
    ensures
        left == right,
    decreases left.len(),
{
    if left.len() > 0 && right.len() > 0 {
        lemma_bytes_le_antisymmetric(left.drop_first(), right.drop_first());
        assert(left =~= seq![left[0]] + left.drop_first());
        assert(right =~= seq![right[0]] + right.drop_first());
    } else {
        assert(left =~= right);
    }
}

/// Whether `left` sorts no later than `right`, byte by byte.
pub fn bytes_in_order(left: &[u8], right: &[u8]) -> (r: bool)
    ensures
        r == bytes_le(left@, right@),
{
    let mut at: usize = 0;
    proof {
        assert(left@.skip(0) =~= left@);
        assert(right@.skip(0) =~= right@);
    }
    while at < left.len() && at < right.len()
        invariant
            at <= left.len(),
            at <= right.len(),
            bytes_le(left@, right@) == bytes_le(left@.skip(at as int), right@.skip(at as int)),
        decreases left.len() - at,
    {
        proof {
            assert(left@.skip(at as int)[0] == left@[at as int]);
            assert(right@.skip(at as int)[0] == right@[at as int]);
            assert(left@.skip(at as int).drop_first() =~= left@.skip(at + 1));
            assert(right@.skip(at as int).drop_first() =~= right@.skip(at + 1));
        }
        if left[at] != right[at] {
            return left[at] < right[at];
        }
        at += 1;
    }
    at == left.len()
}

/// A way to order targets.
#[derive(Clone, Copy, Debug, PartialEq, Eq)]
pub enum Collation {
    /// By the bytes of the path, which for text is the order of its code
    /// points.
    Bytewise,
    /// By language-aware collation with numbers counted by value. A path
    /// that cannot be collated, for a run of digits too long for the
    /// collator, sorts behind all that can; such paths sort by their bytes.
    Natural,
}

impl Collation {
    /// Whether a target `left` may stand before a target `right`.
    pub open spec fn precedes(self, left: Seq<char>, right: Seq<char>) -> bool {
        match self {
            Collation::Bytewise => bytes_le(encode_utf8(left), encode_utf8(right)),
            Collation::Natural => if collatable(left) && collatable(right) {
                natural_rank(left, right) <= 0
            } else if collatable(left) {
                true
            } else if collatable(right) {
                false
            } else {
                bytes_le(encode_utf8(left), encode_utf8(right))
            },
        }
    }

    /// `precedes` as a relation.
    pub open spec fn relation(self) -> spec_fn(Seq<char>, Seq<char>) -> bool {
        |left: Seq<char>, right: Seq<char>| self.precedes(left, right)
    }
}

/// The bytewise order is a total preorder.
pub proof fn lemma_bytewise_total_preorder()
    ensures
        total_preorder(Collation::Bytewise.relation()),
{
    let le = Collation::Bytewise.relation();
    assert forall|x: Seq<char>, y: Seq<char>| #[trigger] le(x, y) || #[trigger] le(y, x) by {
        lemma_bytes_le_total(encode_utf8(x), encode_utf8(y));
    }
    assert forall|x: Seq<char>, y: Seq<char>, z: Seq<char>| #[trigger]
        le(x, y) && #[trigger] le(y, z) implies le(x, z) by {
        lemma_bytes_le_transitive(encode_utf8(x), encode_utf8(y), encode_utf8(z));
    }
}

/// The bytewise order tells any two paths apart: none ties with another.
pub proof fn lemma_bytewise_antisymmetric()
    ensures
        antisymmetric(Collation::Bytewise.relation()),
{
    let le = Collation::Bytewise.relation();
    assert forall|x: Seq<char>, y: Seq<char>| #[trigger] le(x, y) && #[trigger] le(y, x) implies x
        == y by {
        lemma_bytes_le_antisymmetric(encode_utf8(x), encode_utf8(y));
        encode_utf8_decode_utf8(x);
        encode_utf8_decode_utf8(y);
    }
}

/// A collation made ready to compare.
pub enum TargetOrder {
    /// The bytewise order, which needs no preparation.
    Bytewise,
    /// The natural order, with its collator.
    Natural(NaturalCollator),
}

impl TargetOrder {
    /// Which collation this is.
    pub open spec fn collation(&self) -> Collation {
        match self {
            TargetOrder::Bytewise => Collation::Bytewise,
            TargetOrder::Natural(_) => Collation::Natural,
        }
    }

    /// Which collation this is.
    pub fn collation_of(&self) -> (collation: Collation)
        ensures
            collation == self.collation(),
    {
        match self {
            TargetOrder::Bytewise => Collation::Bytewise,
            TargetOrder::Natural(_) => Collation::Natural,
        }
    }

    /// The bytewise order.
    pub fn bytewise() -> (order: TargetOrder)
        ensures
            order.collation() == Collation::Bytewise,
    {
        TargetOrder::Bytewise
    }

    /// The natural order with the collator that was made for it, or, where
    /// none could be made, the error of the collator as a plan error.
    pub fn from_collator(made: Result<NaturalCollator, CollatorError>) -> (order: Result<
        TargetOrder,
        PlanError,
    >)
        ensures
            match made {
                Ok(collator) => order == Ok::<TargetOrder, PlanError>(
                    TargetOrder::Natural(collator),
                ),
                Err(error) => order == Err::<TargetOrder, PlanError>(
                    PlanError::IcuCollator(error),
                ),
            },
    {
        match made {
            Ok(collator) => Ok(TargetOrder::Natural(collator)),
            Err(error) => Err(PlanError::IcuCollator(error)),
        }
    }

    /// The natural order, or the reason why its collator could not be made.
    /// Which of the two lies with the collator alone.
    pub fn natural() -> (made: Result<TargetOrder, PlanError>)
        ensures
            match made {
                Ok(order) => order.collation() == Collation::Natural,
                Err(error) => error is IcuCollator,
            },
    {
        Self::from_collator(NaturalCollator::try_new())
    }

    /// Whether the target `left` may stand before the target `right`.
    pub fn precedes(&self, left: &str, right: &str) -> (r: bool)
        ensures
            r == self.collation().precedes(left@, right@),
    {
        match self {
            TargetOrder::Bytewise => bytes_in_order(left.as_bytes(), right.as_bytes()),
            TargetOrder::Natural(collator) => match collator.rank(left, right) {
                Some(rank) => rank <= 0,
                None => if is_collatable(left) {
                    true
                } else if is_collatable(right) {
                    false
                } else {
                    bytes_in_order(left.as_bytes(), right.as_bytes())
                },
            },
        }
    }
}

} // verus!
