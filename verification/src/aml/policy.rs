//! What a policy is, and what it decides, as mathematics.

use vstd::prelude::*;
use near_sdk::AccountId;
use super::category::Category;

verus! {

/// How risky an account is judged to be. A threshold lies between 1 and
/// `MAX_RISK_LEVEL`; a reported score is any value of the type.
pub type RiskScore = u8;

/// The highest threshold a policy can hold.
pub const MAX_RISK_LEVEL: RiskScore = 10;

/// Why an operation on a policy was refused.
#[derive(Clone, Copy, Debug, PartialEq, Eq, Structural)]
pub enum AmlError {
    /// A threshold was 0 or above `MAX_RISK_LEVEL`.
    InvalidRiskScore,
    /// The threshold of `Category::All` was to be removed.
    CannotRemoveWildcard,
    /// The reported score is above the threshold that applies.
    RiskTooHigh,
    /// Neither the reported category nor `Category::All` has a threshold.
    MissingDefaultPolicy,
}

/// The state of a policy: the authority it trusts, and the threshold of each
/// category that has one.
pub ghost struct Policy {
    pub account_id: AccountId,
    pub thresholds: Map<Category, RiskScore>,
}

/// Whether a score can be stored as a threshold.
pub open spec fn valid_risk_score(score: RiskScore) -> bool {
    0 < score <= MAX_RISK_LEVEL
}

/// Whether every threshold can be stored.
pub open spec fn all_valid(thresholds: Map<Category, RiskScore>) -> bool {
    forall|category: Category| #[trigger]
        thresholds.contains_key(category) ==> valid_risk_score(thresholds[category])
}

/// Whether the default threshold, that of `Category::All`, is there.
pub open spec fn has_default(thresholds: Map<Category, RiskScore>) -> bool {
    thresholds.contains_key(Category::All)
}

/// The threshold that a category is held to: its own where it has one, else
/// the default, else none.
pub open spec fn accepted_risk(
    thresholds: Map<Category, RiskScore>,
    category: Category,
) -> Option<RiskScore> {
    if thresholds.contains_key(category) {
        Some(thresholds[category])
    } else if thresholds.contains_key(Category::All) {
        Some(thresholds[Category::All])
    } else {
        None
    }
}

/// What the policy decides on a reported category and score.
///
/// An unknown account passes whatever the score. Any other category passes
/// where the score is at most the threshold it is held to.
pub open spec fn risk_verdict(
    thresholds: Map<Category, RiskScore>,
    category: Category,
    risk: RiskScore,
) -> Result<(), AmlError> {
    if category == Category::Unknown {
        Ok(())
    } else {
        match accepted_risk(thresholds, category) {
            Some(accepted) => if risk > accepted {
                Err(AmlError::RiskTooHigh)
            } else {
                Ok(())
            },
            None => Err(AmlError::MissingDefaultPolicy),
        }
    }
}

/// Whether no category stands twice among the entries.
pub open spec fn distinct_categories(entries: Seq<(Category, RiskScore)>) -> bool {
    forall|i: int, j: int|
        0 <= i < j < entries.len() ==> (#[trigger] entries[i]).0 != (#[trigger] entries[j]).0
}

/// Whether every score among the entries can be stored as a threshold.
pub open spec fn all_scores_valid(entries: Seq<(Category, RiskScore)>) -> bool {
    forall|i: int| 0 <= i < entries.len() ==> valid_risk_score((#[trigger] entries[i]).1)
}

/// Whether a sequence is a listing of the thresholds: each category that has a
/// threshold stands in it once, with that threshold, and nothing else does.
pub open spec fn lists(
    listing: Seq<(Category, RiskScore)>,
    thresholds: Map<Category, RiskScore>,
) -> bool {
    &&& distinct_categories(listing)
    &&& forall|i: int|
        0 <= i < listing.len() ==> thresholds.contains_pair(
            (#[trigger] listing[i]).0,
            listing[i].1,
        )
    &&& forall|category: Category| #[trigger]
        thresholds.contains_key(category) ==> exists|i: int|
            0 <= i < listing.len() && (#[trigger] listing[i]).0 == category
}

/// The thresholds that come of setting, one after the other, the threshold
/// of each entry: where a category stands twice, its later entry counts.
pub open spec fn thresholds_set_by(entries: Seq<(Category, RiskScore)>) -> Map<Category, RiskScore>
    decreases entries.len(),
{
    if entries.len() == 0 {
        Map::empty()
    } else {
        thresholds_set_by(entries.drop_last()).insert(entries.last().0, entries.last().1)
    }
}

/// A listing determines the thresholds: two maps that the same sequence lists
/// are one map.
pub proof fn lemma_listing_determines_thresholds(
    listing: Seq<(Category, RiskScore)>,
    one: Map<Category, RiskScore>,
    other: Map<Category, RiskScore>,
)
    requires
        lists(listing, one),
        lists(listing, other),
    ensures
        one == other,
{
    assert forall|category: Category| one.contains_key(category) implies other.contains_pair(
        category,
        one[category],
    ) by {
        let i = choose|i: int| 0 <= i < listing.len() && (#[trigger] listing[i]).0 == category;
        assert(one.contains_pair(listing[i].0, listing[i].1));
        assert(other.contains_pair(listing[i].0, listing[i].1));
    }
    assert forall|category: Category| other.contains_key(category) implies one.contains_key(
        category,
    ) by {
        let i = choose|i: int| 0 <= i < listing.len() && (#[trigger] listing[i]).0 == category;
        assert(one.contains_pair(listing[i].0, listing[i].1));
    }
    assert(one =~= other);
}

/// Entries with distinct categories are a listing of the thresholds that they
/// set.
pub proof fn lemma_distinct_entries_list_what_they_set(entries: Seq<(Category, RiskScore)>)
    requires
        distinct_categories(entries),
    ensures
        lists(entries, thresholds_set_by(entries)),
    decreases entries.len(),
{
    if entries.len() > 0 {
        let front = entries.drop_last();
        let last = entries.len() - 1;
        assert forall|i: int| 0 <= i < front.len() implies #[trigger] front[i] == entries[i] by {}
        lemma_distinct_entries_list_what_they_set(front);
        assert forall|i: int| 0 <= i < entries.len() implies thresholds_set_by(
            entries,
        ).contains_pair((#[trigger] entries[i]).0, entries[i].1) by {
            if i < last {
                assert(thresholds_set_by(front).contains_pair(front[i].0, front[i].1));
                assert(entries[i].0 != entries[last].0);
            }
        }
        assert forall|category: Category| #[trigger]
            thresholds_set_by(entries).contains_key(category) implies exists|i: int|
            0 <= i < entries.len() && (#[trigger] entries[i]).0 == category by {
            if category != entries[last].0 {
                let i = choose|i: int| 0 <= i < front.len() && (#[trigger] front[i]).0 == category;
                assert(entries[i].0 == category);
            }
        }
    }
}

/// Entries whose scores can all be stored set thresholds that can all be
/// stored.
pub proof fn lemma_valid_scores_set_valid_thresholds(entries: Seq<(Category, RiskScore)>)
    requires
        all_scores_valid(entries),
    ensures
        all_valid(thresholds_set_by(entries)),
    decreases entries.len(),
{
    if entries.len() > 0 {
        let front = entries.drop_last();
        assert forall|i: int| 0 <= i < front.len() implies #[trigger] front[i] == entries[i] by {}
        lemma_valid_scores_set_valid_thresholds(front);
        assert(valid_risk_score(entries.last().1));
    }
}

/// Checks whether a score can be stored as a threshold.
pub fn is_valid_risk_score(score: RiskScore) -> (valid: bool)
    ensures
        valid == valid_risk_score(score),
{
    score <= MAX_RISK_LEVEL && score > 0
}

} // verus!
