//! What holds of every policy, whatever was done to it.
//!
//! The operations on a policy say what they do to its thresholds as a map,
//! and what they read as a listing or a verdict of that map. The laws here are
//! stated over the same maps, listings and verdicts.

use vstd::prelude::*;
use super::category::Category;
use super::policy::{
    accepted_risk, has_default, lemma_distinct_entries_list_what_they_set,
    lemma_listing_determines_thresholds, lists, risk_verdict, thresholds_set_by, AmlError,
    RiskScore,
};

verus! {

/// A listing gives a category if and only if the category has a threshold,
/// then with that threshold, and at a single place.
pub proof fn law_listing_is_exact(
    listing: Seq<(Category, RiskScore)>,
    thresholds: Map<Category, RiskScore>,
    category: Category,
)
    requires
        lists(listing, thresholds),
    ensures
        thresholds.contains_key(category) <==> listing.contains((category, thresholds[category])),
        forall|i: int|
            0 <= i < listing.len() && (#[trigger] listing[i]).0 == category ==> listing[i].1
                == thresholds[category],
        forall|i: int, j: int|
            0 <= i < listing.len() && 0 <= j < listing.len() && (#[trigger] listing[i]).0
                == category && (#[trigger] listing[j]).0 == category ==> i == j,
{
    assert forall|i: int| 0 <= i < listing.len() && (#[trigger] listing[i]).0 == category implies
        thresholds.contains_key(category) && listing[i] == (category, thresholds[category]) by {
        assert(thresholds.contains_pair(listing[i].0, listing[i].1));
    }
    if thresholds.contains_key(category) {
        let i = choose|i: int| 0 <= i < listing.len() && (#[trigger] listing[i]).0 == category;
        assert(listing[i] == (category, thresholds[category]));
    }
    if listing.contains((category, thresholds[category])) {
        let i = choose|i: int|
            0 <= i < listing.len() && listing[i] == (category, thresholds[category]);
        assert(listing[i].0 == category);
    }
    assert forall|i: int, j: int|
        0 <= i < listing.len() && 0 <= j < listing.len() && (#[trigger] listing[i]).0 == category
            && (#[trigger] listing[j]).0 == category implies i == j by {
        if i < j {
            assert(listing[i].0 != listing[j].0);
        } else if j < i {
            assert(listing[j].0 != listing[i].0);
        }
    }
}

/// A policy that was just made with a default threshold reads as that one
/// threshold, under `Category::All`.
pub proof fn law_new_policy_reads_default(listing: Seq<(Category, RiskScore)>, score: RiskScore)
    requires
        lists(listing, Map::<Category, RiskScore>::empty().insert(Category::All, score)),
    ensures
        listing == seq![(Category::All, score)],
{
    let thresholds = Map::<Category, RiskScore>::empty().insert(Category::All, score);
    law_listing_is_exact(listing, thresholds, Category::All);
    assert(listing.len() >= 1) by {
        assert(thresholds.contains_key(Category::All));
    }
    assert forall|k: int| 0 <= k < listing.len() implies #[trigger] listing[k] == (
        Category::All,
        score,
    ) by {
        assert(thresholds.contains_pair(listing[k].0, listing[k].1));
    }
    if listing.len() > 1 {
        // Two entries would both be for `Category::All`.
        assert(listing[0].0 == listing[1].0);
    }
    assert(listing =~= seq![(Category::All, score)]);
}

/// After a threshold was set, the policy reads with it: the category stands
/// in the listing with that threshold, and at no other place.
pub proof fn law_set_threshold_is_read(
    before: Map<Category, RiskScore>,
    category: Category,
    score: RiskScore,
    listing: Seq<(Category, RiskScore)>,
)
    requires
        lists(listing, before.insert(category, score)),
    ensures
        listing.contains((category, score)),
        forall|i: int|
            0 <= i < listing.len() && (#[trigger] listing[i]).0 == category ==> listing[i] == (
                category,
                score,
            ),
        forall|i: int, j: int|
            0 <= i < listing.len() && 0 <= j < listing.len() && (#[trigger] listing[i]).0
                == category && (#[trigger] listing[j]).0 == category ==> i == j,
{
    law_listing_is_exact(listing, before.insert(category, score), category);
}

/// Setting a threshold a second time overwrites it: the thresholds are those
/// that the second setting alone would have left, and the policy reads with
/// the second score for the category, at a single place.
pub proof fn law_set_threshold_overwrites(
    before: Map<Category, RiskScore>,
    category: Category,
    first: RiskScore,
    second: RiskScore,
    listing: Seq<(Category, RiskScore)>,
)
    requires
        lists(listing, before.insert(category, first).insert(category, second)),
    ensures
        before.insert(category, first).insert(category, second) == before.insert(category, second),
        listing.contains((category, second)),
        first != second ==> !listing.contains((category, first)),
        forall|i: int, j: int|
            0 <= i < listing.len() && 0 <= j < listing.len() && (#[trigger] listing[i]).0
                == category && (#[trigger] listing[j]).0 == category ==> i == j,
{
    let after = before.insert(category, first).insert(category, second);
    assert(after =~= before.insert(category, second));
    law_listing_is_exact(listing, after, category);
    if listing.contains((category, first)) {
        let i = choose|i: int| 0 <= i < listing.len() && listing[i] == (category, first);
        assert(listing[i].0 == category);
    }
}

/// After the threshold of a category other than `Category::All` was removed,
/// the category is held to the default threshold, and a report on it is
/// decided as the default decides.
pub proof fn law_removed_category_falls_back(
    before: Map<Category, RiskScore>,
    category: Category,
    risk: RiskScore,
)
    requires
        category != Category::All,
    ensures
        !before.remove(category).contains_key(category),
        has_default(before) ==> has_default(before.remove(category)),
        accepted_risk(before.remove(category), category) == (if has_default(before) {
            Some(before[Category::All])
        } else {
            None
        }),
        category != Category::Unknown ==> risk_verdict(before.remove(category), category, risk)
            == risk_verdict(before.remove(category), Category::All, risk),
{
}

/// A report on an unknown account passes, whatever the thresholds and the
/// score.
pub proof fn law_unknown_always_passes(thresholds: Map<Category, RiskScore>, risk: RiskScore)
    ensures
        risk_verdict(thresholds, Category::Unknown, risk) == Ok::<(), AmlError>(()),
{
}

/// A category without a threshold of its own is held to the default one: a
/// score passes if and only if it is at most the default threshold.
pub proof fn law_default_applies_on_a_miss(
    thresholds: Map<Category, RiskScore>,
    category: Category,
    risk: RiskScore,
)
    requires
        category != Category::Unknown,
        !thresholds.contains_key(category),
        has_default(thresholds),
    ensures
        risk <= thresholds[Category::All] ==> risk_verdict(thresholds, category, risk) == Ok::<
            (),
            AmlError,
        >(()),
        risk > thresholds[Category::All] ==> risk_verdict(thresholds, category, risk) == Err::<
            (),
            AmlError,
        >(AmlError::RiskTooHigh),
{
}

/// A category with a threshold of its own is held to that one alone: the
/// default threshold, and whether there is one, changes nothing.
pub proof fn law_own_threshold_comes_first(
    thresholds: Map<Category, RiskScore>,
    category: Category,
    risk: RiskScore,
    default_score: RiskScore,
)
    requires
        category != Category::Unknown,
        category != Category::All,
        thresholds.contains_key(category),
    ensures
        risk <= thresholds[category] ==> risk_verdict(thresholds, category, risk) == Ok::<
            (),
            AmlError,
        >(()),
        risk > thresholds[category] ==> risk_verdict(thresholds, category, risk) == Err::<
            (),
            AmlError,
        >(AmlError::RiskTooHigh),
        risk_verdict(thresholds.insert(Category::All, default_score), category, risk)
            == risk_verdict(thresholds, category, risk),
        risk_verdict(thresholds.remove(Category::All), category, risk) == risk_verdict(
            thresholds,
            category,
            risk,
        ),
{
}

/// Without a threshold for the category and without a default one, no report
/// on a known category can be decided.
pub proof fn law_no_default_no_verdict(
    thresholds: Map<Category, RiskScore>,
    category: Category,
    risk: RiskScore,
)
    requires
        category != Category::Unknown,
        !thresholds.contains_key(category),
        !has_default(thresholds),
    ensures
        risk_verdict(thresholds, category, risk) == Err::<(), AmlError>(
            AmlError::MissingDefaultPolicy,
        ),
{
}

/// A policy restored from its own listing has the thresholds that were read.
pub proof fn law_listing_restores(
    listing: Seq<(Category, RiskScore)>,
    thresholds: Map<Category, RiskScore>,
)
    requires
        lists(listing, thresholds),
    ensures
        thresholds_set_by(listing) == thresholds,
{
    lemma_distinct_entries_list_what_they_set(listing);
    lemma_listing_determines_thresholds(listing, thresholds_set_by(listing), thresholds);
}

} // verus!
