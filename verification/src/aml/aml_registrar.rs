//! The policy store and the operations that change it.

use vstd::prelude::*;
use near_sdk::AccountId;
use super::category::Category;
use super::policy::{
    all_scores_valid, all_valid, distinct_categories, has_default, is_valid_risk_score,
    lemma_distinct_entries_list_what_they_set, lemma_listing_determines_thresholds,
    lemma_valid_scores_set_valid_thresholds, lists, thresholds_set_by, valid_risk_score, AmlError,
    Policy, RiskScore,
};

verus! {

/// Replacing the entry of a category sets its threshold.
proof fn lemma_replace_entry(
    entries: Seq<(Category, RiskScore)>,
    i: int,
    category: Category,
    score: RiskScore,
)
    requires
        distinct_categories(entries),
        0 <= i < entries.len(),
        entries[i].0 == category,
    ensures
        distinct_categories(entries.update(i, (category, score))),
        thresholds_set_by(entries.update(i, (category, score))) == thresholds_set_by(
            entries,
        ).insert(category, score),
{
    let updated = entries.update(i, (category, score));
    let target = thresholds_set_by(entries).insert(category, score);
    lemma_distinct_entries_list_what_they_set(entries);
    assert forall|k: int| 0 <= k < updated.len() implies (#[trigger] updated[k]).0
        == entries[k].0 by {}
    assert forall|c: Category| #[trigger] target.contains_key(c) implies exists|k: int|
        0 <= k < updated.len() && (#[trigger] updated[k]).0 == c by {
        let k = if c == category {
            i
        } else {
            choose|k: int| 0 <= k < entries.len() && (#[trigger] entries[k]).0 == c
        };
        assert(updated[k].0 == c);
    }
    assert(lists(updated, target));
    lemma_distinct_entries_list_what_they_set(updated);
    lemma_listing_determines_thresholds(updated, thresholds_set_by(updated), target);
}

/// Moving the last entry into the place of another takes the threshold of
/// that other entry's category away.
proof fn lemma_swap_remove_entry(entries: Seq<(Category, RiskScore)>, i: int)
    requires
        distinct_categories(entries),
        0 <= i < entries.len(),
    ensures
        distinct_categories(entries.update(i, entries.last()).drop_last()),
        thresholds_set_by(entries.update(i, entries.last()).drop_last()) == thresholds_set_by(
            entries,
        ).remove(entries[i].0),
{
    let last = entries.len() - 1;
    let kept = entries.update(i, entries.last()).drop_last();
    let target = thresholds_set_by(entries).remove(entries[i].0);
    lemma_distinct_entries_list_what_they_set(entries);
    // Where each kept entry stood before: the one at `i` came from the end.
    let origin = |k: int| if k == i { last } else { k };
    assert forall|k: int| 0 <= k < kept.len() implies #[trigger] kept[k] == entries[origin(k)] by {}
    assert forall|c: Category| #[trigger] target.contains_key(c) implies exists|k: int|
        0 <= k < kept.len() && (#[trigger] kept[k]).0 == c by {
        let k = choose|k: int| 0 <= k < entries.len() && (#[trigger] entries[k]).0 == c;
        let place = if k == last { i } else { k };
        assert(kept[place].0 == c);
    }
    assert(lists(kept, target));
    lemma_distinct_entries_list_what_they_set(kept);
    lemma_listing_determines_thresholds(kept, thresholds_set_by(kept), target);
}

/// A risk policy: the authority whose reports it trusts, and for each category
/// that has one the highest risk score that is accepted.
///
/// No category has two thresholds, and every threshold lies between 1 and
/// `MAX_RISK_LEVEL`.
#[derive(Debug)]
pub struct AML {
    account_id: AccountId,
    aml_conditions: Vec<(Category, RiskScore)>,
}

impl View for AML {
    type V = Policy;

    closed spec fn view(&self) -> Policy {
        Policy { account_id: self.account_id, thresholds: thresholds_set_by(self.aml_conditions@) }
    }
}

impl AML {
    #[verifier::type_invariant]
    spec fn well_formed(&self) -> bool {
        &&& distinct_categories(self.aml_conditions@)
        &&& all_scores_valid(self.aml_conditions@)
    }

    /// What the invariant of the entries means for the thresholds: the entries
    /// list them, and each can be stored.
    proof fn lemma_thresholds(&self)
        requires
            self.well_formed(),
        ensures
            lists(self.aml_conditions@, self@.thresholds),
            all_valid(self@.thresholds),
    {
        lemma_distinct_entries_list_what_they_set(self.aml_conditions@);
        lemma_valid_scores_set_valid_thresholds(self.aml_conditions@);
    }

    /// Where the category stands among the entries, if it does.
    fn position(&self, category: Category) -> (found: Option<usize>)
        ensures
            match found {
                Some(i) => i < self.aml_conditions@.len() && self.aml_conditions@[i as int].0
                    == category,
                None => forall|k: int|
                    0 <= k < self.aml_conditions@.len() ==> (#[trigger] self.aml_conditions@[k]).0
                        != category,
            },
    {
        let mut i: usize = 0;
        while i < self.aml_conditions.len()
            invariant
                i <= self.aml_conditions@.len(),
                forall|k: int| 0 <= k < i ==> (#[trigger] self.aml_conditions@[k]).0 != category,
            decreases self.aml_conditions@.len() - i,
        {
            if self.aml_conditions[i].0 == category {
                return Some(i);
            }
            i += 1;
        }
        None
    }

    /// The authority whose reports the policy trusts.
    pub fn account_id(&self) -> (id: &AccountId)
        ensures
            *id == self@.account_id,
    {
        &self.account_id
    }

    /// The threshold that the category has of its own, if it has one.
    pub fn threshold(&self, category: Category) -> (found: Option<RiskScore>)
        ensures
            found == (if self@.thresholds.contains_key(category) {
                Some(self@.thresholds[category])
            } else {
                None
            }),
            all_valid(self@.thresholds),
    {
        proof {
            use_type_invariant(self);
            self.lemma_thresholds();
        }
        match self.position(category) {
            Some(i) => Some(self.aml_conditions[i].1),
            None => None,
        }
    }

    /// Makes a policy that trusts `account_id` and holds one threshold, the
    /// default one.
    ///
    /// A score of 0 or above `MAX_RISK_LEVEL` is refused.
    pub fn new(account_id: AccountId, accepted_risk_score: RiskScore) -> (made: Result<AML, AmlError>)
        ensures
            match made {
                Ok(aml) => {
                    &&& valid_risk_score(accepted_risk_score)
                    &&& aml@.account_id == account_id
                    &&& aml@.thresholds == Map::<Category, RiskScore>::empty().insert(
                        Category::All,
                        accepted_risk_score,
                    )
                    &&& all_valid(aml@.thresholds)
                    &&& has_default(aml@.thresholds)
                },
                Err(error) => {
                    &&& !valid_risk_score(accepted_risk_score)
                    &&& error == AmlError::InvalidRiskScore
                },
            },
    {
        AML::new_with_category(account_id, Category::All, accepted_risk_score)
    }

    /// Makes a policy that trusts `account_id` and holds one threshold, that
    /// of `category`.
    ///
    /// A score of 0 or above `MAX_RISK_LEVEL` is refused. Unless the category
    /// is `Category::All`, the policy has no default threshold until one is set.
    pub fn new_with_category(
        account_id: AccountId,
        category: Category,
        accepted_risk_score: RiskScore,
    ) -> (made: Result<AML, AmlError>)
        ensures
            match made {
                Ok(aml) => {
                    &&& valid_risk_score(accepted_risk_score)
                    &&& aml@.account_id == account_id
                    &&& aml@.thresholds == Map::<Category, RiskScore>::empty().insert(
                        category,
                        accepted_risk_score,
                    )
                    &&& all_valid(aml@.thresholds)
                },
                Err(error) => {
                    &&& !valid_risk_score(accepted_risk_score)
                    &&& error == AmlError::InvalidRiskScore
                },
            },
    {
        if !is_valid_risk_score(accepted_risk_score) {
            return Err(AmlError::InvalidRiskScore);
        }
        let mut aml_conditions: Vec<(Category, RiskScore)> = Vec::new();
        aml_conditions.push((category, accepted_risk_score));
        let aml = AML { account_id, aml_conditions };
        proof {
            let rest = aml.aml_conditions@.drop_last();
            assert(thresholds_set_by(rest) == Map::<Category, RiskScore>::empty());
        }
        Ok(aml)
    }

    /// Makes a policy that trusts `account_id` from a listing of thresholds,
    /// such as `get_aml` gives: the thresholds are set one after the other.
    ///
    /// The listing is refused where one of its scores is 0 or above
    /// `MAX_RISK_LEVEL`.
    pub fn restore(account_id: AccountId, conditions: Vec<(Category, RiskScore)>) -> (made: Result<
        AML,
        AmlError,
    >)
        ensures
            match made {
                Ok(aml) => {
                    &&& all_scores_valid(conditions@)
                    &&& aml@.account_id == account_id
                    &&& aml@.thresholds == thresholds_set_by(conditions@)
                    &&& all_valid(aml@.thresholds)
                },
                Err(error) => {
                    &&& !all_scores_valid(conditions@)
                    &&& error == AmlError::InvalidRiskScore
                },
            },
    {
        let mut aml = AML { account_id, aml_conditions: Vec::new() };
        let mut i: usize = 0;
        while i < conditions.len()
            invariant
                i <= conditions@.len(),
                aml@.account_id == account_id,
                aml@.thresholds == thresholds_set_by(conditions@.subrange(0, i as int)),
                all_scores_valid(conditions@.subrange(0, i as int)),
                all_valid(aml@.thresholds),
            decreases conditions@.len() - i,
        {
            let (category, score): (Category, RiskScore) = conditions[i];
            match aml.update_category(category, score) {
                Ok(()) => {},
                Err(error) => {
                    return Err(error);
                },
            }
            proof {
                let next = conditions@.subrange(0, i + 1);
                assert(next.drop_last() =~= conditions@.subrange(0, i as int));
                assert(all_scores_valid(next));
            }
            i += 1;
        }
        proof {
            assert(conditions@.subrange(0, i as int) =~= conditions@);
        }
        Ok(aml)
    }
}

/// The operations on a policy: reading it, and the changes that keep it valid.
///
/// Each is stated over the policy's state, its view: the authority and the map
/// from categories to thresholds.
pub trait AmlManager: View<V = Policy> {
    /// The authority and the thresholds, each category once, in no
    /// particular order. Every threshold lies between 1 and `MAX_RISK_LEVEL`.
    fn get_aml(&self) -> (read: (&AccountId, Vec<(Category, RiskScore)>))
        ensures
            *read.0 == self@.account_id,
            lists(read.1@, self@.thresholds),
            all_valid(self@.thresholds),
    ;

    /// Replaces the authority. The thresholds stay as they are.
    fn update_account_id(&mut self, aml_account_id: AccountId)
        ensures
            final(self)@.account_id == aml_account_id,
            final(self)@.thresholds == old(self)@.thresholds,
            all_valid(final(self)@.thresholds),
    ;

    /// Sets the threshold of a category, in place of the one it had, if any.
    ///
    /// A score of 0 or above `MAX_RISK_LEVEL` is refused, and nothing changes.
    fn update_category(
        &mut self,
        category: Category,
        accepted_risk_score: RiskScore,
    ) -> (done: Result<(), AmlError>)
        ensures
            valid_risk_score(accepted_risk_score) ==> {
                &&& done is Ok
                &&& final(self)@.account_id == old(self)@.account_id
                &&& final(self)@.thresholds == old(self)@.thresholds.insert(
                    category,
                    accepted_risk_score,
                )
            },
            !valid_risk_score(accepted_risk_score) ==> {
                &&& done == Err::<(), AmlError>(AmlError::InvalidRiskScore)
                &&& final(self)@ == old(self)@
            },
            all_valid(final(self)@.thresholds),
            has_default(old(self)@.thresholds) ==> has_default(final(self)@.thresholds),
    ;

    /// Takes the threshold of a category away, if it has one.
    ///
    /// The default threshold, that of `Category::All`, stays: removing it is
    /// refused, and nothing changes.
    fn remove_category(&mut self, category: Category) -> (done: Result<(), AmlError>)
        ensures
            category == Category::All ==> {
                &&& done == Err::<(), AmlError>(AmlError::CannotRemoveWildcard)
                &&& final(self)@ == old(self)@
            },
            category != Category::All ==> {
                &&& done is Ok
                &&& final(self)@.account_id == old(self)@.account_id
                &&& final(self)@.thresholds == old(self)@.thresholds.remove(category)
            },
            all_valid(final(self)@.thresholds),
            has_default(old(self)@.thresholds) ==> has_default(final(self)@.thresholds),
    ;
}

impl AmlManager for AML {
    fn get_aml(&self) -> (read: (&AccountId, Vec<(Category, RiskScore)>)) {
        proof {
            use_type_invariant(self);
            self.lemma_thresholds();
        }
        let mut listing: Vec<(Category, RiskScore)> = Vec::new();
        let mut i: usize = 0;
        while i < self.aml_conditions.len()
            invariant
                i <= self.aml_conditions@.len(),
                listing@ == self.aml_conditions@.subrange(0, i as int),
            decreases self.aml_conditions@.len() - i,
        {
            let entry: (Category, RiskScore) = self.aml_conditions[i];
            listing.push(entry);
            i += 1;
        }
        proof {
            assert(listing@ =~= self.aml_conditions@);
        }
        (&self.account_id, listing)
    }

    fn update_account_id(&mut self, aml_account_id: AccountId) {
        proof {
            use_type_invariant(&*self);
            self.lemma_thresholds();
        }
        self.account_id = aml_account_id;
    }

    fn update_category(
        &mut self,
        category: Category,
        accepted_risk_score: RiskScore,
    ) -> (done: Result<(), AmlError>) {
        proof {
            use_type_invariant(&*self);
            self.lemma_thresholds();
        }
        if !is_valid_risk_score(accepted_risk_score) {
            return Err(AmlError::InvalidRiskScore);
        }
        let found = self.position(category);
        let mut entries: Vec<(Category, RiskScore)> = Vec::new();
        core::mem::swap(&mut self.aml_conditions, &mut entries);
        match found {
            Some(i) => {
                proof {
                    lemma_replace_entry(entries@, i as int, category, accepted_risk_score);
                }
                entries.set(i, (category, accepted_risk_score));
            },
            None => {
                entries.push((category, accepted_risk_score));
                proof {
                    assert(entries@.drop_last() =~= old(self).aml_conditions@);
                }
            },
        }
        self.aml_conditions = entries;
        Ok(())
    }

    fn remove_category(&mut self, category: Category) -> (done: Result<(), AmlError>) {
        proof {
            use_type_invariant(&*self);
            self.lemma_thresholds();
        }
        if category == Category::All {
            return Err(AmlError::CannotRemoveWildcard);
        }
        let found = self.position(category);
        let mut entries: Vec<(Category, RiskScore)> = Vec::new();
        core::mem::swap(&mut self.aml_conditions, &mut entries);
        match found {
            Some(i) => {
                proof {
                    lemma_swap_remove_entry(entries@, i as int);
                }
                entries.swap_remove(i);
            },
            None => {
                proof {
                    assert(thresholds_set_by(entries@) =~= thresholds_set_by(entries@).remove(
                        category,
                    ));
                }
            },
        }
        self.aml_conditions = entries;
        Ok(())
    }
}

} // verus!
