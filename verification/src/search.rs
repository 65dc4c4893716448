//! The search: every schedule of the form
//! Hold? Charge Hold? Use (Hold? Charge Hold? Use)? Hold?
//! is priced, and the best one is kept.

use vstd::prelude::*;
use crate::battery::CHARGE_MAX;
use crate::block::{BlockCollection, CollectionModel};
use crate::optimal::Cycle;
use crate::schedule::{Horizon, HorizonModel};
use crate::seek::{better, combine_blocks, pick, spec_combine};
use crate::units::{MAX_TARGET, SOC_STEP};

verus! {

impl HorizonModel {
    /// The best after every start in `[from, horizon)` of the second use
    /// has been tried after `first` and the second charge `charge`.
    pub open spec fn spec_second_uses(
        &self,
        first: CollectionModel,
        charge: CollectionModel,
        from: int,
        best: CollectionModel,
    ) -> CollectionModel
        decreases self.quarters() - from,
    {
        if from >= self.quarters() {
            best
        } else {
            let next = match self.spec_seek_use(
                charge.next_start,
                from,
                self.quarters(),
                charge.next_charge_in,
            ) {
                Some(used) => self.spec_record_best(
                    spec_combine(first, spec_combine(charge, used)),
                    best,
                ),
                None => best,
            };
            self.spec_second_uses(first, charge, from + 1, next)
        }
    }

    /// The best after every target from `level` up, in steps of `SOC_STEP`,
    /// has been tried for a second charge that starts at `start`.
    pub open spec fn spec_second_levels(
        &self,
        first: CollectionModel,
        start: int,
        level: int,
        best: CollectionModel,
    ) -> CollectionModel
        decreases MAX_TARGET + SOC_STEP - level,
    {
        if level > MAX_TARGET {
            best
        } else {
            let charge = self.spec_seek_charge(
                first.next_start,
                start,
                level,
                first.next_charge_in,
            );
            self.spec_second_levels(
                first,
                start,
                level + SOC_STEP,
                self.spec_second_uses(first, charge, charge.next_start, best),
            )
        }
    }

    /// The best after every start in `[from, horizon)` of a second charge
    /// has been tried after `first`.
    pub open spec fn spec_second_charges(&self, first: CollectionModel, from: int, best: CollectionModel) -> CollectionModel
        decreases self.quarters() - from,
    {
        if from >= self.quarters() {
            best
        } else {
            self.spec_second_charges(
                first,
                from + 1,
                self.spec_second_levels(first, from, 0, best),
            )
        }
    }

    /// The best after every end in `[end, horizon]` has been tried for a
    /// first use that starts at `use_start` after the first charge `charge`:
    /// each such schedule alone, and with every second charge and use after it.
    pub open spec fn spec_first_use_ends(
        &self,
        charge: CollectionModel,
        use_start: int,
        end: int,
        best: CollectionModel,
    ) -> CollectionModel
        decreases self.quarters() + 1 - end,
    {
        if end > self.quarters() {
            best
        } else {
            let next = match self.spec_seek_use(
                charge.next_start,
                use_start,
                end,
                charge.next_charge_in,
            ) {
                Some(used) => {
                    let first = spec_combine(charge, used);
                    self.spec_second_charges(
                        first,
                        first.next_start,
                        self.spec_record_best(first, best),
                    )
                },
                None => best,
            };
            self.spec_first_use_ends(charge, use_start, end + 1, next)
        }
    }

    /// The best after every start in `[from, horizon)` of the first use has
    /// been tried after the first charge `charge`.
    pub open spec fn spec_first_uses(&self, charge: CollectionModel, from: int, best: CollectionModel) -> CollectionModel
        decreases self.quarters() - from,
    {
        if from >= self.quarters() {
            best
        } else {
            self.spec_first_uses(
                charge,
                from + 1,
                self.spec_first_use_ends(charge, from, from, best),
            )
        }
    }

    /// The best after every target from `level` up, in steps of `SOC_STEP`,
    /// has been tried for a first charge that starts at `start`.
    pub open spec fn spec_first_levels(
        &self,
        start: int,
        level: int,
        charge_in: int,
        best: CollectionModel,
    ) -> CollectionModel
        decreases MAX_TARGET + SOC_STEP - level,
    {
        if level > MAX_TARGET {
            best
        } else {
            let charge = self.spec_seek_charge(0, start, level, charge_in);
            self.spec_first_levels(
                start,
                level + SOC_STEP,
                charge_in,
                self.spec_first_uses(charge, charge.next_start, best),
            )
        }
    }

    /// The best schedule whose first charge starts at `start`, or the
    /// baseline where none of them is better.
    pub open spec fn spec_seek_from(&self, start: int, charge_in: int) -> CollectionModel {
        self.spec_first_levels(start, 0, charge_in, self.spec_baseline(charge_in))
    }

    /// The best after the results for every start in `[from, horizon)` of
    /// the first charge have been compared in ascending order.
    pub open spec fn spec_seek_all(&self, from: int, charge_in: int, best: CollectionModel) -> CollectionModel
        decreases self.quarters() - from,
    {
        if from >= self.quarters() {
            best
        } else {
            self.spec_seek_all(from + 1, charge_in, pick(self.spec_seek_from(from, charge_in), best))
        }
    }

    /// The best schedule of the search: the cheapest, among the cheapest
    /// the one with the fewest blocks, among those the one that the search
    /// meets first; the baseline where nothing is better.
    pub open spec fn spec_seek_best(&self, charge_in: int) -> CollectionModel {
        self.spec_seek_all(0, charge_in, self.spec_baseline(charge_in))
    }
}

/// Not being better is transitive: the order is total on cost and block count.
pub proof fn lemma_not_better_trans(a: CollectionModel, b: CollectionModel, c: CollectionModel)
    requires
        !better(a, b),
        !better(b, c),
    ensures
        !better(a, c),
{
}

impl HorizonModel {
    /// Trying the starts of the second use keeps a schedule that covers
    /// the horizon and is no worse than the best so far.
    pub proof fn lemma_second_uses_ok(
        &self,
        first: CollectionModel,
        charge: CollectionModel,
        from: int,
        best: CollectionModel,
        charge_in: int,
    )
        requires
            self.wf(),
            self.part_ok(first, 0, charge_in),
            self.part_ok(charge, first.next_start, first.next_charge_in),
            charge.next_start <= from,
            self.complete_ok(best, charge_in),
        ensures
            self.complete_ok(self.spec_second_uses(first, charge, from, best), charge_in),
            !better(best, self.spec_second_uses(first, charge, from, best)),
        decreases self.quarters() - from,
    {
        if from < self.quarters() {
            self.lemma_seek_use_ok(charge.next_start, from, self.quarters(), charge.next_charge_in);
            let used = self.spec_seek_use(
                charge.next_start,
                from,
                self.quarters(),
                charge.next_charge_in,
            )->Some_0;
            self.lemma_combine(charge, used, first.next_start, first.next_charge_in);
            self.lemma_combine(first, spec_combine(charge, used), 0, charge_in);
            self.lemma_complete_ok(spec_combine(first, spec_combine(charge, used)), charge_in);
            let next = self.spec_record_best(spec_combine(first, spec_combine(charge, used)), best);
            self.lemma_second_uses_ok(first, charge, from + 1, next, charge_in);
        }
    }

    /// Trying the targets of the second charge keeps a schedule that
    /// covers the horizon and is no worse than the best so far.
    pub proof fn lemma_second_levels_ok(
        &self,
        first: CollectionModel,
        start: int,
        level: int,
        best: CollectionModel,
        charge_in: int,
    )
        requires
            self.wf(),
            self.part_ok(first, 0, charge_in),
            first.next_start <= start <= self.quarters(),
            0 <= level,
            self.complete_ok(best, charge_in),
        ensures
            self.complete_ok(self.spec_second_levels(first, start, level, best), charge_in),
            !better(best, self.spec_second_levels(first, start, level, best)),
        decreases MAX_TARGET + SOC_STEP - level,
    {
        if level <= MAX_TARGET {
            let charge = self.spec_seek_charge(first.next_start, start, level, first.next_charge_in);
            self.lemma_seek_charge_ok(first.next_start, start, level, first.next_charge_in);
            self.lemma_second_uses_ok(first, charge, charge.next_start, best, charge_in);
            let next = self.spec_second_uses(first, charge, charge.next_start, best);
            self.lemma_second_levels_ok(first, start, level + SOC_STEP, next, charge_in);
        }
    }

    /// Trying the starts of the second charge keeps a schedule that
    /// covers the horizon and is no worse than the best so far.
    pub proof fn lemma_second_charges_ok(
        &self,
        first: CollectionModel,
        from: int,
        best: CollectionModel,
        charge_in: int,
    )
        requires
            self.wf(),
            self.part_ok(first, 0, charge_in),
            first.next_start <= from,
            self.complete_ok(best, charge_in),
        ensures
            self.complete_ok(self.spec_second_charges(first, from, best), charge_in),
            !better(best, self.spec_second_charges(first, from, best)),
        decreases self.quarters() - from,
    {
        if from < self.quarters() {
            self.lemma_second_levels_ok(first, from, 0, best, charge_in);
            let next = self.spec_second_levels(first, from, 0, best);
            self.lemma_second_charges_ok(first, from + 1, next, charge_in);
        }
    }

    /// Trying the ends of the first use keeps a schedule that covers the
    /// horizon and is no worse than the best so far.
    pub proof fn lemma_first_use_ends_ok(
        &self,
        charge: CollectionModel,
        use_start: int,
        end: int,
        best: CollectionModel,
        charge_in: int,
    )
        requires
            self.wf(),
            self.part_ok(charge, 0, charge_in),
            charge.next_start <= use_start <= end,
            self.complete_ok(best, charge_in),
        ensures
            self.complete_ok(self.spec_first_use_ends(charge, use_start, end, best), charge_in),
            !better(best, self.spec_first_use_ends(charge, use_start, end, best)),
        decreases self.quarters() + 1 - end,
    {
        if end <= self.quarters() {
            if use_start != end {
                self.lemma_seek_use_ok(charge.next_start, use_start, end, charge.next_charge_in);
                let used = self.spec_seek_use(
                    charge.next_start,
                    use_start,
                    end,
                    charge.next_charge_in,
                )->Some_0;
                let first = spec_combine(charge, used);
                self.lemma_combine(charge, used, 0, charge_in);
                self.lemma_complete_ok(first, charge_in);
                let recorded = self.spec_record_best(first, best);
                self.lemma_second_charges_ok(first, first.next_start, recorded, charge_in);
                let next = self.spec_second_charges(first, first.next_start, recorded);
                self.lemma_first_use_ends_ok(charge, use_start, end + 1, next, charge_in);
            } else {
                self.lemma_first_use_ends_ok(charge, use_start, end + 1, best, charge_in);
            }
        }
    }

    /// Trying the starts of the first use keeps a schedule that covers
    /// the horizon and is no worse than the best so far.
    pub proof fn lemma_first_uses_ok(
        &self,
        charge: CollectionModel,
        from: int,
        best: CollectionModel,
        charge_in: int,
    )
        requires
            self.wf(),
            self.part_ok(charge, 0, charge_in),
            charge.next_start <= from,
            self.complete_ok(best, charge_in),
        ensures
            self.complete_ok(self.spec_first_uses(charge, from, best), charge_in),
            !better(best, self.spec_first_uses(charge, from, best)),
        decreases self.quarters() - from,
    {
        if from < self.quarters() {
            self.lemma_first_use_ends_ok(charge, from, from, best, charge_in);
            let next = self.spec_first_use_ends(charge, from, from, best);
            self.lemma_first_uses_ok(charge, from + 1, next, charge_in);
        }
    }

    /// Trying the targets of the first charge keeps a schedule that
    /// covers the horizon and is no worse than the best so far.
    pub proof fn lemma_first_levels_ok(
        &self,
        start: int,
        level: int,
        charge_in: int,
        best: CollectionModel,
    )
        requires
            self.wf(),
            0 <= start <= self.quarters(),
            0 <= level,
            -CHARGE_MAX <= charge_in <= CHARGE_MAX,
            self.complete_ok(best, charge_in),
        ensures
            self.complete_ok(self.spec_first_levels(start, level, charge_in, best), charge_in),
            !better(best, self.spec_first_levels(start, level, charge_in, best)),
        decreases MAX_TARGET + SOC_STEP - level,
    {
        if level <= MAX_TARGET {
            let charge = self.spec_seek_charge(0, start, level, charge_in);
            self.lemma_seek_charge_ok(0, start, level, charge_in);
            self.lemma_first_uses_ok(charge, charge.next_start, best, charge_in);
            let next = self.spec_first_uses(charge, charge.next_start, best);
            self.lemma_first_levels_ok(start, level + SOC_STEP, charge_in, next);
        }
    }

    /// Comparing the results for the starts of the first charge keeps a
    /// schedule that covers the horizon and is no worse than the best so far.
    pub proof fn lemma_seek_all_ok(&self, from: int, charge_in: int, best: CollectionModel)
        requires
            self.wf(),
            0 <= from,
            -CHARGE_MAX <= charge_in <= CHARGE_MAX,
            self.complete_ok(best, charge_in),
        ensures
            self.complete_ok(self.spec_seek_all(from, charge_in, best), charge_in),
            !better(best, self.spec_seek_all(from, charge_in, best)),
        decreases self.quarters() - from,
    {
        if from < self.quarters() {
            self.lemma_baseline_ok(charge_in);
            self.lemma_first_levels_ok(from, 0, charge_in, self.spec_baseline(charge_in));
            let next = pick(self.spec_seek_from(from, charge_in), best);
            self.lemma_seek_all_ok(from + 1, charge_in, next);
        }
    }

    /// The best schedule of the search covers the horizon, and the
    /// baseline is not better than it.
    pub proof fn lemma_seek_best_ok(&self, charge_in: int)
        requires
            self.wf(),
            -CHARGE_MAX <= charge_in <= CHARGE_MAX,
        ensures
            self.complete_ok(self.spec_seek_best(charge_in), charge_in),
            !better(self.spec_baseline(charge_in), self.spec_seek_best(charge_in)),
    {
        self.lemma_baseline_ok(charge_in);
        self.lemma_seek_all_ok(0, charge_in, self.spec_baseline(charge_in));
    }
}

impl Horizon {
    /// Tries every start of the second use after `first` and the second
    /// charge `charge`, and keeps the best.
    fn second_uses(
        &self,
        first: &BlockCollection,
        charge: &BlockCollection,
        best: BlockCollection,
        Ghost(charge_in): Ghost<int>,
    ) -> (r: BlockCollection)
        requires
            self.wf(),
            self@.part_ok(first@, 0, charge_in),
            self@.part_ok(charge@, first@.next_start, first@.next_charge_in),
            self@.complete_ok(best@, charge_in),
        ensures
            r@ == self@.spec_second_uses(first@, charge@, charge@.next_start, best@),
            self@.complete_ok(r@, charge_in),
    {
        let length = self.tariffs.length;
        let ghost initial = best@;
        let mut best = best;
        let mut start = charge.next_start;
        while start < length
            invariant
                self.wf(),
                length == self.tariffs.length,
                charge.next_start <= start <= length,
                self@.part_ok(first@, 0, charge_in),
                self@.part_ok(charge@, first@.next_start, first@.next_charge_in),
                self@.complete_ok(best@, charge_in),
                self@.spec_second_uses(first@, charge@, start as int, best@)
                    == self@.spec_second_uses(first@, charge@, charge@.next_start, initial),
            decreases length - start,
        {
            if let Some(used) = self.seek_use(charge.next_start, start, length, charge.next_charge_in) {
                proof {
                    self@.lemma_combine(
                        charge@,
                        used@,
                        first@.next_start,
                        first@.next_charge_in,
                    );
                    self@.lemma_combine(first@, spec_combine(charge@, used@), 0, charge_in);
                    self@.lemma_fits(spec_combine(charge@, used@), first@.next_start, first@.next_charge_in);
                    self@.lemma_fits(first@, 0, charge_in);
                    self@.lemma_fits(spec_combine(first@, spec_combine(charge@, used@)), 0, charge_in);
                    self@.lemma_complete_ok(
                        spec_combine(first@, spec_combine(charge@, used@)),
                        charge_in,
                    );
                }
                let second = combine_blocks(charge, &used);
                let all = combine_blocks(first, &second);
                best = self.record_best_collection(&all, best);
            }
            start += 1;
        }
        best
    }

    /// Tries every target of a second charge that starts at `start`, and
    /// keeps the best.
    fn second_levels(
        &self,
        first: &BlockCollection,
        start: usize,
        best: BlockCollection,
        Ghost(charge_in): Ghost<int>,
    ) -> (r: BlockCollection)
        requires
            self.wf(),
            self@.part_ok(first@, 0, charge_in),
            first.next_start <= start < self.tariffs.length,
            self@.complete_ok(best@, charge_in),
        ensures
            r@ == self@.spec_second_levels(first@, start as int, 0, best@),
            self@.complete_ok(r@, charge_in),
    {
        let ghost initial = best@;
        let mut best = best;
        let mut level: usize = 0;
        while level <= MAX_TARGET
            invariant
                self.wf(),
                level <= MAX_TARGET + SOC_STEP,
                self@.part_ok(first@, 0, charge_in),
                first.next_start <= start < self.tariffs.length,
                self@.complete_ok(best@, charge_in),
                self@.spec_second_levels(first@, start as int, level as int, best@)
                    == self@.spec_second_levels(first@, start as int, 0, initial),
            decreases MAX_TARGET + SOC_STEP - level,
        {
            let charge = self.seek_charge(first.next_start, start, level, first.next_charge_in);
            best = self.second_uses(first, &charge, best, Ghost(charge_in));
            level += SOC_STEP;
        }
        best
    }

    /// Tries every start of a second charge after `first`, and keeps the best.
    fn second_charges(&self, first: &BlockCollection, best: BlockCollection, Ghost(charge_in): Ghost<int>) -> (r:
        BlockCollection)
        requires
            self.wf(),
            self@.part_ok(first@, 0, charge_in),
            self@.complete_ok(best@, charge_in),
        ensures
            r@ == self@.spec_second_charges(first@, first@.next_start, best@),
            self@.complete_ok(r@, charge_in),
    {
        let length = self.tariffs.length;
        let ghost initial = best@;
        let mut best = best;
        let mut start = first.next_start;
        while start < length
            invariant
                self.wf(),
                length == self.tariffs.length,
                first.next_start <= start <= length,
                self@.part_ok(first@, 0, charge_in),
                self@.complete_ok(best@, charge_in),
                self@.spec_second_charges(first@, start as int, best@) == self@.spec_second_charges(
                    first@,
                    first@.next_start,
                    initial,
                ),
            decreases length - start,
        {
            best = self.second_levels(first, start, best, Ghost(charge_in));
            start += 1;
        }
        best
    }

    /// Tries every end of a first use that starts at `use_start` after the
    /// first charge `charge`: the schedule of this one cycle, and every
    /// schedule with a second cycle after it; and keeps the best.
    fn first_use_ends(
        &self,
        charge: &BlockCollection,
        use_start: usize,
        best: BlockCollection,
        Ghost(charge_in): Ghost<int>,
    ) -> (r: BlockCollection)
        requires
            self.wf(),
            self@.part_ok(charge@, 0, charge_in),
            charge.next_start <= use_start < self.tariffs.length,
            self@.complete_ok(best@, charge_in),
        ensures
            r@ == self@.spec_first_use_ends(charge@, use_start as int, use_start as int, best@),
            self@.complete_ok(r@, charge_in),
    {
        let length = self.tariffs.length;
        let ghost initial = best@;
        let mut best = best;
        let mut end = use_start;
        while end <= length
            invariant
                self.wf(),
                length == self.tariffs.length,
                charge.next_start <= use_start < length,
                use_start <= end <= length + 1,
                self@.part_ok(charge@, 0, charge_in),
                self@.complete_ok(best@, charge_in),
                self@.spec_first_use_ends(charge@, use_start as int, end as int, best@)
                    == self@.spec_first_use_ends(
                    charge@,
                    use_start as int,
                    use_start as int,
                    initial,
                ),
            decreases length + 1 - end,
        {
            if let Some(used) = self.seek_use(charge.next_start, use_start, end, charge.next_charge_in) {
                proof {
                    self@.lemma_combine(charge@, used@, 0, charge_in);
                    self@.lemma_fits(spec_combine(charge@, used@), 0, charge_in);
                    self@.lemma_complete_ok(spec_combine(charge@, used@), charge_in);
                }
                let first = combine_blocks(charge, &used);
                best = self.record_best_collection(&first, best);
                best = self.second_charges(&first, best, Ghost(charge_in));
            }
            end += 1;
        }
        best
    }

    /// Tries every start of the first use after the first charge `charge`,
    /// and keeps the best.
    fn first_uses(&self, charge: &BlockCollection, best: BlockCollection, Ghost(charge_in): Ghost<int>) -> (r:
        BlockCollection)
        requires
            self.wf(),
            self@.part_ok(charge@, 0, charge_in),
            self@.complete_ok(best@, charge_in),
        ensures
            r@ == self@.spec_first_uses(charge@, charge@.next_start, best@),
            self@.complete_ok(r@, charge_in),
    {
        let length = self.tariffs.length;
        let ghost initial = best@;
        let mut best = best;
        let mut start = charge.next_start;
        while start < length
            invariant
                self.wf(),
                length == self.tariffs.length,
                charge.next_start <= start <= length,
                self@.part_ok(charge@, 0, charge_in),
                self@.complete_ok(best@, charge_in),
                self@.spec_first_uses(charge@, start as int, best@) == self@.spec_first_uses(
                    charge@,
                    charge@.next_start,
                    initial,
                ),
            decreases length - start,
        {
            best = self.first_use_ends(charge, start, best, Ghost(charge_in));
            start += 1;
        }
        best
    }

    /// Searches every schedule whose first charge starts at `start`, and
    /// returns the best of them, or `best` where none of them is better.
    pub fn seek_from(&self, start: usize, charge_in: i64, best: BlockCollection) -> (r: BlockCollection)
        requires
            self.wf(),
            start < self.tariffs.length,
            -CHARGE_MAX <= charge_in <= CHARGE_MAX,
            self@.complete_ok(best@, charge_in as int),
        ensures
            r@ == self@.spec_first_levels(start as int, 0, charge_in as int, best@),
            self@.complete_ok(r@, charge_in as int),
    {
        let ghost initial = best@;
        let mut best = best;
        let mut level: usize = 0;
        while level <= MAX_TARGET
            invariant
                self.wf(),
                level <= MAX_TARGET + SOC_STEP,
                start < self.tariffs.length,
                -CHARGE_MAX <= charge_in <= CHARGE_MAX,
                self@.complete_ok(best@, charge_in as int),
                self@.spec_first_levels(start as int, level as int, charge_in as int, best@)
                    == self@.spec_first_levels(start as int, 0, charge_in as int, initial),
            decreases MAX_TARGET + SOC_STEP - level,
        {
            let charge = self.seek_charge(0, start, level, charge_in);
            best = self.first_uses(&charge, best, Ghost(charge_in as int));
            level += SOC_STEP;
        }
        best
    }

    /// Seeks the best schedule: for every start of the first charge the
    /// search begins with the baseline, and the results are compared in
    /// ascending order of that start. What is returned is the baseline or
    /// a schedule of one or two cycles, and none of those is cheaper, or
    /// costs the same with fewer blocks.
    pub fn seek_best(&self, charge_in: i64) -> (r: BlockCollection)
        requires
            self.wf(),
            -CHARGE_MAX <= charge_in <= CHARGE_MAX,
        ensures
            r@ == self@.spec_seek_best(charge_in as int),
            self@.complete_ok(r@, charge_in as int),
            self@.reachable(r@, charge_in as int),
            !better(self@.spec_baseline(charge_in as int), r@),
            forall|first: Cycle, second: Option<Cycle>| #[trigger]
                self@.is_candidate(first, second, charge_in as int) ==> !better(
                    self@.candidate(first, second, charge_in as int),
                    r@,
                ),
    {
        proof {
            self@.best_is_baseline_or_candidate(charge_in as int);
            assert forall|first: Cycle, second: Option<Cycle>| #[trigger]
                self@.is_candidate(first, second, charge_in as int) implies !better(
                self@.candidate(first, second, charge_in as int),
                self@.spec_seek_best(charge_in as int),
            ) by {
                self@.best_is_optimal(first, second, charge_in as int);
            }
        }
        let length = self.tariffs.length;
        let baseline = self.create_base_block_collection(charge_in);
        let mut best = baseline.duplicate();
        let mut start: usize = 0;
        while start < length
            invariant
                self.wf(),
                length == self.tariffs.length,
                start <= length,
                -CHARGE_MAX <= charge_in <= CHARGE_MAX,
                baseline@ == self@.spec_baseline(charge_in as int),
                self@.complete_ok(baseline@, charge_in as int),
                self@.complete_ok(best@, charge_in as int),
                !better(baseline@, best@),
                self@.spec_seek_all(start as int, charge_in as int, best@) == self@.spec_seek_best(
                    charge_in as int,
                ),
            decreases length - start,
        {
            let local = self.seek_from(start, charge_in, baseline.duplicate());
            best = pick_best(local, best);
            start += 1;
        }
        best
    }
}

/// The better of the two, `best` where neither is.
pub fn pick_best(candidate: BlockCollection, best: BlockCollection) -> (r: BlockCollection)
    ensures
        r@ == pick(candidate@, best@),
{
    if candidate.total_cost < best.total_cost || (candidate.total_cost == best.total_cost
        && candidate.blocks.len() < best.blocks.len()) {
        candidate
    } else {
        best
    }
}

} // verus!
