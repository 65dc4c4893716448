//! The best schedule of the search is at least as good as every schedule
//! that the search can form.

use vstd::prelude::*;
use crate::battery::CHARGE_MAX;
use crate::block::CollectionModel;
use crate::schedule::HorizonModel;
use crate::search::lemma_not_better_trans;
use crate::seek::{better, pick, spec_combine};
use crate::units::{MAX_TARGET, SOC_STEP};

verus! {

/// A charge towards `level` percent that starts at `charge_start`, and
/// a use of the battery over `[use_start, use_end)` after it.
pub struct Cycle {
    pub charge_start: int,
    pub level: int,
    pub use_start: int,
    pub use_end: int,
}

/// `level` is one of the charge targets: 0, 5, ..., 90.
pub open spec fn is_level(level: int) -> bool {
    0 <= level <= MAX_TARGET && level % (SOC_STEP as int) == 0
}

impl HorizonModel {
    /// The charge of `cycle`, with the hold from `from` that leads up to it.
    pub open spec fn cycle_charge(&self, cycle: Cycle, from: int, charge_in: int) -> CollectionModel {
        self.spec_seek_charge(from, cycle.charge_start, cycle.level, charge_in)
    }

    /// `cycle` as a part that starts at `from` with `charge_in`: hold,
    /// charge, hold and use.
    pub open spec fn cycle_part(&self, cycle: Cycle, from: int, charge_in: int) -> CollectionModel {
        let charge = self.cycle_charge(cycle, from, charge_in);
        spec_combine(
            charge,
            self.spec_seek_use(
                charge.next_start,
                cycle.use_start,
                cycle.use_end,
                charge.next_charge_in,
            )->Some_0,
        )
    }

    /// `cycle` can follow a part that ends at `from` with `charge_in`: its
    /// charge starts at or after `from`, within the horizon, and aims at
    /// one of the targets; its use starts at or after the end of the
    /// charge and covers at least one quarter of the horizon.
    pub open spec fn cycle_fits(&self, cycle: Cycle, from: int, charge_in: int) -> bool {
        &&& from <= cycle.charge_start < self.quarters()
        &&& is_level(cycle.level)
        &&& self.cycle_charge(cycle, from, charge_in).next_start <= cycle.use_start
        &&& cycle.use_start < cycle.use_end <= self.quarters()
    }

    /// The schedule of one cycle, or of two, completed to the end of the horizon.
    pub open spec fn candidate(&self, first: Cycle, second: Option<Cycle>, charge_in: int) -> CollectionModel {
        let one = self.cycle_part(first, 0, charge_in);
        match second {
            None => self.spec_complete(one),
            Some(two) => self.spec_complete(
                spec_combine(one, self.cycle_part(two, one.next_start, one.next_charge_in)),
            ),
        }
    }

    /// The cycles form a schedule that the search tries: the first one
    /// fits at the start of the horizon, and a second one fits after it
    /// and uses the battery to the end of the horizon.
    pub open spec fn is_candidate(&self, first: Cycle, second: Option<Cycle>, charge_in: int) -> bool {
        let one = self.cycle_part(first, 0, charge_in);
        &&& self.cycle_fits(first, 0, charge_in)
        &&& match second {
            None => true,
            Some(two) => self.cycle_fits(two, one.next_start, one.next_charge_in) && two.use_end
                == self.quarters(),
        }
    }

    /// A cycle that fits is a part, and ends where its use ends.
    pub proof fn lemma_cycle_part_ok(&self, cycle: Cycle, from: int, charge_in: int)
        requires
            self.wf(),
            0 <= from,
            -CHARGE_MAX <= charge_in <= CHARGE_MAX,
            self.cycle_fits(cycle, from, charge_in),
        ensures
            self.part_ok(self.cycle_charge(cycle, from, charge_in), from, charge_in),
            self.part_ok(self.cycle_part(cycle, from, charge_in), from, charge_in),
            self.cycle_part(cycle, from, charge_in).next_start == cycle.use_end,
    {
        let charge = self.cycle_charge(cycle, from, charge_in);
        self.lemma_seek_charge_ok(from, cycle.charge_start, cycle.level, charge_in);
        self.lemma_seek_use_ok(
            charge.next_start,
            cycle.use_start,
            cycle.use_end,
            charge.next_charge_in,
        );
        let used = self.spec_seek_use(
            charge.next_start,
            cycle.use_start,
            cycle.use_end,
            charge.next_charge_in,
        )->Some_0;
        self.lemma_combine(charge, used, from, charge_in);
    }

    /// Once the completed `joined` has been compared, the best is not
    /// worse than it, and covers the horizon.
    pub proof fn lemma_recorded(&self, joined: CollectionModel, best: CollectionModel, charge_in: int)
        requires
            self.wf(),
            self.part_ok(joined, 0, charge_in),
            self.complete_ok(best, charge_in),
        ensures
            !better(self.spec_complete(joined), self.spec_record_best(joined, best)),
            !better(best, self.spec_record_best(joined, best)),
            self.complete_ok(self.spec_record_best(joined, best), charge_in),
    {
        self.lemma_complete_ok(joined, charge_in);
    }

    /// After the starts of the second use from `from` on have been
    /// tried, the best is not worse than the schedule whose second use
    /// starts at `use_start`.
    pub proof fn lemma_second_uses_cover(
        &self,
        first: CollectionModel,
        charge: CollectionModel,
        from: int,
        best: CollectionModel,
        use_start: int,
        charge_in: int,
    )
        requires
            self.wf(),
            self.part_ok(first, 0, charge_in),
            self.part_ok(charge, first.next_start, first.next_charge_in),
            charge.next_start <= from <= use_start < self.quarters(),
            self.complete_ok(best, charge_in),
        ensures
            !better(
                self.spec_complete(
                    spec_combine(
                        first,
                        spec_combine(
                            charge,
                            self.spec_seek_use(
                                charge.next_start,
                                use_start,
                                self.quarters(),
                                charge.next_charge_in,
                            )->Some_0,
                        ),
                    ),
                ),
                self.spec_second_uses(first, charge, from, best),
            ),
        decreases use_start - from,
    {
        self.lemma_seek_use_ok(charge.next_start, from, self.quarters(), charge.next_charge_in);
        let used = self.spec_seek_use(
            charge.next_start,
            from,
            self.quarters(),
            charge.next_charge_in,
        )->Some_0;
        let joined = spec_combine(first, spec_combine(charge, used));
        self.lemma_combine(charge, used, first.next_start, first.next_charge_in);
        self.lemma_combine(first, spec_combine(charge, used), 0, charge_in);
        self.lemma_recorded(joined, best, charge_in);
        let next = self.spec_record_best(joined, best);
        if from == use_start {
            self.lemma_second_uses_ok(first, charge, from + 1, next, charge_in);
            lemma_not_better_trans(
                self.spec_complete(joined),
                next,
                self.spec_second_uses(first, charge, from + 1, next),
            );
        } else {
            self.lemma_second_uses_cover(first, charge, from + 1, next, use_start, charge_in);
        }
    }

    /// After the targets of the second charge from `level` on have been
    /// tried, the best is not worse than the schedule whose second cycle is `two`.
    pub proof fn lemma_second_levels_cover(
        &self,
        first: CollectionModel,
        level: int,
        best: CollectionModel,
        two: Cycle,
        charge_in: int,
    )
        requires
            self.wf(),
            self.part_ok(first, 0, charge_in),
            self.cycle_fits(two, first.next_start, first.next_charge_in),
            two.use_end == self.quarters(),
            0 <= level <= two.level,
            level % (SOC_STEP as int) == 0,
            self.complete_ok(best, charge_in),
        ensures
            !better(
                self.spec_complete(
                    spec_combine(first, self.cycle_part(two, first.next_start, first.next_charge_in)),
                ),
                self.spec_second_levels(first, two.charge_start, level, best),
            ),
        decreases two.level - level,
    {
        let start = two.charge_start;
        let charge = self.spec_seek_charge(first.next_start, start, level, first.next_charge_in);
        self.lemma_seek_charge_ok(first.next_start, start, level, first.next_charge_in);
        self.lemma_second_uses_ok(first, charge, charge.next_start, best, charge_in);
        let next = self.spec_second_uses(first, charge, charge.next_start, best);
        if level == two.level {
            self.lemma_second_uses_cover(
                first,
                charge,
                charge.next_start,
                best,
                two.use_start,
                charge_in,
            );
            self.lemma_second_levels_ok(first, start, level + SOC_STEP, next, charge_in);
            lemma_not_better_trans(
                self.spec_complete(
                    spec_combine(first, self.cycle_part(two, first.next_start, first.next_charge_in)),
                ),
                next,
                self.spec_second_levels(first, start, level + SOC_STEP, next),
            );
        } else {
            self.lemma_second_levels_cover(first, level + SOC_STEP, next, two, charge_in);
        }
    }

    /// After the starts of the second charge from `from` on have been
    /// tried, the best is not worse than the schedule whose second cycle is `two`.
    pub proof fn lemma_second_charges_cover(
        &self,
        first: CollectionModel,
        from: int,
        best: CollectionModel,
        two: Cycle,
        charge_in: int,
    )
        requires
            self.wf(),
            self.part_ok(first, 0, charge_in),
            self.cycle_fits(two, first.next_start, first.next_charge_in),
            two.use_end == self.quarters(),
            first.next_start <= from <= two.charge_start,
            self.complete_ok(best, charge_in),
        ensures
            !better(
                self.spec_complete(
                    spec_combine(first, self.cycle_part(two, first.next_start, first.next_charge_in)),
                ),
                self.spec_second_charges(first, from, best),
            ),
        decreases two.charge_start - from,
    {
        self.lemma_second_levels_ok(first, from, 0, best, charge_in);
        let next = self.spec_second_levels(first, from, 0, best);
        if from == two.charge_start {
            self.lemma_second_levels_cover(first, 0, best, two, charge_in);
            self.lemma_second_charges_ok(first, from + 1, next, charge_in);
            lemma_not_better_trans(
                self.spec_complete(
                    spec_combine(first, self.cycle_part(two, first.next_start, first.next_charge_in)),
                ),
                next,
                self.spec_second_charges(first, from + 1, next),
            );
        } else {
            self.lemma_second_charges_cover(first, from + 1, next, two, charge_in);
        }
    }

    /// After the ends of the first use from `end` on have been tried, the
    /// best is not worse than the schedule of the cycles `first` and `second`.
    pub proof fn lemma_first_use_ends_cover(
        &self,
        end: int,
        best: CollectionModel,
        first: Cycle,
        second: Option<Cycle>,
        charge_in: int,
    )
        requires
            self.wf(),
            -CHARGE_MAX <= charge_in <= CHARGE_MAX,
            self.is_candidate(first, second, charge_in),
            first.use_start <= end <= first.use_end,
            self.complete_ok(best, charge_in),
        ensures
            !better(
                self.candidate(first, second, charge_in),
                self.spec_first_use_ends(
                    self.cycle_charge(first, 0, charge_in),
                    first.use_start,
                    end,
                    best,
                ),
            ),
        decreases first.use_end - end,
    {
        let charge = self.cycle_charge(first, 0, charge_in);
        let use_start = first.use_start;
        self.lemma_cycle_part_ok(first, 0, charge_in);
        let wanted = self.candidate(first, second, charge_in);
        if end == use_start {
            assert(self.spec_seek_use(charge.next_start, use_start, end, charge.next_charge_in) is None);
            self.lemma_first_use_ends_cover(end + 1, best, first, second, charge_in);
        } else {
            self.lemma_seek_use_ok(charge.next_start, use_start, end, charge.next_charge_in);
            let used = self.spec_seek_use(
                charge.next_start,
                use_start,
                end,
                charge.next_charge_in,
            )->Some_0;
            let one = spec_combine(charge, used);
            self.lemma_combine(charge, used, 0, charge_in);
            self.lemma_recorded(one, best, charge_in);
            let recorded = self.spec_record_best(one, best);
            self.lemma_second_charges_ok(one, one.next_start, recorded, charge_in);
            let next = self.spec_second_charges(one, one.next_start, recorded);
            if end == first.use_end {
                match second {
                    None => {
                        lemma_not_better_trans(wanted, recorded, next);
                    },
                    Some(two) => {
                        self.lemma_second_charges_cover(
                            one,
                            one.next_start,
                            recorded,
                            two,
                            charge_in,
                        );
                    },
                }
                self.lemma_first_use_ends_ok(charge, use_start, end + 1, next, charge_in);
                lemma_not_better_trans(
                    wanted,
                    next,
                    self.spec_first_use_ends(charge, use_start, end + 1, next),
                );
            } else {
                self.lemma_first_use_ends_cover(end + 1, next, first, second, charge_in);
            }
        }
    }

    /// After the starts of the first use from `from` on have been tried,
    /// the best is not worse than the schedule of the cycles `first` and `second`.
    pub proof fn lemma_first_uses_cover(
        &self,
        from: int,
        best: CollectionModel,
        first: Cycle,
        second: Option<Cycle>,
        charge_in: int,
    )
        requires
            self.wf(),
            -CHARGE_MAX <= charge_in <= CHARGE_MAX,
            self.is_candidate(first, second, charge_in),
            self.cycle_charge(first, 0, charge_in).next_start <= from <= first.use_start,
            self.complete_ok(best, charge_in),
        ensures
            !better(
                self.candidate(first, second, charge_in),
                self.spec_first_uses(self.cycle_charge(first, 0, charge_in), from, best),
            ),
        decreases first.use_start - from,
    {
        let charge = self.cycle_charge(first, 0, charge_in);
        self.lemma_cycle_part_ok(first, 0, charge_in);
        self.lemma_first_use_ends_ok(charge, from, from, best, charge_in);
        let next = self.spec_first_use_ends(charge, from, from, best);
        if from == first.use_start {
            self.lemma_first_use_ends_cover(from, best, first, second, charge_in);
            self.lemma_first_uses_ok(charge, from + 1, next, charge_in);
            lemma_not_better_trans(
                self.candidate(first, second, charge_in),
                next,
                self.spec_first_uses(charge, from + 1, next),
            );
        } else {
            self.lemma_first_uses_cover(from + 1, next, first, second, charge_in);
        }
    }

    /// After the targets of the first charge from `level` on have been
    /// tried, the best is not worse than the schedule of the cycles
    /// `first` and `second`.
    pub proof fn lemma_first_levels_cover(
        &self,
        level: int,
        best: CollectionModel,
        first: Cycle,
        second: Option<Cycle>,
        charge_in: int,
    )
        requires
            self.wf(),
            -CHARGE_MAX <= charge_in <= CHARGE_MAX,
            self.is_candidate(first, second, charge_in),
            0 <= level <= first.level,
            level % (SOC_STEP as int) == 0,
            self.complete_ok(best, charge_in),
        ensures
            !better(
                self.candidate(first, second, charge_in),
                self.spec_first_levels(first.charge_start, level, charge_in, best),
            ),
        decreases first.level - level,
    {
        let start = first.charge_start;
        let charge = self.spec_seek_charge(0, start, level, charge_in);
        self.lemma_seek_charge_ok(0, start, level, charge_in);
        self.lemma_first_uses_ok(charge, charge.next_start, best, charge_in);
        let next = self.spec_first_uses(charge, charge.next_start, best);
        if level == first.level {
            self.lemma_first_uses_cover(charge.next_start, best, first, second, charge_in);
            self.lemma_first_levels_ok(start, level + SOC_STEP, charge_in, next);
            lemma_not_better_trans(
                self.candidate(first, second, charge_in),
                next,
                self.spec_first_levels(start, level + SOC_STEP, charge_in, next),
            );
        } else {
            self.lemma_first_levels_cover(level + SOC_STEP, next, first, second, charge_in);
        }
    }

    /// After the results for the starts of the first charge from `from` on
    /// have been compared, the best is not worse than the schedule of the
    /// cycles `first` and `second`.
    pub proof fn lemma_seek_all_cover(
        &self,
        from: int,
        best: CollectionModel,
        first: Cycle,
        second: Option<Cycle>,
        charge_in: int,
    )
        requires
            self.wf(),
            -CHARGE_MAX <= charge_in <= CHARGE_MAX,
            self.is_candidate(first, second, charge_in),
            0 <= from <= first.charge_start,
            self.complete_ok(best, charge_in),
        ensures
            !better(
                self.candidate(first, second, charge_in),
                self.spec_seek_all(from, charge_in, best),
            ),
        decreases first.charge_start - from,
    {
        self.lemma_baseline_ok(charge_in);
        self.lemma_first_levels_ok(from, 0, charge_in, self.spec_baseline(charge_in));
        let local = self.spec_seek_from(from, charge_in);
        let next = pick(local, best);
        if from == first.charge_start {
            self.lemma_first_levels_cover(
                0,
                self.spec_baseline(charge_in),
                first,
                second,
                charge_in,
            );
            lemma_not_better_trans(self.candidate(first, second, charge_in), local, next);
            self.lemma_seek_all_ok(from + 1, charge_in, next);
            lemma_not_better_trans(
                self.candidate(first, second, charge_in),
                next,
                self.spec_seek_all(from + 1, charge_in, next),
            );
        } else {
            self.lemma_seek_all_cover(from + 1, next, first, second, charge_in);
        }
    }

    /// No schedule that the search can form, of one cycle or of two, is
    /// better than the best of the search: none is cheaper, and none costs
    /// the same with fewer blocks.
    pub proof fn best_is_optimal(&self, first: Cycle, second: Option<Cycle>, charge_in: int)
        requires
            self.wf(),
            -CHARGE_MAX <= charge_in <= CHARGE_MAX,
            self.is_candidate(first, second, charge_in),
        ensures
            !better(self.candidate(first, second, charge_in), self.spec_seek_best(charge_in)),
            self.candidate(first, second, charge_in).total_cost >= self.spec_seek_best(
                charge_in,
            ).total_cost,
    {
        self.lemma_baseline_ok(charge_in);
        self.lemma_seek_all_cover(0, self.spec_baseline(charge_in), first, second, charge_in);
    }
}

impl HorizonModel {
    /// `whole` is the baseline or a schedule that the search can form.
    pub open spec fn reachable(&self, whole: CollectionModel, charge_in: int) -> bool {
        whole == self.spec_baseline(charge_in) || exists|first: Cycle, second: Option<Cycle>|
            #[trigger] self.is_candidate(first, second, charge_in) && whole == self.candidate(
                first,
                second,
                charge_in,
            )
    }

    /// Trying the starts of the second use keeps the baseline or a
    /// schedule that the search can form.
    pub proof fn lemma_second_uses_reach(
        &self,
        one: Cycle,
        start: int,
        level: int,
        from: int,
        best: CollectionModel,
        charge_in: int,
    )
        requires
            self.wf(),
            -CHARGE_MAX <= charge_in <= CHARGE_MAX,
            self.cycle_fits(one, 0, charge_in),
            one.use_end <= start < self.quarters(),
            is_level(level),
            self.spec_seek_charge(
                one.use_end,
                start,
                level,
                self.cycle_part(one, 0, charge_in).next_charge_in,
            ).next_start <= from,
            self.reachable(best, charge_in),
        ensures
            self.reachable(
                self.spec_second_uses(
                    self.cycle_part(one, 0, charge_in),
                    self.spec_seek_charge(
                        one.use_end,
                        start,
                        level,
                        self.cycle_part(one, 0, charge_in).next_charge_in,
                    ),
                    from,
                    best,
                ),
                charge_in,
            ),
        decreases self.quarters() - from,
    {
        if from < self.quarters() {
            let first = self.cycle_part(one, 0, charge_in);
            self.lemma_cycle_part_ok(one, 0, charge_in);
            let two = Cycle { charge_start: start, level, use_start: from, use_end: self.quarters() };
            assert(self.is_candidate(one, Some(two), charge_in));
            let charge = self.cycle_charge(two, first.next_start, first.next_charge_in);
            let joined = spec_combine(first, self.cycle_part(two, first.next_start, first.next_charge_in));
            assert(self.spec_complete(joined) == self.candidate(one, Some(two), charge_in));
            let next = self.spec_record_best(joined, best);
            assert(self.reachable(next, charge_in));
            self.lemma_second_uses_reach(one, start, level, from + 1, next, charge_in);
        }
    }

    /// Trying the targets of the second charge keeps the baseline or a
    /// schedule that the search can form.
    pub proof fn lemma_second_levels_reach(
        &self,
        one: Cycle,
        start: int,
        level: int,
        best: CollectionModel,
        charge_in: int,
    )
        requires
            self.wf(),
            -CHARGE_MAX <= charge_in <= CHARGE_MAX,
            self.cycle_fits(one, 0, charge_in),
            one.use_end <= start < self.quarters(),
            0 <= level,
            level % (SOC_STEP as int) == 0,
            self.reachable(best, charge_in),
        ensures
            self.reachable(
                self.spec_second_levels(self.cycle_part(one, 0, charge_in), start, level, best),
                charge_in,
            ),
        decreases MAX_TARGET + SOC_STEP - level,
    {
        if level <= MAX_TARGET {
            let first = self.cycle_part(one, 0, charge_in);
            self.lemma_cycle_part_ok(one, 0, charge_in);
            let charge = self.spec_seek_charge(first.next_start, start, level, first.next_charge_in);
            self.lemma_second_uses_reach(one, start, level, charge.next_start, best, charge_in);
            let next = self.spec_second_uses(first, charge, charge.next_start, best);
            self.lemma_second_levels_reach(one, start, level + SOC_STEP, next, charge_in);
        }
    }

    /// Trying the starts of the second charge keeps the baseline or a
    /// schedule that the search can form.
    pub proof fn lemma_second_charges_reach(&self, one: Cycle, from: int, best: CollectionModel, charge_in: int)
        requires
            self.wf(),
            -CHARGE_MAX <= charge_in <= CHARGE_MAX,
            self.cycle_fits(one, 0, charge_in),
            one.use_end <= from,
            self.reachable(best, charge_in),
        ensures
            self.reachable(
                self.spec_second_charges(self.cycle_part(one, 0, charge_in), from, best),
                charge_in,
            ),
        decreases self.quarters() - from,
    {
        if from < self.quarters() {
            let first = self.cycle_part(one, 0, charge_in);
            self.lemma_second_levels_reach(one, from, 0, best, charge_in);
            let next = self.spec_second_levels(first, from, 0, best);
            self.lemma_second_charges_reach(one, from + 1, next, charge_in);
        }
    }

    /// Trying the ends of the first use keeps the baseline or a schedule
    /// that the search can form.
    pub proof fn lemma_first_use_ends_reach(
        &self,
        start: int,
        level: int,
        use_start: int,
        end: int,
        best: CollectionModel,
        charge_in: int,
    )
        requires
            self.wf(),
            -CHARGE_MAX <= charge_in <= CHARGE_MAX,
            0 <= start < self.quarters(),
            is_level(level),
            self.spec_seek_charge(0, start, level, charge_in).next_start <= use_start
                < self.quarters(),
            use_start <= end,
            self.reachable(best, charge_in),
        ensures
            self.reachable(
                self.spec_first_use_ends(
                    self.spec_seek_charge(0, start, level, charge_in),
                    use_start,
                    end,
                    best,
                ),
                charge_in,
            ),
        decreases self.quarters() + 1 - end,
    {
        if end <= self.quarters() {
            let charge = self.spec_seek_charge(0, start, level, charge_in);
            if end == use_start {
                self.lemma_first_use_ends_reach(start, level, use_start, end + 1, best, charge_in);
            } else {
                let one = Cycle { charge_start: start, level, use_start, use_end: end };
                assert(self.is_candidate(one, None, charge_in));
                self.lemma_cycle_part_ok(one, 0, charge_in);
                let first = self.cycle_part(one, 0, charge_in);
                assert(self.spec_complete(first) == self.candidate(one, None, charge_in));
                let recorded = self.spec_record_best(first, best);
                assert(self.reachable(recorded, charge_in));
                self.lemma_second_charges_reach(one, first.next_start, recorded, charge_in);
                let next = self.spec_second_charges(first, first.next_start, recorded);
                self.lemma_first_use_ends_reach(start, level, use_start, end + 1, next, charge_in);
            }
        }
    }

    /// Trying the starts of the first use keeps the baseline or a
    /// schedule that the search can form.
    pub proof fn lemma_first_uses_reach(
        &self,
        start: int,
        level: int,
        from: int,
        best: CollectionModel,
        charge_in: int,
    )
        requires
            self.wf(),
            -CHARGE_MAX <= charge_in <= CHARGE_MAX,
            0 <= start < self.quarters(),
            is_level(level),
            self.spec_seek_charge(0, start, level, charge_in).next_start <= from,
            self.reachable(best, charge_in),
        ensures
            self.reachable(
                self.spec_first_uses(self.spec_seek_charge(0, start, level, charge_in), from, best),
                charge_in,
            ),
        decreases self.quarters() - from,
    {
        if from < self.quarters() {
            let charge = self.spec_seek_charge(0, start, level, charge_in);
            self.lemma_first_use_ends_reach(start, level, from, from, best, charge_in);
            let next = self.spec_first_use_ends(charge, from, from, best);
            self.lemma_first_uses_reach(start, level, from + 1, next, charge_in);
        }
    }

    /// Trying the targets of the first charge keeps the baseline or a
    /// schedule that the search can form.
    pub proof fn lemma_first_levels_reach(&self, start: int, level: int, best: CollectionModel, charge_in: int)
        requires
            self.wf(),
            -CHARGE_MAX <= charge_in <= CHARGE_MAX,
            0 <= start < self.quarters(),
            0 <= level,
            level % (SOC_STEP as int) == 0,
            self.reachable(best, charge_in),
        ensures
            self.reachable(self.spec_first_levels(start, level, charge_in, best), charge_in),
        decreases MAX_TARGET + SOC_STEP - level,
    {
        if level <= MAX_TARGET {
            let charge = self.spec_seek_charge(0, start, level, charge_in);
            self.lemma_first_uses_reach(start, level, charge.next_start, best, charge_in);
            let next = self.spec_first_uses(charge, charge.next_start, best);
            self.lemma_first_levels_reach(start, level + SOC_STEP, next, charge_in);
        }
    }

    /// Comparing the results for the starts of the first charge keeps
    /// the baseline or a schedule that the search can form.
    pub proof fn lemma_seek_all_reach(&self, from: int, best: CollectionModel, charge_in: int)
        requires
            self.wf(),
            -CHARGE_MAX <= charge_in <= CHARGE_MAX,
            0 <= from,
            self.reachable(best, charge_in),
        ensures
            self.reachable(self.spec_seek_all(from, charge_in, best), charge_in),
        decreases self.quarters() - from,
    {
        if from < self.quarters() {
            self.lemma_first_levels_reach(from, 0, self.spec_baseline(charge_in), charge_in);
            let next = pick(self.spec_seek_from(from, charge_in), best);
            self.lemma_seek_all_reach(from + 1, next, charge_in);
        }
    }

    /// The best of the search is the baseline or a schedule that the
    /// search can form; together with `best_is_optimal`: it is a best one
    /// among them.
    pub proof fn best_is_baseline_or_candidate(&self, charge_in: int)
        requires
            self.wf(),
            -CHARGE_MAX <= charge_in <= CHARGE_MAX,
        ensures
            self.reachable(self.spec_seek_best(charge_in), charge_in),
    {
        self.lemma_seek_all_reach(0, self.spec_baseline(charge_in), charge_in);
    }
}

} // verus!
