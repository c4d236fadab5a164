//! The population of the stand-in server.

use vstd::prelude::*;

verus! {

/// How many records of each kind the stand-in server starts with. Test
/// cases, test sets and test suites are counted for each job.
#[derive(Clone, Copy, Debug, PartialEq, Eq, Structural)]
pub struct PopulationParams {
    pub aliases: usize,
    pub architectures: usize,
    pub bit_widths: usize,
    pub cores: usize,
    pub devices: usize,
    pub device_types: usize,
    pub groups: usize,
    pub jobs: usize,
    pub processor_families: usize,
    pub tags: usize,
    pub test_cases: usize,
    pub test_sets: usize,
    pub test_suites: usize,
    pub users: usize,
    pub workers: usize,
}

impl PopulationParams {
    /// The default population.
    pub fn new() -> (population: Self)
        ensures
            population == (PopulationParams {
                aliases: 10,
                architectures: 5,
                bit_widths: 2,
                cores: 3,
                devices: 50,
                device_types: 10,
                groups: 3,
                jobs: 200,
                processor_families: 3,
                tags: 5,
                test_cases: 5,
                test_sets: 2,
                test_suites: 3,
                users: 5,
                workers: 10,
            }),
    {
        PopulationParams {
            aliases: 10,
            architectures: 5,
            bit_widths: 2,
            cores: 3,
            devices: 50,
            device_types: 10,
            groups: 3,
            jobs: 200,
            processor_families: 3,
            tags: 5,
            test_cases: 5,
            test_sets: 2,
            test_suites: 3,
            users: 5,
            workers: 10,
        }
    }
}

impl Default for PopulationParams {
    fn default() -> (population: Self)
        ensures
            population == (PopulationParams {
                aliases: 10,
                architectures: 5,
                bit_widths: 2,
                cores: 3,
                devices: 50,
                device_types: 10,
                groups: 3,
                jobs: 200,
                processor_families: 3,
                tags: 5,
                test_cases: 5,
                test_sets: 2,
                test_suites: 3,
                users: 5,
                workers: 10,
            }),
    {
        PopulationParams::new()
    }
}

/// Hands out one job to every test suite that is generated.
#[derive(Clone, Copy, Debug, PartialEq, Eq, Structural)]
pub struct JobGenerator {
    pub job: Option<i64>,
}

impl JobGenerator {
    /// A generator for the suites of `job`.
    pub fn new(job: Option<i64>) -> (generator: Self)
        ensures
            generator.job == job,
    {
        Self { job }
    }

    /// The job of the next suite.
    pub fn generate(&self) -> (job: i64)
        requires
            self.job is Some,
        ensures
            Some(job) == self.job,
    {
        self.job.unwrap()
    }
}

/// Hands out the suites of a job in turn, round and round.
#[derive(Debug)]
pub struct SuiteGenerator {
    suite: usize,
    suites: Vec<i64>,
}

/// What a [`SuiteGenerator`] stands for.
pub struct SuiteGeneratorView {
    /// The place of the suite in turn.
    pub suite: int,
    pub suites: Seq<i64>,
}

impl View for SuiteGenerator {
    type V = SuiteGeneratorView;

    closed spec fn view(&self) -> SuiteGeneratorView {
        SuiteGeneratorView { suite: self.suite as int, suites: self.suites@ }
    }
}

impl SuiteGenerator {
    #[verifier::type_invariant]
    spec fn in_range(&self) -> bool {
        self.suites@.len() > 0 ==> self.suite < self.suites@.len()
    }

    /// A generator that starts with the first of `suites`.
    pub fn new(suites: Vec<i64>) -> (generator: Self)
        ensures
            generator@ == (SuiteGeneratorView { suite: 0, suites: suites@ }),
    {
        SuiteGenerator { suite: 0, suites }
    }

    /// The suite in turn; the turn passes to the one after it, and from
    /// the last to the first.
    pub fn generate(&mut self) -> (suite: i64)
        requires
            old(self)@.suites.len() > 0,
        ensures
            suite == old(self)@.suites[old(self)@.suite],
            final(self)@.suites == old(self)@.suites,
            final(self)@.suite == (old(self)@.suite + 1) % (old(self)@.suites.len() as int),
            0 <= old(self)@.suite < old(self)@.suites.len(),
    {
        proof {
            use_type_invariant(&*self);
        }
        let count = self.suites.len();
        let suite = self.suites[self.suite];
        self.suite = (self.suite + 1) % count;
        suite
    }
}

/// A test set: its id, and the suite that it belongs to.
#[derive(Clone, Copy, Debug, PartialEq, Eq, Structural)]
pub struct TestSet {
    pub id: i64,
    pub suite: i64,
}

/// How many sets have to be passed over, from the set at `start` on and
/// going round, to come to one of `suite`; `None` where no set belongs to
/// it. `tried` counts the sets that are passed over already.
pub open spec fn first_of_suite(sets: Seq<TestSet>, suite: i64, start: int, tried: int) -> Option<
    int,
>
    decreases sets.len() - tried,
{
    if tried >= sets.len() {
        None
    } else if sets[(start + tried) % (sets.len() as int)].suite == suite {
        Some(tried)
    } else {
        first_of_suite(sets, suite, start, tried + 1)
    }
}

/// Hands out, for each test case, a test set of the suite that the case
/// goes to: the suites take turns, and within a suite its sets do.
#[derive(Debug)]
pub struct SetGenerator {
    suite: usize,
    set: usize,
    suites: Vec<i64>,
    sets: Vec<TestSet>,
}

/// What a [`SetGenerator`] stands for.
pub struct SetGeneratorView {
    /// The place of the suite in turn.
    pub suite: int,
    /// The place of the set at which the search starts.
    pub set: int,
    pub suites: Seq<i64>,
    pub sets: Seq<TestSet>,
}

impl View for SetGenerator {
    type V = SetGeneratorView;

    closed spec fn view(&self) -> SetGeneratorView {
        SetGeneratorView {
            suite: self.suite as int,
            set: self.set as int,
            suites: self.suites@,
            sets: self.sets@,
        }
    }
}

/// What a [`SetGenerator`] does in one turn: `before` and `after` are its
/// states, `set` is the id that it hands out. Without suites or without
/// sets nothing happens. Else the suite in turn is looked for among the
/// sets, from the set in turn on and going round; the first set of that
/// suite is handed out, and the search will go on behind it.
pub open spec fn generates(
    before: SetGeneratorView,
    after: SetGeneratorView,
    set: Option<i64>,
) -> bool {
    &&& after.suites == before.suites
    &&& after.sets == before.sets
    &&& if before.suites.len() == 0 || before.sets.len() == 0 {
        &&& set is None
        &&& after.suite == before.suite
        &&& after.set == before.set
    } else {
        let count = before.sets.len() as int;
        &&& after.suite == (before.suite + 1) % (before.suites.len() as int)
        &&& match first_of_suite(before.sets, before.suites[before.suite], before.set, 0) {
            Some(passed) => {
                &&& set == Some(before.sets[(before.set + passed) % count].id)
                &&& after.set == (before.set + passed + 1) % count
            },
            None => set is None && after.set == before.set,
        }
    }
}

impl SetGenerator {
    #[verifier::type_invariant]
    spec fn in_range(&self) -> bool {
        &&& self.suites@.len() > 0 ==> self.suite < self.suites@.len()
        &&& self.sets@.len() > 0 ==> self.set < self.sets@.len()
    }

    /// A generator that starts with the first suite and the first set.
    pub fn new(suites: Vec<i64>, sets: Vec<TestSet>) -> (generator: Self)
        ensures
            generator@ == (SetGeneratorView { suite: 0, set: 0, suites: suites@, sets: sets@ }),
    {
        SetGenerator { suite: 0, set: 0, suites, sets }
    }

    /// The test set for the next test case, if the suite in turn has one.
    pub fn generate(&mut self) -> (set: Option<i64>)
        ensures
            generates(old(self)@, final(self)@, set),
    {
        proof {
            use_type_invariant(&*self);
        }
        if self.suites.len() == 0 || self.sets.len() == 0 {
            return None;
        }
        let turns = self.suites.len();
        let suite = self.suites[self.suite];
        self.suite = (self.suite + 1) % turns;
        let size = self.sets.len();
        let ghost start = self.set as int;
        let ghost count = size as int;
        let mut attempts: usize = 0;
        proof {
            lemma_small(start, count);
        }
        loop
            invariant
                self.suites@ == old(self)@.suites,
                self.sets@ == old(self)@.sets,
                old(self)@.suites.len() > 0,
                0 <= old(self)@.suite < old(self)@.suites.len(),
                suite == old(self)@.suites[old(self)@.suite],
                self.sets@.len() > 0,
                size == self.sets@.len(),
                count == size,
                start == old(self)@.set,
                0 <= start < count,
                self.suite as int == (old(self)@.suite + 1) % (old(self)@.suites.len() as int),
                self.suite < self.suites@.len(),
                attempts < self.sets@.len(),
                self.set as int == (start + attempts) % count,
                first_of_suite(self.sets@, suite, start, attempts as int) == first_of_suite(
                    self.sets@,
                    suite,
                    start,
                    0,
                ),
            decreases self.sets@.len() - attempts,
        {
            let set = self.sets[self.set];
            let ghost passed = attempts as int;
            proof {
                lemma_next_place(start, passed, count);
                assert(first_of_suite(self.sets@, suite, start, passed) == if set.suite == suite {
                    Some(passed)
                } else {
                    first_of_suite(self.sets@, suite, start, passed + 1)
                });
            }
            self.set = (self.set + 1) % size;
            attempts += 1;
            if set.suite == suite {
                return Some(set.id);
            }
            if attempts == size {
                proof {
                    lemma_full_round(start, count);
                    assert(first_of_suite(self.sets@, suite, start, count) is None);
                }
                return None;
            }
        }
    }
}

/// A place within the round is its own remainder.
proof fn lemma_small(place: int, count: int)
    requires
        0 <= place < count,
    ensures
        place % count == place,
{
    vstd::arithmetic::div_mod::lemma_small_mod(place as nat, count as nat);
}

/// One step on from the place that is `passed` behind `start` is the place
/// that is `passed + 1` behind it.
proof fn lemma_next_place(start: int, passed: int, count: int)
    requires
        0 <= start < count,
        0 <= passed < count,
    ensures
        ((start + passed) % count + 1) % count == (start + passed + 1) % count,
{
    vstd::arithmetic::div_mod::lemma_add_mod_noop(start + passed, 1, count);
    vstd::arithmetic::div_mod::lemma_mod_bound(start + passed, count);
    if count == 1 {
        vstd::arithmetic::div_mod::lemma_mod_bound((start + passed) % count + 1, count);
        vstd::arithmetic::div_mod::lemma_mod_bound(start + passed + 1, count);
    } else {
        lemma_small(1, count);
    }
}

/// A full round ends where it began.
proof fn lemma_full_round(start: int, count: int)
    requires
        0 <= start < count,
    ensures
        (start + count) % count == start,
{
    vstd::arithmetic::div_mod::lemma_mod_add_multiples_vanish(start, count);
    lemma_small(start, count);
}

} // verus!
