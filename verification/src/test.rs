//! Sanity tests of the profiler: what a test is, and which of the tests a
//! run of them leaves out.
//!
//! Tests are known by their position in the list, written in decimal. A run
//! is told either which tests to skip or which alone to run, as numbers
//! separated by commas.

use crate::text::{decimal, decimal_string, split, split_commas, texts};
use vstd::prelude::*;

verus! {

/// How a run of the tests reports.
#[derive(Debug, Copy, Clone, PartialEq, Eq, Structural)]
pub struct RunSettings {
    pub verbose: bool,
    pub json: bool,
}

/// How one test ended.
#[derive(Debug, Clone)]
pub enum TestResult {
    Passed,
    Failed(String),
    Skipped,
}

/// One test. `call` runs it; what kind of thing runs a test is up to the
/// program that keeps the tests.
pub struct Test<F> {
    pub name: String,
    pub description: String,
    pub call: F,
    pub subtests: Vec<Test<F>>,
    pub is_subtest: bool,
}

/// What a request to test comes to.
#[derive(Debug)]
pub enum TestPlan {
    /// List the tests and run none.
    List,
    /// Run the tests but those named in `to_skip`, and report as `settings`
    /// say.
    Run { to_skip: Vec<String>, settings: RunSettings },
}

/// The names of the first `count` tests: their positions, in decimal.
pub open spec fn numerals(count: nat) -> Seq<Seq<char>> {
    Seq::new(count, |i: int| decimal(i as nat))
}

/// The test of a name that holds where `named` does not hold the name.
pub open spec fn not_among(named: Seq<Seq<char>>) -> spec_fn(Seq<char>) -> bool {
    |name: Seq<char>| !named.contains(name)
}

/// The names to skip among `count` tests. Where `only` names tests, all
/// others are skipped and `skip` counts for nothing; else the names in
/// `skip` are skipped as they stand. Names are compared letter for letter:
/// `01` does not name the test `1`.
pub open spec fn skip_list(skip: Seq<char>, only: Seq<char>, count: nat) -> Seq<Seq<char>> {
    if only.len() > 0 {
        numerals(count).filter(not_among(split(only, ',')))
    } else if skip.len() > 0 {
        split(skip, ',')
    } else {
        Seq::<Seq<char>>::empty()
    }
}

/// Whether `list` holds a string equal to `wanted`.
fn holds_text(list: &Vec<String>, wanted: &String) -> (found: bool)
    ensures
        found == texts(list@).contains(wanted@),
{
    let mut i: usize = 0;
    while i < list.len()
        invariant
            i <= list.len(),
            forall|j: int| 0 <= j < i ==> texts(list@)[j] != wanted@,
        decreases list.len() - i,
    {
        if list[i] == *wanted {
            assert(texts(list@)[i as int] == wanted@);
            return true;
        }
        i = i + 1;
    }
    false
}

/// The names of all of `count` tests but those in `named`.
fn all_but(count: usize, named: &Vec<String>) -> (rest: Vec<String>)
    ensures
        texts(rest@) == numerals(count as nat).filter(not_among(texts(named@))),
{
    let ghost keep = not_among(texts(named@));
    let mut rest: Vec<String> = Vec::new();
    let mut i: usize = 0;
    assert(numerals(0) =~= Seq::<Seq<char>>::empty());
    assert(numerals(0).filter(keep) =~= Seq::<Seq<char>>::empty()) by {
        numerals(0).lemma_filter_len(keep);
    }
    assert(texts(rest@) =~= numerals(0).filter(keep));
    while i < count
        invariant
            i <= count,
            keep == not_among(texts(named@)),
            texts(rest@) == numerals(i as nat).filter(keep),
        decreases count - i,
    {
        let numeral = decimal_string(i as u128);
        proof {
            assert(numerals((i + 1) as nat) =~= numerals(i as nat).push(numeral@));
            numerals(i as nat).lemma_filter_push(numeral@, keep);
        }
        if !holds_text(named, &numeral) {
            let ghost before = rest@;
            rest.push(numeral);
            assert(texts(rest@) =~= texts(before).push(numeral@));
        }
        i = i + 1;
    }
    rest
}

/// Decides what a request to test comes to, for the tests in `tests`.
///
/// With `should_list` the tests are listed and nothing else counts. Else
/// the tests are run: verbosely if `verbose` or `json` says so, skipping
/// the tests that `skip` names, or, where `to_run` names any, all tests but
/// those.
pub fn run_test<F>(
    tests: &Vec<Test<F>>,
    verbose: bool,
    should_list: bool,
    json: bool,
    skip: String,
    to_run: String,
) -> (plan: TestPlan)
    ensures
        should_list <==> plan is List,
        plan matches TestPlan::Run { to_skip, settings } ==> {
            &&& settings == (RunSettings { verbose: verbose || json, json })
            &&& texts(to_skip@) == skip_list(skip@, to_run@, tests@.len())
        },
{
    if should_list {
        return TestPlan::List;
    }
    let settings = RunSettings { verbose: verbose || json, json };
    let to_skip = if !to_run.as_str().is_empty() {
        let named = split_commas(to_run.as_str());
        all_but(tests.len(), &named)
    } else if !skip.as_str().is_empty() {
        split_commas(skip.as_str())
    } else {
        let none: Vec<String> = Vec::new();
        assert(texts(none@) =~= Seq::<Seq<char>>::empty());
        none
    };
    TestPlan::Run { to_skip, settings }
}

} // verus!
