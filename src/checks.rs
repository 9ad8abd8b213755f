use crate::bad_type::{le_spec, BadType};
use crate::text::{decimal, push_decimal};
use vstd::prelude::*;
use vstd::string::*;

verus! {

/// The outcome of running a property on one input.
#[derive(Clone, Debug, PartialEq, Eq)]
pub enum TestOutcome {
    /// The property holds of the input.
    Pass,
    /// The property declined to judge the input.
    Reject(String),
    /// The property is violated, or its run broke down.
    Fail(String),
}

/// Whether `first <= second` is reported for a pair checked afresh.
pub open spec fn pair_holds(p: (BadType, BadType)) -> bool {
    le_spec(p.0.ord_behavior@, p.0.value, p.1.value)
}

/// Whether `first <= second` is reported for a triple checked afresh.
pub open spec fn triple_first_holds(t: (BadType, BadType, BadType)) -> bool {
    le_spec(t.0.ord_behavior@, t.0.value, t.1.value)
}

/// Whether `second <= third` is reported for a triple checked afresh.
pub open spec fn triple_second_holds(t: (BadType, BadType, BadType)) -> bool {
    le_spec(t.1.ord_behavior@, t.1.value, t.2.value)
}

pub open spec fn triple_holds(t: (BadType, BadType, BadType)) -> bool {
    triple_first_holds(t) && triple_second_holds(t)
}

pub open spec fn first_le_second_message(i: nat) -> Seq<char> {
    "assertion failed: first <= second in tuple "@ + decimal(i)
}

pub open spec fn second_le_third_message(i: nat) -> Seq<char> {
    "assertion failed: second <= third in tuple "@ + decimal(i)
}

/// Checks that every pair reports `first <= second`, stopping at the first
/// pair that does not.
pub fn test_bad_type_pair(input: Vec<(BadType, BadType)>) -> (r: TestOutcome)
    ensures
        match r {
            TestOutcome::Pass => forall|i: int| 0 <= i < input@.len() ==> pair_holds(#[trigger] input@[i]),
            TestOutcome::Fail(m) => exists|i: int|
                0 <= i < input@.len() && !pair_holds(#[trigger] input@[i]) && (forall|j: int|
                    0 <= j < i ==> pair_holds(#[trigger] input@[j])) && m@ == first_le_second_message(
                    i as nat,
                ),
            TestOutcome::Reject(_) => false,
        },
{
    let ghost all = input@;
    let total = input.len();
    let mut rest = input;
    let mut i: usize = 0;
    while rest.len() > 0
        invariant
            0 <= i <= all.len(),
            all.len() == total,
            all == input@,
            rest@ == all.subrange(i as int, all.len() as int),
            forall|j: int| 0 <= j < i ==> pair_holds(#[trigger] all[j]),
        decreases rest.len(),
    {
        let (mut first, second) = rest.remove(0);
        assert(all[i as int] == (first, second));
        if !first.le(&second) {
            let mut m = String::new();
            m.append("assertion failed: first <= second in tuple ");
            push_decimal(&mut m, i as u128);
            assert(m@ =~= first_le_second_message(i as nat));
            assert(!pair_holds(all[i as int]));
            assert(exists|k: int|
                0 <= k < input@.len() && !pair_holds(#[trigger] input@[k]) && (forall|j: int|
                    0 <= j < k ==> pair_holds(#[trigger] input@[j])) && m@ == first_le_second_message(
                    k as nat,
                ));
            return TestOutcome::Fail(m);
        }
        i = i + 1;
    }
    TestOutcome::Pass
}

/// Checks that every triple reports `first <= second` and then
/// `second <= third`, stopping at the first comparison that fails.
pub fn test_bad_type_triple(input: Vec<(BadType, BadType, BadType)>) -> (r: TestOutcome)
    ensures
        match r {
            TestOutcome::Pass => forall|i: int|
                0 <= i < input@.len() ==> triple_holds(#[trigger] input@[i]),
            TestOutcome::Fail(m) => exists|i: int|
                0 <= i < input@.len() && !triple_holds(#[trigger] input@[i]) && (forall|j: int|
                    0 <= j < i ==> triple_holds(#[trigger] input@[j])) && m@ == if triple_first_holds(
                    input@[i],
                ) {
                    second_le_third_message(i as nat)
                } else {
                    first_le_second_message(i as nat)
                },
            TestOutcome::Reject(_) => false,
        },
{
    let ghost all = input@;
    let total = input.len();
    let mut rest = input;
    let mut i: usize = 0;
    while rest.len() > 0
        invariant
            0 <= i <= all.len(),
            all.len() == total,
            all == input@,
            rest@ == all.subrange(i as int, all.len() as int),
            forall|j: int| 0 <= j < i ==> triple_holds(#[trigger] all[j]),
        decreases rest.len(),
    {
        let (mut first, mut second, third) = rest.remove(0);
        assert(all[i as int] == (first, second, third));
        if !first.le(&second) {
            let mut m = String::new();
            m.append("assertion failed: first <= second in tuple ");
            push_decimal(&mut m, i as u128);
            assert(m@ =~= first_le_second_message(i as nat));
            assert(!triple_holds(all[i as int]) && !triple_first_holds(all[i as int]));
            assert(exists|k: int|
                0 <= k < input@.len() && !triple_holds(#[trigger] input@[k]) && (forall|j: int|
                    0 <= j < k ==> triple_holds(#[trigger] input@[j])) && m@ == if triple_first_holds(
                    input@[k],
                ) {
                    second_le_third_message(k as nat)
                } else {
                    first_le_second_message(k as nat)
                });
            return TestOutcome::Fail(m);
        }
        if !second.le(&third) {
            let mut m = String::new();
            m.append("assertion failed: second <= third in tuple ");
            push_decimal(&mut m, i as u128);
            assert(m@ =~= second_le_third_message(i as nat));
            assert(!triple_holds(all[i as int]) && triple_first_holds(all[i as int]));
            assert(exists|k: int|
                0 <= k < input@.len() && !triple_holds(#[trigger] input@[k]) && (forall|j: int|
                    0 <= j < k ==> triple_holds(#[trigger] input@[j])) && m@ == if triple_first_holds(
                    input@[k],
                ) {
                    second_le_third_message(k as nat)
                } else {
                    first_le_second_message(k as nat)
                });
            return TestOutcome::Fail(m);
        }
        i = i + 1;
    }
    TestOutcome::Pass
}

} // verus!
