use std::cmp::Ordering;
use vstd::prelude::*;

verus! {

/// How a single ordering comparison of a [`BadType`] behaves.
#[derive(Clone, Copy, Debug, PartialEq, Eq, Structural)]
pub enum OrdBehavior {
    /// The natural order of the two values.
    Regular,
    /// The natural order, reversed for this one comparison.
    Flipped,
}

/// A value whose ordering is steered by a queue of directives.
///
/// Every ordering comparison with this value on the left pops the last
/// directive of `ord_behavior`; an empty queue behaves as `Regular`.
/// Equality looks at `value` alone and leaves the queue untouched.
#[derive(Clone, Debug)]
pub struct BadType {
    pub value: u64,
    pub ord_behavior: Vec<OrdBehavior>,
}

/// The order of two magnitudes as integers.
pub open spec fn natural_order(a: u64, b: u64) -> Ordering {
    if a < b {
        Ordering::Less
    } else if a == b {
        Ordering::Equal
    } else {
        Ordering::Greater
    }
}

pub open spec fn reversed(o: Ordering) -> Ordering {
    match o {
        Ordering::Less => Ordering::Greater,
        Ordering::Equal => Ordering::Equal,
        Ordering::Greater => Ordering::Less,
    }
}

/// The directive that the next comparison of a value holding `queue` applies.
pub open spec fn next_directive(queue: Seq<OrdBehavior>) -> OrdBehavior {
    if queue.len() == 0 {
        OrdBehavior::Regular
    } else {
        queue.last()
    }
}

/// What is left of `queue` after one comparison.
pub open spec fn consumed(queue: Seq<OrdBehavior>) -> Seq<OrdBehavior> {
    if queue.len() == 0 {
        queue
    } else {
        queue.drop_last()
    }
}

/// The result of comparing a value of magnitude `a` holding `queue` with one of
/// magnitude `b`.
pub open spec fn compare_spec(queue: Seq<OrdBehavior>, a: u64, b: u64) -> Ordering {
    match next_directive(queue) {
        OrdBehavior::Regular => natural_order(a, b),
        OrdBehavior::Flipped => reversed(natural_order(a, b)),
    }
}

/// Whether a comparison under `queue` reports `a <= b`.
pub open spec fn le_spec(queue: Seq<OrdBehavior>, a: u64, b: u64) -> bool {
    compare_spec(queue, a, b) != Ordering::Greater
}

/// The queue after `k` comparisons.
pub open spec fn consumed_n(queue: Seq<OrdBehavior>, k: nat) -> Seq<OrdBehavior>
    decreases k,
{
    if k == 0 {
        queue
    } else {
        consumed(consumed_n(queue, (k - 1) as nat))
    }
}

impl BadType {
    /// A value of magnitude `value` whose successive comparisons apply
    /// `directives` in the order given.
    pub fn new(value: u64, directives: Vec<OrdBehavior>) -> (r: BadType)
        ensures
            r.value == value,
            r.ord_behavior@ == directives@.reverse(),
    {
        let ghost given = directives@;
        let mut rest = directives;
        let mut queue: Vec<OrdBehavior> = Vec::new();
        while rest.len() > 0
            invariant
                rest@ == given.subrange(0, rest@.len() as int),
                queue@.len() + rest@.len() == given.len(),
                forall|i: int|
                    0 <= i < queue@.len() ==> #[trigger] queue@[i] == given[given.len() - 1 - i],
            decreases rest.len(),
        {
            let d = rest.pop().unwrap();
            queue.push(d);
        }
        assert(queue@ =~= given.reverse());
        BadType { value, ord_behavior: queue }
    }

    /// Three-way comparison; pops one directive from this value's queue.
    pub fn cmp(&mut self, other: &BadType) -> (r: Ordering)
        ensures
            r == compare_spec(old(self).ord_behavior@, old(self).value, other.value),
            final(self).value == old(self).value,
            final(self).ord_behavior@ == consumed(old(self).ord_behavior@),
    {
        let natural = if self.value < other.value {
            Ordering::Less
        } else if self.value == other.value {
            Ordering::Equal
        } else {
            Ordering::Greater
        };
        match self.ord_behavior.pop() {
            Some(OrdBehavior::Flipped) => match natural {
                Ordering::Less => Ordering::Greater,
                Ordering::Equal => Ordering::Equal,
                Ordering::Greater => Ordering::Less,
            },
            _ => natural,
        }
    }

    /// Partial comparison; always defined, and consumes like [`BadType::cmp`].
    pub fn partial_cmp(&mut self, other: &BadType) -> (r: Option<Ordering>)
        ensures
            r == Some(compare_spec(old(self).ord_behavior@, old(self).value, other.value)),
            final(self).value == old(self).value,
            final(self).ord_behavior@ == consumed(old(self).ord_behavior@),
    {
        Some(self.cmp(other))
    }

    /// `self <= other`, decided by one consuming comparison.
    pub fn le(&mut self, other: &BadType) -> (r: bool)
        ensures
            r == le_spec(old(self).ord_behavior@, old(self).value, other.value),
            final(self).value == old(self).value,
            final(self).ord_behavior@ == consumed(old(self).ord_behavior@),
    {
        match self.partial_cmp(other) {
            Some(Ordering::Less) | Some(Ordering::Equal) => true,
            _ => false,
        }
    }
}

impl PartialEq for BadType {
    /// Equal magnitudes; no directive is consumed.
    fn eq(&self, other: &BadType) -> (r: bool) {
        self.value == other.value
    }
}

impl vstd::std_specs::cmp::PartialEqSpecImpl for BadType {
    open spec fn obeys_eq_spec() -> bool {
        true
    }

    open spec fn eq_spec(&self, other: &BadType) -> bool {
        self.value == other.value
    }
}

impl Eq for BadType {

}

/// Comparisons against a value built from `directives` apply them in the
/// order in which they were listed: the `k`-th comparison applies
/// `directives[k]`.
pub proof fn lemma_consumption_order(directives: Seq<OrdBehavior>, k: nat)
    requires
        k < directives.len(),
    ensures
        consumed_n(directives.reverse(), k) == directives.subrange(k as int, directives.len() as int).reverse(),
        next_directive(consumed_n(directives.reverse(), k)) == directives[k as int],
    decreases k,
{
    let tail = directives.subrange(k as int, directives.len() as int);
    if k > 0 {
        lemma_consumption_order(directives, (k - 1) as nat);
        let prev = directives.subrange(k - 1, directives.len() as int);
        assert(prev.reverse().drop_last() =~= tail.reverse());
    } else {
        assert(tail =~= directives);
    }
}

/// Completes a pair whose second element is generated after, and above, the
/// first: its magnitude is `first.value + offset`.
pub fn dependent_pair(first: BadType, offset: u64, directives: Vec<OrdBehavior>) -> (r: (
    BadType,
    BadType,
))
    requires
        1 <= offset,
        first.value + offset <= u64::MAX,
    ensures
        r.0 == first,
        r.1.value == first.value + offset,
        r.1.ord_behavior@ == directives@.reverse(),
        r.1.value > r.0.value,
{
    let value = first.value + offset;
    (first, BadType::new(value, directives))
}

/// Extends a dependent pair by a third element of magnitude
/// `pair.1.value + offset`.
pub fn dependent_triple(pair: (BadType, BadType), offset: u64, directives: Vec<OrdBehavior>) -> (r: (
    BadType,
    BadType,
    BadType,
))
    requires
        1 <= offset,
        pair.1.value + offset <= u64::MAX,
    ensures
        r.0 == pair.0,
        r.1 == pair.1,
        r.2.value == pair.1.value + offset,
        r.2.ord_behavior@ == directives@.reverse(),
        r.2.value > r.1.value,
{
    let (first, second) = pair;
    let value = second.value + offset;
    (first, second, BadType::new(value, directives))
}

/// Turns two independently generated values into a pair ordered by
/// magnitude, by raising the second by the first.
pub fn independent_pair(first: BadType, second: BadType) -> (r: (BadType, BadType))
    requires
        first.value + second.value <= u64::MAX,
    ensures
        r.0 == first,
        r.1.value == first.value + second.value,
        r.1.ord_behavior == second.ord_behavior,
        r.1.value >= r.0.value,
{
    let mut second = second;
    second.value = second.value + first.value;
    (first, second)
}

/// Turns three independently generated values into a triple ordered by
/// magnitude, by raising each by the one before it once that one is raised.
pub fn independent_triple(first: BadType, second: BadType, third: BadType) -> (r: (
    BadType,
    BadType,
    BadType,
))
    requires
        first.value + second.value + third.value <= u64::MAX,
    ensures
        r.0 == first,
        r.1.value == first.value + second.value,
        r.1.ord_behavior == second.ord_behavior,
        r.2.value == first.value + second.value + third.value,
        r.2.ord_behavior == third.ord_behavior,
        r.0.value <= r.1.value <= r.2.value,
{
    let mut second = second;
    let mut third = third;
    second.value = second.value + first.value;
    third.value = third.value + second.value;
    (first, second, third)
}

} // verus!
