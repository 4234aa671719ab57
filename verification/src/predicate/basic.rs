//! Predicates and how they combine.

use vstd::prelude::*;
use crate::predicate::field_predicate::FieldPredicate;

verus! {

/// A predicate on values of `T`.
#[non_exhaustive]
#[verifier::reject_recursive_types(T)]
pub enum BasicPredicate<T> {
    /// Passes every value.
    True,
    /// Passes no value.
    False,
    /// Asks about one field.
    Field(FieldPredicate<T>),
    /// Passes what every child passes; without children, every value.
    And(Vec<BasicPredicate<T>>),
    /// Passes what some child passes; without children, no value.
    Or(Vec<BasicPredicate<T>>),
    /// Passes what the child does not.
    Not(Box<BasicPredicate<T>>),
    /// Passes what exactly one child passes.
    Xor(Box<BasicPredicate<T>>, Box<BasicPredicate<T>>),
}

impl<T> BasicPredicate<T> {
    /// Whether `value` passes.
    pub open spec fn holds(&self, value: T) -> bool
        decreases self,
    {
        match self {
            BasicPredicate::True => true,
            BasicPredicate::False => false,
            BasicPredicate::Field(predicate) => predicate.holds(value),
            BasicPredicate::And(children) => forall|i: int|
                0 <= i < children@.len() ==> (#[trigger] children@[i]).holds(value),
            BasicPredicate::Or(children) => exists|i: int|
                0 <= i < children@.len() && (#[trigger] children@[i]).holds(value),
            BasicPredicate::Not(inner) => !inner.holds(value),
            BasicPredicate::Xor(a, b) => a.holds(value) != b.holds(value),
        }
    }

    /// The predicates that a conjunction joins: those of one, or a single one.
    pub open spec fn conjuncts(self) -> Seq<BasicPredicate<T>> {
        match self {
            BasicPredicate::And(children) => children@,
            other => seq![other],
        }
    }

    /// The predicates that a disjunction joins: those of one, or a single one.
    pub open spec fn disjuncts(self) -> Seq<BasicPredicate<T>> {
        match self {
            BasicPredicate::Or(children) => children@,
            other => seq![other],
        }
    }

    /// The negation: one that is there is taken off.
    pub open spec fn spec_negated(self) -> BasicPredicate<T> {
        match self {
            BasicPredicate::Not(inner) => *inner,
            BasicPredicate::True => BasicPredicate::False,
            BasicPredicate::False => BasicPredicate::True,
            other => BasicPredicate::Not(Box::new(other)),
        }
    }

    /// Tells whether `value` passes.
    pub fn evaluate(&self, value: &T) -> (r: bool)
        ensures
            r == self.holds(*value),
        decreases self,
    {
        match self {
            BasicPredicate::True => true,
            BasicPredicate::False => false,
            BasicPredicate::Field(predicate) => predicate.evaluate(value),
            BasicPredicate::And(children) => Self::all(children, value),
            BasicPredicate::Or(children) => Self::any(children, value),
            BasicPredicate::Not(inner) => !inner.evaluate(value),
            BasicPredicate::Xor(a, b) => a.evaluate(value) != b.evaluate(value),
        }
    }

    fn all(children: &Vec<BasicPredicate<T>>, value: &T) -> (r: bool)
        ensures
            r == (forall|i: int|
                0 <= i < children@.len() ==> (#[trigger] children@[i]).holds(*value)),
        decreases children,
    {
        let mut i: usize = 0;
        while i < children.len()
            invariant
                i <= children@.len(),
                forall|j: int| 0 <= j < i ==> (#[trigger] children@[j]).holds(*value),
            decreases children@.len() - i,
        {
            assert(decreases_to!(*children => children[i as int]));
            if !children[i].evaluate(value) {
                return false;
            }
            i += 1;
        }
        true
    }

    fn any(children: &Vec<BasicPredicate<T>>, value: &T) -> (r: bool)
        ensures
            r == (exists|i: int|
                0 <= i < children@.len() && (#[trigger] children@[i]).holds(*value)),
        decreases children,
    {
        let mut i: usize = 0;
        while i < children.len()
            invariant
                i <= children@.len(),
                forall|j: int| 0 <= j < i ==> !(#[trigger] children@[j]).holds(*value),
            decreases children@.len() - i,
        {
            assert(decreases_to!(*children => children[i as int]));
            if children[i].evaluate(value) {
                return true;
            }
            i += 1;
        }
        false
    }

    /// Passes what both predicates pass. Conjunctions are joined, not nested.
    pub fn and(self, rhs: Self) -> (r: Self)
        ensures
            r matches BasicPredicate::And(children) && children@ == self.conjuncts()
                + rhs.conjuncts(),
            forall|value: T| #[trigger] r.holds(value) == (self.holds(value) && rhs.holds(value)),
    {
        let ghost left = self;
        let ghost right = rhs;
        let children = match (self, rhs) {
            (BasicPredicate::And(mut l), BasicPredicate::And(mut r)) => {
                l.append(&mut r);
                l
            },
            (BasicPredicate::And(mut l), r) => {
                l.push(r);
                l
            },
            (l, BasicPredicate::And(mut r)) => {
                r.insert(0, l);
                r
            },
            (l, r) => {
                let mut both: Vec<BasicPredicate<T>> = Vec::new();
                both.push(l);
                both.push(r);
                both
            },
        };
        assert(children@ =~= left.conjuncts() + right.conjuncts());
        let r = BasicPredicate::And(children);
        proof {
            assert forall|value: T| #[trigger] r.holds(value) == (left.holds(value)
                && right.holds(value)) by {
                lemma_conjuncts(left, value);
                lemma_conjuncts(right, value);
                let l = left.conjuncts();
                let c = children@;
                assert(r.conjuncts() == c);
                lemma_conjuncts(r, value);
                if r.holds(value) {
                    assert forall|i: int| 0 <= i < l.len() implies
                        (#[trigger] l[i]).holds(value) by {
                        assert(c[i] == l[i]);
                    }
                    assert forall|i: int| 0 <= i < right.conjuncts().len() implies (
                    #[trigger] right.conjuncts()[i]).holds(value) by {
                        assert(c[l.len() + i] == right.conjuncts()[i]);
                    }
                }
            }
        }
        r
    }

    /// Passes what either predicate passes. Disjunctions are joined, not nested.
    pub fn or(self, rhs: Self) -> (r: Self)
        ensures
            r matches BasicPredicate::Or(children) && children@ == self.disjuncts()
                + rhs.disjuncts(),
            forall|value: T| #[trigger] r.holds(value) == (self.holds(value) || rhs.holds(value)),
    {
        let ghost left = self;
        let ghost right = rhs;
        let children = match (self, rhs) {
            (BasicPredicate::Or(mut l), BasicPredicate::Or(mut r)) => {
                l.append(&mut r);
                l
            },
            (BasicPredicate::Or(mut l), r) => {
                l.push(r);
                l
            },
            (l, BasicPredicate::Or(mut r)) => {
                r.insert(0, l);
                r
            },
            (l, r) => {
                let mut both: Vec<BasicPredicate<T>> = Vec::new();
                both.push(l);
                both.push(r);
                both
            },
        };
        assert(children@ =~= left.disjuncts() + right.disjuncts());
        let r = BasicPredicate::Or(children);
        proof {
            assert forall|value: T| #[trigger] r.holds(value) == (left.holds(value)
                || right.holds(value)) by {
                lemma_disjuncts(left, value);
                lemma_disjuncts(right, value);
                let l = left.disjuncts();
                let m = right.disjuncts();
                let c = children@;
                assert(r.disjuncts() == c);
                lemma_disjuncts(r, value);
                if left.holds(value) {
                    let i = choose|i: int| 0 <= i < l.len() && (#[trigger] l[i]).holds(value);
                    assert(c[i] == l[i]);
                }
                if right.holds(value) {
                    let i = choose|i: int| 0 <= i < m.len() && (#[trigger] m[i]).holds(value);
                    assert(c[l.len() + i] == m[i]);
                }
                if r.holds(value) {
                    let i = choose|i: int| 0 <= i < c.len() && (#[trigger] c[i]).holds(value);
                    if i < l.len() {
                        assert(l[i] == c[i]);
                    } else {
                        assert(m[i - l.len()] == c[i]);
                    }
                }
            }
        }
        r
    }

    /// Passes what exactly one of the predicates passes.
    pub fn xor(self, rhs: Self) -> (r: Self)
        ensures
            r == BasicPredicate::Xor(Box::new(self), Box::new(rhs)),
            forall|value: T| #[trigger] r.holds(value) == (self.holds(value) != rhs.holds(value)),
    {
        BasicPredicate::Xor(Box::new(self), Box::new(rhs))
    }

    /// Passes what the predicate does not. A negation is taken off, not
    /// doubled.
    pub fn negated(self) -> (r: Self)
        ensures
            r == self.spec_negated(),
            forall|value: T| #[trigger] r.holds(value) == !self.holds(value),
    {
        match self {
            BasicPredicate::Not(inner) => *inner,
            BasicPredicate::True => BasicPredicate::False,
            BasicPredicate::False => BasicPredicate::True,
            other => BasicPredicate::Not(Box::new(other)),
        }
    }
}

impl<T> BasicPredicate<T> {
    /// Whether the predicates ask the same, part for part.
    pub open spec fn same_as(&self, other: Self) -> bool
        decreases self,
    {
        match (self, other) {
            (BasicPredicate::True, BasicPredicate::True) => true,
            (BasicPredicate::False, BasicPredicate::False) => true,
            (BasicPredicate::Field(a), BasicPredicate::Field(b)) => *a == b,
            (BasicPredicate::And(a), BasicPredicate::And(b)) => a@.len() == b@.len() && forall|
                i: int,
            |
                0 <= i < a@.len() ==> (#[trigger] a@[i]).same_as(b@[i]),
            (BasicPredicate::Or(a), BasicPredicate::Or(b)) => a@.len() == b@.len() && forall|
                i: int,
            |
                0 <= i < a@.len() ==> (#[trigger] a@[i]).same_as(b@[i]),
            (BasicPredicate::Not(a), BasicPredicate::Not(b)) => a.same_as(*b),
            (BasicPredicate::Xor(a, b), BasicPredicate::Xor(c, d)) => a.same_as(*c) && b.same_as(
                *d,
            ),
            _ => false,
        }
    }

    /// Makes the same predicate again.
    fn copy(&self) -> (r: Self)
        ensures
            self.same_as(r),
        decreases self,
    {
        match self {
            BasicPredicate::True => BasicPredicate::True,
            BasicPredicate::False => BasicPredicate::False,
            BasicPredicate::Field(predicate) => BasicPredicate::Field(predicate.clone()),
            BasicPredicate::And(children) => BasicPredicate::And(Self::copy_all(children)),
            BasicPredicate::Or(children) => BasicPredicate::Or(Self::copy_all(children)),
            BasicPredicate::Not(inner) => BasicPredicate::Not(Box::new(inner.copy())),
            BasicPredicate::Xor(a, b) => BasicPredicate::Xor(
                Box::new(a.copy()),
                Box::new(b.copy()),
            ),
        }
    }

    fn copy_all(children: &Vec<BasicPredicate<T>>) -> (r: Vec<BasicPredicate<T>>)
        ensures
            r@.len() == children@.len(),
            forall|i: int| 0 <= i < children@.len() ==> (#[trigger] children@[i]).same_as(r@[i]),
        decreases children,
    {
        let mut r: Vec<BasicPredicate<T>> = Vec::new();
        let mut i: usize = 0;
        while i < children.len()
            invariant
                i <= children@.len(),
                r@.len() == i,
                forall|j: int| 0 <= j < i ==> (#[trigger] children@[j]).same_as(r@[j]),
            decreases children@.len() - i,
        {
            assert(decreases_to!(*children => children[i as int]));
            let child = children[i].copy();
            r.push(child);
            i += 1;
        }
        r
    }
}

impl<T> Clone for BasicPredicate<T> {
    fn clone(&self) -> (r: Self)
        ensures
            self.same_as(r),
            forall|value: T| #[trigger] r.holds(value) == self.holds(value),
    {
        let r = self.copy();
        assert forall|value: T| #[trigger] r.holds(value) == self.holds(value) by {
            same_predicates_pass_the_same(*self, r, value);
        }
        r
    }
}

/// Predicates that ask the same pass the same values.
pub proof fn same_predicates_pass_the_same<T>(
    a: BasicPredicate<T>,
    b: BasicPredicate<T>,
    value: T,
)
    requires
        a.same_as(b),
    ensures
        a.holds(value) == b.holds(value),
    decreases a,
{
    match (a, b) {
        (BasicPredicate::And(x), BasicPredicate::And(y)) => {
            assert forall|i: int| 0 <= i < x@.len() implies (#[trigger] x@[i]).holds(value)
                == y@[i].holds(value) by {
                assert(decreases_to!(x => x[i]));
                same_predicates_pass_the_same(x@[i], y@[i], value);
            }
            assert(a.holds(value) ==> b.holds(value)) by {
                assert forall|i: int| a.holds(value) && 0 <= i < y@.len() implies (
                #[trigger] y@[i]).holds(value) by {
                    assert(x@[i].holds(value));
                }
            }
        },
        (BasicPredicate::Or(x), BasicPredicate::Or(y)) => {
            assert forall|i: int| 0 <= i < x@.len() implies (#[trigger] x@[i]).holds(value)
                == y@[i].holds(value) by {
                assert(decreases_to!(x => x[i]));
                same_predicates_pass_the_same(x@[i], y@[i], value);
            }
            if b.holds(value) {
                let i = choose|i: int| 0 <= i < y@.len() && (#[trigger] y@[i]).holds(value);
                assert(x@[i].holds(value));
            }
        },
        (BasicPredicate::Not(x), BasicPredicate::Not(y)) => {
            same_predicates_pass_the_same(*x, *y, value);
        },
        (BasicPredicate::Xor(x, y), BasicPredicate::Xor(u, v)) => {
            same_predicates_pass_the_same(*x, *u, value);
            same_predicates_pass_the_same(*y, *v, value);
        },
        _ => {},
    }
}

/// A predicate holds where all its conjuncts do.
proof fn lemma_conjuncts<T>(p: BasicPredicate<T>, value: T)
    ensures
        p.holds(value) <==> forall|i: int|
            0 <= i < p.conjuncts().len() ==> (#[trigger] p.conjuncts()[i]).holds(value),
{
    if !(p is And) {
        assert(p.conjuncts()[0] == p);
    }
}

/// A predicate holds where one of its disjuncts does.
proof fn lemma_disjuncts<T>(p: BasicPredicate<T>, value: T)
    ensures
        p.holds(value) <==> exists|i: int|
            0 <= i < p.disjuncts().len() && (#[trigger] p.disjuncts()[i]).holds(value),
{
    if !(p is Or) {
        assert(p.disjuncts()[0] == p);
    }
}

impl<T> core::ops::BitAnd for BasicPredicate<T> {
    type Output = Self;

    fn bitand(self, rhs: Self) -> (r: Self)
        ensures
            r matches BasicPredicate::And(children) && children@ == self.conjuncts()
                + rhs.conjuncts(),
            forall|value: T| #[trigger] r.holds(value) == (self.holds(value) && rhs.holds(value)),
    {
        self.and(rhs)
    }
}

impl<T> core::ops::BitOr for BasicPredicate<T> {
    type Output = Self;

    fn bitor(self, rhs: Self) -> (r: Self)
        ensures
            r matches BasicPredicate::Or(children) && children@ == self.disjuncts()
                + rhs.disjuncts(),
            forall|value: T| #[trigger] r.holds(value) == (self.holds(value) || rhs.holds(value)),
    {
        self.or(rhs)
    }
}

impl<T> core::ops::BitXor for BasicPredicate<T> {
    type Output = Self;

    fn bitxor(self, rhs: Self) -> (r: Self)
        ensures
            r == BasicPredicate::Xor(Box::new(self), Box::new(rhs)),
            forall|value: T| #[trigger] r.holds(value) == (self.holds(value) != rhs.holds(value)),
    {
        self.xor(rhs)
    }
}

impl<T> core::ops::Not for BasicPredicate<T> {
    type Output = Self;

    fn not(self) -> (r: Self)
        ensures
            r == self.spec_negated(),
            forall|value: T| #[trigger] r.holds(value) == !self.holds(value),
    {
        self.negated()
    }
}

impl<T> vstd::std_specs::ops::BitOrSpecImpl for BasicPredicate<T> {
    open spec fn obeys_bitor_spec() -> bool {
        false
    }

    open spec fn bitor_req(self, rhs: Self) -> bool {
        true
    }

    open spec fn bitor_spec(self, rhs: Self) -> Self {
        arbitrary()
    }
}

impl<T> vstd::std_specs::ops::BitXorSpecImpl for BasicPredicate<T> {
    open spec fn obeys_bitxor_spec() -> bool {
        true
    }

    open spec fn bitxor_req(self, rhs: Self) -> bool {
        true
    }

    open spec fn bitxor_spec(self, rhs: Self) -> Self {
        BasicPredicate::Xor(Box::new(self), Box::new(rhs))
    }
}

impl<T> vstd::std_specs::ops::NotSpecImpl for BasicPredicate<T> {
    open spec fn obeys_not_spec() -> bool {
        true
    }

    open spec fn not_req(self) -> bool {
        true
    }

    open spec fn not_spec(self) -> Self {
        self.spec_negated()
    }
}

impl<T> vstd::std_specs::ops::BitAndSpecImpl for BasicPredicate<T> {
    open spec fn obeys_bitand_spec() -> bool {
        false
    }

    open spec fn bitand_req(self, rhs: Self) -> bool {
        true
    }

    open spec fn bitand_spec(self, rhs: Self) -> Self {
        arbitrary()
    }
}

/// Negating twice passes the same values, and gives the very predicate back
/// where it was no negation itself.
pub proof fn double_negation_gives_the_predicate_back<T>(p: BasicPredicate<T>, value: T)
    ensures
        p.spec_negated().spec_negated().holds(value) == p.holds(value),
        !(p is Not) ==> p.spec_negated().spec_negated() == p,
{
    if let BasicPredicate::Not(inner) = p {
        lemma_negated(*inner, value);
    }
    lemma_negated(p, value);
    lemma_negated(p.spec_negated(), value);
}

/// The negation holds where the predicate does not.
proof fn lemma_negated<T>(p: BasicPredicate<T>, value: T)
    ensures
        p.spec_negated().holds(value) == !p.holds(value),
{
}

/// Chained conjunctions are flat: their children are those of all operands, in
/// order.
pub proof fn chained_conjunctions_are_flat<T>(
    a: BasicPredicate<T>,
    b: BasicPredicate<T>,
    c: BasicPredicate<T>,
    ab: BasicPredicate<T>,
    abc: BasicPredicate<T>,
)
    requires
        ab matches BasicPredicate::And(children) && children@ == a.conjuncts() + b.conjuncts(),
        abc matches BasicPredicate::And(children) && children@ == ab.conjuncts() + c.conjuncts(),
    ensures
        abc.conjuncts() == a.conjuncts() + b.conjuncts() + c.conjuncts(),
{
}

/// Chained disjunctions are flat: their children are those of all operands, in
/// order.
pub proof fn chained_disjunctions_are_flat<T>(
    a: BasicPredicate<T>,
    b: BasicPredicate<T>,
    c: BasicPredicate<T>,
    ab: BasicPredicate<T>,
    abc: BasicPredicate<T>,
)
    requires
        ab matches BasicPredicate::Or(children) && children@ == a.disjuncts() + b.disjuncts(),
        abc matches BasicPredicate::Or(children) && children@ == ab.disjuncts() + c.disjuncts(),
    ensures
        abc.disjuncts() == a.disjuncts() + b.disjuncts() + c.disjuncts(),
{
}

/// The negation of a conjunction holds where the disjunction of the negations
/// does, and the other way round.
pub proof fn de_morgan<T>(
    a: BasicPredicate<T>,
    b: BasicPredicate<T>,
    both: BasicPredicate<T>,
    either: BasicPredicate<T>,
    value: T,
)
    requires
        both matches BasicPredicate::And(children) && children@ == a.conjuncts() + b.conjuncts(),
        either matches BasicPredicate::Or(children) && children@
            == a.spec_negated().disjuncts() + b.spec_negated().disjuncts(),
    ensures
        both.spec_negated().holds(value) == either.holds(value),
{
    lemma_negated(both, value);
    lemma_negated(a, value);
    lemma_negated(b, value);
    lemma_conjuncts(a, value);
    lemma_conjuncts(b, value);
    lemma_conjuncts(both, value);
    lemma_disjuncts(a.spec_negated(), value);
    lemma_disjuncts(b.spec_negated(), value);
    lemma_disjuncts(either, value);
    let c = both.conjuncts();
    let d = either.disjuncts();
    let n = a.conjuncts().len();
    let k = a.spec_negated().disjuncts().len();
    if both.holds(value) {
        assert forall|i: int| 0 <= i < n implies (#[trigger] a.conjuncts()[i]).holds(value) by {
            assert(c[i] == a.conjuncts()[i]);
        }
        assert forall|i: int| 0 <= i < b.conjuncts().len() implies
            (#[trigger] b.conjuncts()[i]).holds(
            value,
        ) by {
            assert(c[n + i] == b.conjuncts()[i]);
        }
        if either.holds(value) {
            let i = choose|i: int| 0 <= i < d.len() && (#[trigger] d[i]).holds(value);
            if i < k {
                assert(a.spec_negated().disjuncts()[i] == d[i]);
            } else {
                assert(b.spec_negated().disjuncts()[i - k] == d[i]);
            }
        }
    } else {
        if !a.holds(value) {
            let l = a.spec_negated().disjuncts();
            let i = choose|i: int| 0 <= i < l.len() && (#[trigger] l[i]).holds(value);
            assert(d[i] == l[i]);
        } else {
            assert(!b.holds(value)) by {
                if b.holds(value) {
                    assert forall|i: int| 0 <= i < c.len() implies
                        (#[trigger] c[i]).holds(value) by {
                        if i < n {
                            assert(c[i] == a.conjuncts()[i]);
                        } else {
                            assert(c[i] == b.conjuncts()[i - n]);
                        }
                    }
                }
            }
            let l = b.spec_negated().disjuncts();
            let i = choose|i: int| 0 <= i < l.len() && (#[trigger] l[i]).holds(value);
            assert(d[k + i] == l[i]);
        }
    }
}

/// The empty conjunction passes everything, the empty disjunction nothing.
pub proof fn empty_combinations<T>(
    all: BasicPredicate<T>,
    any: BasicPredicate<T>,
    value: T,
)
    requires
        all matches BasicPredicate::And(children) && children@.len() == 0,
        any matches BasicPredicate::Or(children) && children@.len() == 0,
    ensures
        all.holds(value),
        !any.holds(value),
{
}

} // verus!
