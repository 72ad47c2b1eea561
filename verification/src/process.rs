use crate::date::Date;
use crate::error::EvalError;
use crate::scalar::{
    checked_product, checked_sum, fits, in_range, larger, maximum, negation, RandomVariable,
};
use std::collections::HashMap;
use vstd::prelude::*;
use vstd::std_specs::iter::IteratorSpec;

verus! {

broadcast use vstd::std_specs::hash::group_hash_axioms;

/// The process that is defined on `day` alone, with value `value`.
pub open spec fn single(day: int, value: int) -> Map<int, int> {
    Map::empty().insert(day, value)
}

/// `m` with every value negated.
pub open spec fn negated(m: Map<int, int>) -> Map<int, int> {
    Map::new(|d: int| m.contains_key(d), |d: int| -m[d])
}

/// `m` with every value multiplied by `factor`.
pub open spec fn scaled(m: Map<int, int>, factor: int) -> Map<int, int> {
    Map::new(|d: int| m.contains_key(d), |d: int| m[d] * factor)
}

/// Every value of `m`, multiplied by `factor`, can be held.
pub open spec fn scales_in_range(m: Map<int, int>, factor: int) -> bool {
    forall|d: int| #[trigger] m.contains_key(d) ==> in_range(m[d] * factor)
}

/// The union of `a` and `b`: on a day that both define the sum of the two
/// values, on a day that one defines that one's value.
pub open spec fn summed(a: Map<int, int>, b: Map<int, int>) -> Map<int, int> {
    Map::new(
        |d: int| a.contains_key(d) || b.contains_key(d),
        |d: int|
            if a.contains_key(d) && b.contains_key(d) {
                a[d] + b[d]
            } else if a.contains_key(d) {
                a[d]
            } else {
                b[d]
            },
    )
}

/// On every day that both `a` and `b` define, the sum of the two values can
/// be held.
pub open spec fn sums_in_range(a: Map<int, int>, b: Map<int, int>) -> bool {
    forall|d: int| #[trigger] a.contains_key(d) && b.contains_key(d) ==> in_range(a[d] + b[d])
}

/// The union of `a` and `b`: on a day that both define the larger of the two
/// values, on a day that one defines that one's value.
pub open spec fn maxed(a: Map<int, int>, b: Map<int, int>) -> Map<int, int> {
    Map::new(
        |d: int| a.contains_key(d) || b.contains_key(d),
        |d: int|
            if a.contains_key(d) && b.contains_key(d) {
                larger(a[d], b[d])
            } else if a.contains_key(d) {
                a[d]
            } else {
                b[d]
            },
    )
}

/// The union of `a` and `b` in which `a`'s values are kept: `b` only adds
/// the days that `a` does not define.
pub open spec fn extended(a: Map<int, int>, b: Map<int, int>) -> Map<int, int> {
    Map::new(
        |d: int| a.contains_key(d) || b.contains_key(d),
        |d: int|
            if a.contains_key(d) {
                a[d]
            } else {
                b[d]
            },
    )
}

/// `day` is the latest day that `m` defines.
pub open spec fn is_latest(m: Map<int, int>, day: int) -> bool {
    &&& m.contains_key(day)
    &&& forall|e: int| #[trigger] m.contains_key(e) ==> e <= day
}

/// The latest day that `m` defines, where it has one.
pub open spec fn latest(m: Map<int, int>) -> Option<int> {
    if exists|d: int| is_latest(m, d) {
        Some(choose|d: int| is_latest(m, d))
    } else {
        None
    }
}

/// `m` cut down to its latest day: the process that holds `m`'s value on
/// that day and nothing else; empty where `m` has no latest day.
pub open spec fn terminal(m: Map<int, int>) -> Map<int, int> {
    match latest(m) {
        Some(d) => single(d, m[d]),
        None => Map::empty(),
    }
}

/// A map has at most one latest day.
pub proof fn lemma_latest_is_unique(m: Map<int, int>, day: int)
    requires
        is_latest(m, day),
    ensures
        latest(m) == Some(day),
{
    let d = choose|d: int| is_latest(m, d);
    assert(m.contains_key(d) && m.contains_key(day));
}

/// A map that defines no day has no latest day.
pub proof fn lemma_latest_of_empty(m: Map<int, int>)
    requires
        forall|d: int| !m.contains_key(d),
    ensures
        latest(m) is None,
{
}

/// The latest day of a map, where it has one, is a day that it defines and
/// no day that it defines is later.
pub proof fn lemma_latest_defined(m: Map<int, int>)
    ensures
        latest(m) matches Some(d) ==> is_latest(m, d),
{
}

/// Negating a process twice gives the process back.
pub proof fn lemma_negated_twice(m: Map<int, int>)
    ensures
        negated(negated(m)) == m,
{
    assert(negated(negated(m)) =~= m);
}

/// The sum of two processes does not depend on their order, and neither
/// does whether it can be held.
pub proof fn lemma_summed_commutes(a: Map<int, int>, b: Map<int, int>)
    ensures
        summed(a, b) == summed(b, a),
        sums_in_range(a, b) <==> sums_in_range(b, a),
{
    assert(summed(a, b) =~= summed(b, a));
}

/// What the operations give on two processes that define one and the same
/// day and no other.
pub proof fn lemma_single_day_algebra(day: int, x: int, y: int, factor: int)
    ensures
        negated(single(day, x)) == single(day, -x),
        summed(single(day, x), single(day, y)) == single(day, x + y),
        sums_in_range(single(day, x), single(day, y)) <==> in_range(x + y),
        maxed(single(day, x), single(day, y)) == single(day, larger(x, y)),
        extended(single(day, x), single(day, y)) == single(day, x),
        scaled(single(day, x), factor) == single(day, x * factor),
        scales_in_range(single(day, x), factor) <==> in_range(x * factor),
        latest(single(day, x)) == Some(day),
        terminal(single(day, x)) == single(day, x),
{
    let a = single(day, x);
    let b = single(day, y);
    assert(a.contains_key(day) && b.contains_key(day));
    assert(negated(a) =~= single(day, -x));
    assert(summed(a, b) =~= single(day, x + y));
    assert(maxed(a, b) =~= single(day, larger(x, y)));
    assert(extended(a, b) =~= a);
    assert(scaled(a, factor) =~= single(day, x * factor));
    assert(is_latest(a, day));
    lemma_latest_is_unique(a, day);
    assert(terminal(a) =~= a);
}

/// What a table keyed by day numbers and holding machine integers says, as
/// a map between mathematical integers.
spec fn lifted(m: Map<i32, i64>) -> Map<int, int> {
    Map::new(
        |d: int| i32::MIN <= d <= i32::MAX && m.contains_key(d as i32),
        |d: int| m[d as i32] as int,
    )
}

/// Lifting a finite table keeps it finite and keeps the number of its keys.
proof fn lemma_lifted_len(m: Map<i32, i64>)
    requires
        m.dom().finite(),
    ensures
        lifted(m).dom().finite(),
        lifted(m).len() == m.len(),
{
    let f = |k: i32| k as int;
    assert(vstd::relations::injective_on(f, m.dom()));
    assert(m.dom().map(f) =~= lifted(m).dom()) by {
        assert forall|d: int| lifted(m).dom().contains(d) implies m.dom().map(f).contains(d) by {
            assert(m.dom().contains(d as i32) && f(d as i32) == d);
        }
    }
    vstd::set_lib::lemma_map_size(m.dom(), lifted(m).dom(), f);
}

/// A value process: the value of a contract on each date for which one is
/// defined.
///
/// Its view is the map from day numbers to values. No date occurs twice,
/// the order of the dates carries no meaning, and every value held has a
/// magnitude of at most `LIMIT`.
#[derive(Debug, PartialEq, Eq)]
pub struct ValueProcess {
    entries: HashMap<i32, i64>,
}

impl View for ValueProcess {
    type V = Map<int, int>;

    closed spec fn view(&self) -> Map<int, int> {
        lifted(self.entries@)
    }
}

impl Clone for ValueProcess {
    fn clone(&self) -> (r: ValueProcess)
        ensures
            r@ == self@,
    {
        proof {
            use_type_invariant(self);
        }
        ValueProcess { entries: self.entries.clone() }
    }
}

impl ValueProcess {
    #[verifier::type_invariant]
    spec fn holds_values_in_range(self) -> bool {
        forall|k: i32| #[trigger] self.entries@.contains_key(k) ==> in_range(self.entries@[k] as int)
    }

    /// The process that defines no date.
    pub fn new() -> (r: ValueProcess)
        ensures
            r@ == Map::<int, int>::empty(),
    {
        let r = ValueProcess { entries: HashMap::new() };
        assert(r@ =~= Map::<int, int>::empty());
        r
    }

    /// Sets the value on `date` to `value`, replacing any value held there.
    ///
    /// A value that cannot be held is refused, and the process is left as
    /// it was.
    pub fn insert(&mut self, date: Date, value: RandomVariable) -> (r: Result<(), EvalError>)
        ensures
            in_range(value as int) ==> r is Ok && final(self)@ == old(self)@.insert(
                date@,
                value as int,
            ),
            !in_range(value as int) ==> r == Err::<(), EvalError>(EvalError::Overflow)
                && final(self)@ == old(self)@,
    {
        proof {
            use_type_invariant(&*self);
        }
        if fits(value) {
            let mut entries: HashMap<i32, i64> = HashMap::new();
            std::mem::swap(&mut self.entries, &mut entries);
            entries.insert(date.days, value);
            std::mem::swap(&mut self.entries, &mut entries);
            assert(self@ =~= old(self)@.insert(date@, value as int));
            Ok(())
        } else {
            Err(EvalError::Overflow)
        }
    }

    /// The value on `date`, where the process defines one.
    pub fn get(&self, date: Date) -> (r: Option<RandomVariable>)
        ensures
            match r {
                Some(v) => self@.contains_key(date@) && self@[date@] == v && in_range(v as int),
                None => !self@.contains_key(date@),
            },
    {
        proof {
            use_type_invariant(self);
        }
        match self.entries.get(&date.days) {
            Some(v) => Some(*v),
            None => None,
        }
    }

    /// Whether the process defines a value on `date`.
    pub fn contains_date(&self, date: Date) -> (r: bool)
        ensures
            r == self@.contains_key(date@),
    {
        self.entries.contains_key(&date.days)
    }

    /// The number of dates that the process defines; there are finitely
    /// many.
    pub fn len(&self) -> (r: usize)
        ensures
            self@.dom().finite(),
            r == self@.len(),
    {
        proof {
            lemma_lifted_len(self.entries@);
        }
        self.entries.len()
    }

    /// Whether the process defines no date at all.
    pub fn is_empty(&self) -> (r: bool)
        ensures
            r == (self@ == Map::<int, int>::empty()),
    {
        let r = self.entries.is_empty();
        proof {
            if r {
                assert(self@ =~= Map::<int, int>::empty());
            } else {
                let k = choose|k: i32| self.entries@.contains_key(k);
                assert(self.entries@.dom().contains(k));
                assert(self@.contains_key(k as int));
            }
        }
        r
    }

    /// The process that is defined on `date` alone, with value `value`; an
    /// overflow where `value` cannot be held.
    pub fn single(date: Date, value: RandomVariable) -> (r: Result<ValueProcess, EvalError>)
        ensures
            match r {
                Ok(p) => in_range(value as int) && p@ == single(date@, value as int),
                Err(e) => !in_range(value as int) && e == EvalError::Overflow,
            },
    {
        if fits(value) {
            let mut entries: HashMap<i32, i64> = HashMap::new();
            entries.insert(date.days, value);
            let p = ValueProcess { entries };
            assert(p@ =~= single(date@, value as int));
            Ok(p)
        } else {
            Err(EvalError::Overflow)
        }
    }

    /// The process with every value negated.
    pub fn negated(&self) -> (r: ValueProcess)
        ensures
            r@ == negated(self@),
    {
        proof {
            use_type_invariant(self);
        }
        let mut out: HashMap<i32, i64> = HashMap::new();
        for (k, v) in it: self.entries.iter()
            invariant
                it.seq() == self.entries.iter().remaining(),
                forall|k: i32| #[trigger]
                    self.entries@.contains_key(k) ==> in_range(self.entries@[k] as int),
                forall|j: int| 0 <= j < it.index() ==> out@.contains_key(#[trigger] *it.seq()[j].0),
                forall|k: i32| #[trigger]
                    out@.contains_key(k) ==> self.entries@.contains_key(k) && out@[k]
                        == -self.entries@[k],
        {
            assert(self.entries@.contains_key(*k) && self.entries@[*k] == *v);
            out.insert(*k, negation(*v));
        }
        proof {
            lemma_walk_reaches(self.entries);
        }
        let r = ValueProcess { entries: out };
        assert(r@ =~= negated(self@));
        r
    }

    /// The process with every value multiplied by `factor`; an overflow
    /// where one of the products cannot be held.
    pub fn scaled(&self, factor: RandomVariable) -> (r: Result<ValueProcess, EvalError>)
        ensures
            match r {
                Ok(p) => scales_in_range(self@, factor as int) && p@ == scaled(self@, factor as int),
                Err(e) => !scales_in_range(self@, factor as int) && e == EvalError::Overflow,
            },
    {
        let mut out: HashMap<i32, i64> = HashMap::new();
        for (k, v) in it: self.entries.iter()
            invariant
                it.seq() == self.entries.iter().remaining(),
                forall|j: int| 0 <= j < it.index() ==> out@.contains_key(#[trigger] *it.seq()[j].0),
                forall|k: i32| #[trigger]
                    out@.contains_key(k) ==> self.entries@.contains_key(k) && in_range(
                        self.entries@[k] * factor,
                    ) && out@[k] == self.entries@[k] * factor,
        {
            assert(self.entries@.contains_key(*k) && self.entries@[*k] == *v);
            match checked_product(*v, factor) {
                Some(p) => {
                    out.insert(*k, p);
                },
                None => {
                    assert(self@.contains_key(*k as int));
                    return Err(EvalError::Overflow);
                },
            }
        }
        proof {
            lemma_walk_reaches(self.entries);
        }
        let r = ValueProcess { entries: out };
        assert(r@ =~= scaled(self@, factor as int));
        Ok(r)
    }

    /// Both processes held together: the union of the two, with the sum of
    /// the two values on a date that both define; an overflow where one of
    /// those sums cannot be held.
    pub fn sum_with(&self, other: &ValueProcess) -> (r: Result<ValueProcess, EvalError>)
        ensures
            match r {
                Ok(p) => sums_in_range(self@, other@) && p@ == summed(self@, other@),
                Err(e) => !sums_in_range(self@, other@) && e == EvalError::Overflow,
            },
    {
        proof {
            use_type_invariant(self);
            use_type_invariant(other);
        }
        let mut out: HashMap<i32, i64> = self.entries.clone();
        for (k, v) in it: other.entries.iter()
            invariant
                it.seq() == other.entries.iter().remaining(),
                forall|k: i32| #[trigger]
                    self.entries@.contains_key(k) ==> in_range(self.entries@[k] as int),
                forall|k: i32| #[trigger]
                    other.entries@.contains_key(k) ==> in_range(other.entries@[k] as int),
                forall|j: int| 0 <= j < it.index() ==> out@.contains_key(#[trigger] *it.seq()[j].0),
                forall|j: int|
                    0 <= j < it.index() && self.entries@.contains_key(#[trigger] *it.seq()[j].0)
                        ==> in_range(self.entries@[*it.seq()[j].0] + other.entries@[*it.seq()[j].0])
                        && out@[*it.seq()[j].0] == self.entries@[*it.seq()[j].0]
                        + other.entries@[*it.seq()[j].0],
                forall|k: i32| #[trigger]
                    self.entries@.contains_key(k) ==> out@.contains_key(k) && (out@[k]
                        == self.entries@[k] || (other.entries@.contains_key(k) && out@[k]
                        == self.entries@[k] + other.entries@[k])),
                forall|k: i32| #[trigger]
                    out@.contains_key(k) ==> in_range(out@[k] as int) && (self.entries@.contains_key(k)
                        || (other.entries@.contains_key(k) && out@[k] == other.entries@[k])),
        {
            assert(other.entries@.contains_key(*k) && other.entries@[*k] == *v);
            match self.entries.get(k) {
                Some(u) => {
                    match checked_sum(*u, *v) {
                        Some(s) => {
                            out.insert(*k, s);
                        },
                        None => {
                            assert(self@.contains_key(*k as int) && other@.contains_key(*k as int));
                            return Err(EvalError::Overflow);
                        },
                    }
                },
                None => {
                    out.insert(*k, *v);
                },
            }
        }
        proof {
            lemma_walk_reaches(other.entries);
        }
        let r = ValueProcess { entries: out };
        assert(r@ =~= summed(self@, other@));
        Ok(r)
    }

    /// The better of the two processes, date by date: the union of the two,
    /// with the larger of the two values on a date that both define.
    pub fn max_with(&self, other: &ValueProcess) -> (r: ValueProcess)
        ensures
            r@ == maxed(self@, other@),
    {
        proof {
            use_type_invariant(self);
            use_type_invariant(other);
        }
        let mut out: HashMap<i32, i64> = self.entries.clone();
        for (k, v) in it: other.entries.iter()
            invariant
                it.seq() == other.entries.iter().remaining(),
                forall|k: i32| #[trigger]
                    self.entries@.contains_key(k) ==> in_range(self.entries@[k] as int),
                forall|k: i32| #[trigger]
                    other.entries@.contains_key(k) ==> in_range(other.entries@[k] as int),
                forall|j: int| 0 <= j < it.index() ==> out@.contains_key(#[trigger] *it.seq()[j].0),
                forall|j: int|
                    0 <= j < it.index() && self.entries@.contains_key(#[trigger] *it.seq()[j].0)
                        ==> out@[*it.seq()[j].0] == larger(
                        self.entries@[*it.seq()[j].0] as int,
                        other.entries@[*it.seq()[j].0] as int,
                    ),
                forall|k: i32| #[trigger]
                    self.entries@.contains_key(k) ==> out@.contains_key(k) && (out@[k]
                        == self.entries@[k] || (other.entries@.contains_key(k) && out@[k]
                        == larger(self.entries@[k] as int, other.entries@[k] as int))),
                forall|k: i32| #[trigger]
                    out@.contains_key(k) ==> in_range(out@[k] as int) && (self.entries@.contains_key(k)
                        || (other.entries@.contains_key(k) && out@[k] == other.entries@[k])),
        {
            assert(other.entries@.contains_key(*k) && other.entries@[*k] == *v);
            match self.entries.get(k) {
                Some(u) => {
                    out.insert(*k, maximum(*u, *v));
                },
                None => {
                    out.insert(*k, *v);
                },
            }
        }
        proof {
            lemma_walk_reaches(other.entries);
        }
        let r = ValueProcess { entries: out };
        assert(r@ =~= maxed(self@, other@));
        r
    }

    /// This process carried on by `other`: the union of the two, in which
    /// this process keeps its value on every date that it defines.
    pub fn extended_by(&self, other: &ValueProcess) -> (r: ValueProcess)
        ensures
            r@ == extended(self@, other@),
    {
        proof {
            use_type_invariant(self);
            use_type_invariant(other);
        }
        let mut out: HashMap<i32, i64> = self.entries.clone();
        for (k, v) in it: other.entries.iter()
            invariant
                it.seq() == other.entries.iter().remaining(),
                forall|k: i32| #[trigger]
                    self.entries@.contains_key(k) ==> in_range(self.entries@[k] as int),
                forall|k: i32| #[trigger]
                    other.entries@.contains_key(k) ==> in_range(other.entries@[k] as int),
                forall|j: int| 0 <= j < it.index() ==> out@.contains_key(#[trigger] *it.seq()[j].0),
                forall|k: i32| #[trigger]
                    self.entries@.contains_key(k) ==> out@.contains_key(k) && out@[k]
                        == self.entries@[k],
                forall|k: i32| #[trigger]
                    out@.contains_key(k) ==> in_range(out@[k] as int) && (self.entries@.contains_key(k)
                        || (other.entries@.contains_key(k) && out@[k] == other.entries@[k])),
        {
            assert(other.entries@.contains_key(*k) && other.entries@[*k] == *v);
            if !self.entries.contains_key(k) {
                out.insert(*k, *v);
            }
        }
        proof {
            lemma_walk_reaches(other.entries);
        }
        let r = ValueProcess { entries: out };
        assert(r@ =~= extended(self@, other@));
        r
    }

    /// The latest date that the process defines: its horizon. `None` where
    /// the process is empty.
    pub fn latest_date(&self) -> (r: Option<Date>)
        ensures
            match r {
                Some(d) => latest(self@) == Some(d@),
                None => latest(self@) is None && self@ == Map::<int, int>::empty(),
            },
    {
        let mut best: Option<i32> = None;
        for (k, v) in it: self.entries.iter()
            invariant
                it.seq() == self.entries.iter().remaining(),
                best is None <==> it.index() == 0,
                best matches Some(b) ==> self.entries@.contains_key(b),
                best matches Some(b) ==> forall|j: int|
                    0 <= j < it.index() ==> #[trigger] *it.seq()[j].0 <= b,
        {
            assert(self.entries@.contains_key(*k));
            best = match best {
                Some(b) => if *k > b {
                    Some(*k)
                } else {
                    Some(b)
                },
                None => Some(*k),
            };
        }
        proof {
            lemma_walk_reaches(self.entries);
        }
        match best {
            Some(b) => {
                proof {
                    assert(is_latest(self@, b as int)) by {
                        assert forall|e: int| #[trigger] self@.contains_key(e) implies e <= b by {
                            assert(self.entries@.contains_key(e as i32));
                        }
                    }
                    lemma_latest_is_unique(self@, b as int);
                }
                Some(Date { days: b })
            },
            None => {
                proof {
                    assert(self.entries.iter().remaining().len() == 0);
                    assert forall|d: int| !self@.contains_key(d) by {
                        if self@.contains_key(d) {
                            assert(self.entries@.contains_key(d as i32));
                        }
                    }
                    lemma_latest_of_empty(self@);
                    assert(self@ =~= Map::<int, int>::empty());
                }
                None
            },
        }
    }

    /// The process cut down to its horizon: the one entry that holds this
    /// process's value on its latest date; empty where this process is.
    pub fn terminal(&self) -> (r: ValueProcess)
        ensures
            r@ == terminal(self@),
    {
        proof {
            use_type_invariant(self);
        }
        let mut out: HashMap<i32, i64> = HashMap::new();
        match self.latest_date() {
            Some(d) => {
                proof {
                    lemma_latest_defined(self@);
                }
                match self.entries.get(&d.days) {
                    Some(v) => {
                        out.insert(d.days, *v);
                    },
                    None => {},
                }
            },
            None => {},
        }
        let r = ValueProcess { entries: out };
        assert(r@ =~= terminal(self@));
        r
    }

    /// The dates that the process defines, each once and each with its
    /// value, in no particular order.
    pub fn entries(&self) -> (r: Vec<(Date, RandomVariable)>)
        ensures
            r@.len() == self@.len(),
            forall|i: int|
                0 <= i < r@.len() ==> self@.contains_key(#[trigger] r@[i].0@) && self@[r@[i].0@]
                    == r@[i].1 && in_range(r@[i].1 as int),
            forall|i: int, j: int|
                0 <= i < j < r@.len() ==> (#[trigger] r@[i]).0@ != (#[trigger] r@[j]).0@,
            forall|d: int| #[trigger]
                self@.contains_key(d) ==> exists|i: int| 0 <= i < r@.len() && (#[trigger] r@[i]).0@ == d,
    {
        proof {
            use_type_invariant(self);
        }
        let mut out: Vec<(Date, RandomVariable)> = Vec::new();
        for (k, v) in it: self.entries.iter()
            invariant
                it.seq() == self.entries.iter().remaining(),
                it.seq().no_duplicates(),
                out@.len() == it.index(),
                forall|i: int|
                    0 <= i < out@.len() ==> (#[trigger] out@[i]).0.days == *it.seq()[i].0 && out@[i].1
                        == *it.seq()[i].1,
        {
            out.push((Date { days: *k }, *v));
        }
        proof {
            let s = self.entries.iter().remaining();
            lemma_lifted_len(self.entries@);
            lemma_walk_reaches(self.entries);
            assert forall|i: int, j: int| 0 <= i < j < out@.len() implies (#[trigger] out@[i]).0@ != (
            #[trigger] out@[j]).0@ by {
                if out@[i].0@ == out@[j].0@ {
                    assert(self.entries@.contains_key(*s[i].0) && self.entries@[*s[i].0] == *s[i].1);
                    assert(self.entries@.contains_key(*s[j].0) && self.entries@[*s[j].0] == *s[j].1);
                    assert(s[i] == s[j]);
                }
            }
            assert forall|i: int| 0 <= i < out@.len() implies self@.contains_key(
                #[trigger] out@[i].0@,
            ) && self@[out@[i].0@] == out@[i].1 && in_range(out@[i].1 as int) by {
                assert(self.entries@.contains_key(*s[i].0) && self.entries@[*s[i].0] == *s[i].1);
            }
            assert forall|d: int| #[trigger] self@.contains_key(d) implies exists|i: int|
                0 <= i < out@.len() && (#[trigger] out@[i]).0@ == d by {
                let k = d as i32;
                assert(self.entries@.contains_key(k));
                let j = choose|j: int| 0 <= j < s.len() && #[trigger] *s[j].0 == k;
                assert(out@[j].0@ == d);
            }
        }
        out
    }
}

/// Walking a table yields every key that it holds.
proof fn lemma_walk_reaches(source: HashMap<i32, i64>)
    ensures
        forall|k: i32| #[trigger]
            source@.contains_key(k) ==> exists|j: int|
                0 <= j < source.iter().remaining().len() && #[trigger] *source.iter().remaining()[j].0
                    == k,
{
    let s = source.iter().remaining();
    assert forall|k: i32| #[trigger] source@.contains_key(k) implies exists|j: int|
        0 <= j < s.len() && #[trigger] *s[j].0 == k by {
        assert(s.contains((&k, &source@[k])));
        let j = choose|j: int| 0 <= j < s.len() && s[j] == (&k, &source@[k]);
        assert(*s[j].0 == k);
    }
}

} // verus!
