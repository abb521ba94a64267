//! Real numbers as far as the library needs them: their place relative to zero
//! and one, and their notations. Arithmetic on them is the caller's.

use crate::text;
use vstd::prelude::*;

verus! {

/// Where a number lies.
#[derive(Clone, Copy, Debug, Eq, PartialEq, Structural)]
pub enum RealKind {
    /// Infinite, or not a number.
    NotFinite,
    /// Finite and below zero.
    Negative,
    /// Zero.
    Zero,
    /// Above zero and at most one.
    UpToOne,
    /// Finite and above one.
    AboveOne,
}

/// A real number by its place and its notations.
#[derive(Debug)]
pub struct Real {
    pub kind: RealKind,
    /// The shortest decimal notation that denotes the number.
    pub display: String,
    /// The notation with six decimals and an exponent.
    pub scientific: String,
    /// The notation as a percentage with three decimals.
    pub percent: String,
    /// The notation with sixteen decimals and an exponent, or a bare zero.
    pub full: String,
}

/// The mathematical view of a [`Real`].
pub struct RealView {
    pub kind: RealKind,
    pub display: Seq<char>,
    pub scientific: Seq<char>,
    pub percent: Seq<char>,
    pub full: Seq<char>,
}

impl View for Real {
    type V = RealView;

    open spec fn view(&self) -> RealView {
        RealView {
            kind: self.kind,
            display: self.display@,
            scientific: self.scientific@,
            percent: self.percent@,
            full: self.full@,
        }
    }
}

/// The view of an optional number.
pub open spec fn opt_real(number: Option<Real>) -> Option<RealView> {
    match number {
        Some(inner) => Some(inner@),
        None => None,
    }
}

/// The views of the numbers of a vector.
pub open spec fn real_views(numbers: Seq<Real>) -> Seq<RealView> {
    Seq::new(numbers.len(), |i: int| numbers[i]@)
}

/// Zero.
pub open spec fn zero() -> RealView {
    RealView {
        kind: RealKind::Zero,
        display: "0"@,
        scientific: "0.000000e0"@,
        percent: "0.000%"@,
        full: "0"@,
    }
}

/// One.
pub open spec fn one() -> RealView {
    RealView {
        kind: RealKind::UpToOne,
        display: "1"@,
        scientific: "1.000000e0"@,
        percent: "100.000%"@,
        full: "1.0000000000000000e0"@,
    }
}

impl RealView {
    /// Neither infinite nor not a number.
    pub open spec fn finite(self) -> bool {
        self.kind != RealKind::NotFinite
    }

    /// Finite and above zero.
    pub open spec fn positive(self) -> bool {
        self.kind == RealKind::UpToOne || self.kind == RealKind::AboveOne
    }
}

impl Real {
    /// Zero.
    pub fn zero() -> (number: Real)
        ensures
            number@ == zero(),
    {
        Real {
            kind: RealKind::Zero,
            display: "0".to_string(),
            scientific: "0.000000e0".to_string(),
            percent: "0.000%".to_string(),
            full: "0".to_string(),
        }
    }

    /// One.
    pub fn one() -> (number: Real)
        ensures
            number@ == one(),
    {
        Real {
            kind: RealKind::UpToOne,
            display: "1".to_string(),
            scientific: "1.000000e0".to_string(),
            percent: "100.000%".to_string(),
            full: "1.0000000000000000e0".to_string(),
        }
    }

    /// The same number.
    pub fn copy(&self) -> (same: Real)
        ensures
            same@ == self@,
    {
        Real {
            kind: self.kind,
            display: self.display.clone(),
            scientific: self.scientific.clone(),
            percent: self.percent.clone(),
            full: self.full.clone(),
        }
    }

    /// Neither infinite nor not a number.
    pub fn is_finite(&self) -> (yes: bool)
        ensures
            yes == self@.finite(),
    {
        self.kind != RealKind::NotFinite
    }

    /// Finite and above zero.
    pub fn is_positive(&self) -> (yes: bool)
        ensures
            yes == self@.positive(),
    {
        self.kind == RealKind::UpToOne || self.kind == RealKind::AboveOne
    }
}

/// A copy of an optional number.
pub fn copy_opt(number: &Option<Real>) -> (same: Option<Real>)
    ensures
        opt_real(same) == opt_real(*number),
{
    match number {
        Some(inner) => Some(inner.copy()),
        None => None,
    }
}

/// What texts denote as numbers; a text that is not listed denotes none.
#[derive(Debug)]
pub struct Readings {
    entries: Vec<(String, Real)>,
}

/// The first listed number of `wanted`.
pub open spec fn listed(entries: Seq<(Seq<char>, RealView)>, wanted: Seq<char>) -> Option<RealView>
    decreases entries.len(),
{
    if entries.len() == 0 {
        None
    } else {
        match listed(entries.drop_last(), wanted) {
            Some(number) => Some(number),
            None => if entries.last().0 == wanted {
                Some(entries.last().1)
            } else {
                None
            },
        }
    }
}

impl View for Readings {
    type V = Seq<(Seq<char>, RealView)>;

    closed spec fn view(&self) -> Seq<(Seq<char>, RealView)> {
        Seq::new(self.entries@.len(), |i: int| (self.entries@[i].0@, self.entries@[i].1@))
    }
}

impl Readings {
    /// What `wanted` denotes.
    pub open spec fn number(self, wanted: Seq<char>) -> Option<RealView> {
        listed(self@, wanted)
    }

    /// A list without texts.
    pub fn new() -> (readings: Readings)
        ensures
            readings@ == Seq::<(Seq<char>, RealView)>::empty(),
    {
        let readings = Readings { entries: Vec::new() };
        assert(readings@ =~= Seq::empty());
        readings
    }

    /// Lists what `wanted` denotes; what it was listed with before stays.
    pub fn list(&mut self, wanted: String, number: Real)
        ensures
            final(self)@ == old(self)@.push((wanted@, number@)),
    {
        self.entries.push((wanted, number));
        assert(self@ =~= old(self)@.push((wanted@, number@)));
    }

    /// What `wanted` denotes.
    pub fn read(&self, wanted: &str) -> (number: Option<Real>)
        ensures
            opt_real(number) == self.number(wanted@),
    {
        let ghost all = self@;
        let mut i: usize = 0;
        while i < self.entries.len()
            invariant
                i <= self.entries@.len(),
                all == self@,
                all.len() == self.entries@.len(),
                listed(all.take(i as int), wanted@) is None,
            decreases self.entries@.len() - i,
        {
            assert(all.take(i + 1).drop_last() =~= all.take(i as int));
            if text::text_eq(self.entries[i].0.as_str(), wanted) {
                proof {
                    lemma_listed_prefix(all, wanted@, i + 1);
                }
                return Some(self.entries[i].1.copy());
            }
            i += 1;
        }
        assert(all.take(i as int) =~= all);
        None
    }
}

proof fn lemma_listed_prefix(entries: Seq<(Seq<char>, RealView)>, wanted: Seq<char>, n: int)
    requires
        0 <= n <= entries.len(),
        listed(entries.take(n), wanted) is Some,
    ensures
        listed(entries, wanted) == listed(entries.take(n), wanted),
    decreases entries.len(),
{
    if n < entries.len() {
        assert(entries.drop_last().take(n) =~= entries.take(n));
        lemma_listed_prefix(entries.drop_last(), wanted, n);
    } else {
        assert(entries.take(n) =~= entries);
    }
}

} // verus!
