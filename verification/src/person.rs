use vstd::prelude::*;

verus! {

/// One individual of the population, tagged by its compartment.
#[derive(Clone, Copy, Debug, PartialEq, Eq, Structural)]
pub enum Person {
    /// At risk of contracting the disease.
    Susceptible,
    /// Able to transmit the disease: hours counted so far, whether the
    /// individual is about to leave the compartment, whether it is hospitalised.
    Infectious(u32, bool, bool),
    /// Infected but not yet infectious: hours since exposure.
    Exposed(u32),
    /// Immune.
    Resistant,
    /// Terminal.
    Dead,
}

impl Person {
    /// The hours counted for this individual; zero where the variant counts none.
    pub open spec fn elapsed(self) -> nat {
        match self {
            Person::Infectious(t, _, _) => t as nat,
            Person::Exposed(t) => t as nat,
            _ => 0,
        }
    }

    /// An infectious individual that is lying in hospital.
    pub open spec fn hospitalised(self) -> bool {
        match self {
            Person::Infectious(_, _, h) => h,
            _ => false,
        }
    }

    /// An infectious individual that is not marked for removal.
    pub open spec fn settled_infectious(self) -> bool {
        match self {
            Person::Infectious(_, pending, _) => !pending,
            _ => false,
        }
    }
}

/// Every member is `Susceptible`.
pub open spec fn all_susceptible(s: Seq<Person>) -> bool {
    forall|i: int| 0 <= i < s.len() ==> s[i] == Person::Susceptible
}

/// Every member is `Exposed`.
pub open spec fn all_exposed(s: Seq<Person>) -> bool {
    forall|i: int| 0 <= i < s.len() ==> (#[trigger] s[i]) is Exposed
}

/// Every member is `Infectious` and none is marked for removal.
pub open spec fn all_infectious(s: Seq<Person>) -> bool {
    forall|i: int| 0 <= i < s.len() ==> (#[trigger] s[i]).settled_infectious()
}

/// Every member is `Resistant`.
pub open spec fn all_resistant(s: Seq<Person>) -> bool {
    forall|i: int| 0 <= i < s.len() ==> s[i] == Person::Resistant
}

/// Every member is `Dead`.
pub open spec fn all_dead(s: Seq<Person>) -> bool {
    forall|i: int| 0 <= i < s.len() ==> s[i] == Person::Dead
}

/// `count` copies of one individual.
pub open spec fn copies(p: Person, count: nat) -> Seq<Person> {
    Seq::new(count, |i: int| p)
}

/// Decides whether every member of `s` is `p`.
pub fn check_uniform(s: &Vec<Person>, p: Person) -> (r: bool)
    ensures
        r == (forall|i: int| 0 <= i < s@.len() ==> s@[i] == p),
{
    let mut i: usize = 0;
    while i < s.len()
        invariant
            i <= s.len(),
            forall|k: int| 0 <= k < i ==> s@[k] == p,
        decreases s.len() - i,
    {
        if s[i] != p {
            return false;
        }
        i = i + 1;
    }
    true
}

/// Decides `all_exposed`.
pub fn check_all_exposed(s: &Vec<Person>) -> (r: bool)
    ensures
        r == all_exposed(s@),
{
    let mut i: usize = 0;
    while i < s.len()
        invariant
            i <= s.len(),
            forall|k: int| 0 <= k < i ==> (#[trigger] s@[k]) is Exposed,
        decreases s.len() - i,
    {
        match s[i] {
            Person::Exposed(_) => {},
            _ => {
                assert(!(s@[i as int] is Exposed));
                return false;
            },
        }
        i = i + 1;
    }
    true
}

/// Decides `all_infectious`.
pub fn check_all_infectious(s: &Vec<Person>) -> (r: bool)
    ensures
        r == all_infectious(s@),
{
    let mut i: usize = 0;
    while i < s.len()
        invariant
            i <= s.len(),
            forall|k: int| 0 <= k < i ==> (#[trigger] s@[k]).settled_infectious(),
        decreases s.len() - i,
    {
        match s[i] {
            Person::Infectious(_, false, _) => {},
            _ => {
                assert(!s@[i as int].settled_infectious());
                return false;
            },
        }
        i = i + 1;
    }
    true
}

} // verus!
