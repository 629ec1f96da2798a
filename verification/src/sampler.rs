use vstd::prelude::*;

verus! {

/// `rand::rngs::ThreadRng`, the handle to the random generator of the current
/// thread. It is carried through and handed to the calls below; nothing inside
/// it is read.
#[verifier::external_type_specification]
#[verifier::external_body]
pub struct ExThreadRng(rand::rngs::ThreadRng);

/// Calls `rand::thread_rng`, which hands out a handle to the generator of the
/// current thread. Nothing is claimed of the handle.
#[verifier::external_body]
fn thread_generator() -> (rng: rand::rngs::ThreadRng) {
    rand::thread_rng()
}

/// Calls `rand::Rng::gen_range` with the bounds 0 and `bound`. The method
/// documents a value in the half-open range from the low to the high bound and
/// a panic unless the low bound is below the high one: hence the `requires`,
/// and the claim that the result is below `bound`.
#[verifier::external_body]
fn generator_below(rng: &mut rand::rngs::ThreadRng, bound: u64) -> (r: u64)
    requires
        bound > 0,
    ensures
        r < bound,
{
    rand::Rng::gen_range(rng, 0u64, bound)
}

/// Calls `rand::Rng::gen` for a `bool`. Nothing is claimed of the result.
#[verifier::external_body]
fn generator_flag(rng: &mut rand::rngs::ThreadRng) -> (r: bool) {
    rand::Rng::gen::<bool>(rng)
}

/// The source of all draws of a simulation.
///
/// With an empty script the draws come from the thread's random generator,
/// and only such a sampler holds one.
/// With a script they are its values, taken in turn and cyclically, each reduced
/// to the range that was asked for; such a sampler makes a run repeatable.
pub struct Sampler {
    rng: Option<rand::rngs::ThreadRng>,
    script: Vec<u64>,
    cursor: usize,
}

impl Sampler {
    /// The scripted values; empty for a random sampler.
    pub closed spec fn script(&self) -> Seq<u64> {
        self.script@
    }

    /// The position in the script of the next draw.
    pub closed spec fn cursor(&self) -> nat {
        self.cursor as nat
    }

    /// The cursor lies within the script, if there is one; a sampler without
    /// a script holds a random generator.
    pub closed spec fn wf(&self) -> bool {
        if self.script@.len() == 0 {
            self.rng is Some
        } else {
            self.cursor < self.script@.len()
        }
    }

    /// The position that follows `cursor` in a script of `len` values.
    pub open spec fn following(cursor: nat, len: nat) -> nat {
        if cursor + 1 < len {
            cursor + 1
        } else {
            0
        }
    }

    /// The position that is `steps` draws after `cursor` in a script of `len`
    /// values.
    pub open spec fn ahead(cursor: nat, len: nat, steps: nat) -> nat
        decreases steps,
    {
        if steps == 0 {
            cursor
        } else {
            Self::following(Self::ahead(cursor, len, (steps - 1) as nat), len)
        }
    }

    /// The next `count` draws below `bound` that a sampler with this script
    /// hands out from `cursor` on.
    pub open spec fn replay(script: Seq<u64>, cursor: nat, count: nat, bound: u64) -> Seq<u64> {
        Seq::new(
            count,
            |i: int| (script[Self::ahead(cursor, script.len(), i as nat) as int] % bound) as u64,
        )
    }

    /// Decides `wf`.
    pub fn valid(&self) -> (r: bool)
        ensures
            r == self.wf(),
    {
        if self.script.len() == 0 {
            self.rng.is_some()
        } else {
            self.cursor < self.script.len()
        }
    }

    /// A sampler that draws from the thread's random generator: it has no
    /// script, and its cursor stands at the start.
    pub fn random() -> (r: Sampler)
        ensures
            r.wf(),
            r.script() == Seq::<u64>::empty(),
            r.cursor() == 0,
    {
        Sampler { rng: Some(thread_generator()), script: Vec::new(), cursor: 0 }
    }

    /// A sampler that replays `script`; an empty script gives a random sampler.
    pub fn scripted(script: Vec<u64>) -> (r: Sampler)
        ensures
            r.wf(),
            r.script() == script@,
            r.cursor() == 0,
    {
        if script.len() == 0 {
            Sampler { rng: Some(thread_generator()), script, cursor: 0 }
        } else {
            Sampler { rng: None, script, cursor: 0 }
        }
    }

    fn advance(&mut self) -> (value: u64)
        requires
            old(self).wf(),
            old(self).script().len() > 0,
        ensures
            final(self).wf(),
            final(self).script() == old(self).script(),
            value == old(self).script()[old(self).cursor() as int],
            final(self).cursor() == Self::following(old(self).cursor(), old(self).script().len()),
    {
        let value: u64 = self.script[self.cursor];
        if self.cursor < self.script.len() - 1 {
            self.cursor = self.cursor + 1;
        } else {
            self.cursor = 0;
        }
        value
    }

    /// A draw in `[0, bound)`.
    pub fn below(&mut self, bound: u64) -> (r: u64)
        requires
            old(self).wf(),
            bound > 0,
        ensures
            final(self).wf(),
            final(self).script() == old(self).script(),
            r < bound,
            old(self).script().len() > 0 ==> {
                &&& r == old(self).script()[old(self).cursor() as int] % bound
                &&& final(self).cursor() == Self::following(
                    old(self).cursor(),
                    old(self).script().len(),
                )
            },
            old(self).script().len() == 0 ==> final(self).cursor() == old(self).cursor(),
    {
        if self.script.len() > 0 {
            let value: u64 = self.advance();
            value % bound
        } else {
            match &mut self.rng {
                Some(rng) => generator_below(rng, bound),
                None => {
                    assert(false);
                    0
                },
            }
        }
    }

    /// A draw of a flag: true on the odd values of a script.
    pub fn flip(&mut self) -> (r: bool)
        requires
            old(self).wf(),
        ensures
            final(self).wf(),
            final(self).script() == old(self).script(),
            old(self).script().len() > 0 ==> {
                &&& r == (old(self).script()[old(self).cursor() as int] % 2 == 1)
                &&& final(self).cursor() == Self::following(
                    old(self).cursor(),
                    old(self).script().len(),
                )
            },
            old(self).script().len() == 0 ==> final(self).cursor() == old(self).cursor(),
    {
        if self.script.len() > 0 {
            let value: u64 = self.advance();
            value % 2 == 1
        } else {
            match &mut self.rng {
                Some(rng) => generator_flag(rng),
                None => {
                    assert(false);
                    false
                },
            }
        }
    }
}

/// The cursor goes round the script: `steps` draws after `cursor` it stands at
/// the remainder of their sum by the length of the script.
pub proof fn lemma_ahead_goes_round(cursor: nat, len: nat, steps: nat)
    requires
        cursor < len,
    ensures
        Sampler::ahead(cursor, len, steps) == (cursor + steps) % len,
    decreases steps,
{
    let m = len as int;
    if steps == 0 {
        vstd::arithmetic::div_mod::lemma_fundamental_div_mod_converse(cursor as int, m, 0, cursor as int);
    } else {
        lemma_ahead_goes_round(cursor, len, (steps - 1) as nat);
        let a = (cursor + steps - 1) as int;
        let q = a / m;
        let r = a % m;
        vstd::arithmetic::div_mod::lemma_fundamental_div_mod(a, m);
        vstd::arithmetic::div_mod::lemma_mod_pos_bound(a, m);
        assert(m * q == q * m) by (nonlinear_arith);
        if r + 1 < m {
            vstd::arithmetic::div_mod::lemma_fundamental_div_mod_converse(a + 1, m, q, r + 1);
        } else {
            assert((q + 1) * m == q * m + m) by (nonlinear_arith);
            vstd::arithmetic::div_mod::lemma_fundamental_div_mod_converse(a + 1, m, q + 1, 0);
        }
    }
}

} // verus!
