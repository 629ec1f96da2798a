use vstd::prelude::*;
use crate::chance::{Chance, UNIT};
use crate::engine::{
    can_age, can_age_in_hospital, check_can_age, check_can_age_in_hospital, decease, in_range,
    incubate, lemma_hits_never, lemma_incubation, lemma_incubation_count,
    lemma_relapses_never, newly_infectious, remaining, relapses, spread, spread_by,
    spread_of, still_incubating, survived_by, survivors, treat, treat_replay, treated_by, Spread,
    Treatment,
};
use crate::person::{
    all_dead, all_exposed, all_infectious, all_resistant, all_susceptible, check_all_exposed,
    check_all_infectious, check_uniform, copies, Person,
};
use crate::sampler::Sampler;

verus! {

/// The hours that one cycle advances the clock by.
pub const HOURS_PER_CYCLE: u32 = 24;

/// The draws of one cycle, by their use.
pub ghost struct Draws {
    /// For each infectious turn, the number of its contacts.
    pub contacts: Seq<u64>,
    /// For each contact that met a susceptible individual, whether it infects.
    pub infections: Seq<u64>,
    /// For each infectious individual, its admission or its cure.
    pub cures: Seq<u64>,
    /// For each infectious individual, whether it relapses if cured.
    pub relapses: Seq<u64>,
    /// For each individual that treatment left infectious, whether it dies.
    pub fates: Seq<u64>,
}

/// The state of one epidemic: the five compartments, the parameters of the
/// disease, the clock and the running statistics.
pub struct Simulation {
    pub susceptible: Vec<Person>,
    pub exposed: Vec<Person>,
    pub infected: Vec<Person>,
    pub resistant: Vec<Person>,
    pub dead: Vec<Person>,
    /// The source of every draw.
    pub random: Sampler,
    /// One more than the number of infectious turns counted so far.
    pub n: u64,
    /// The infections that those turns caused, all together.
    pub infections: u64,
    /// Hours per cycle.
    pub time_delta: u32,
    /// Hours since the start of the simulation.
    pub time_since_start: usize,
    /// The chance that a contact infects a susceptible individual.
    pub infectivity: Chance,
    /// The most contacts that an infectious individual has in one cycle.
    pub contact_no: usize,
    /// Hours after which an exposed individual becomes infectious.
    pub incubation_period: u64,
    /// The chance per cycle that an infectious individual dies.
    pub fatality_rate: Chance,
    /// Hours after which a hospitalised individual can be cured.
    pub avg_hospitalisation_period: u64,
    /// The chance that a cured individual gains no immunity.
    pub reinfection_rate: Chance,
    /// The chance per cycle that a curable individual is cured.
    pub curabilty: Chance,
    /// The chance per cycle that an infectious individual is hospitalised.
    pub hospitalisation_rate: Chance,
    /// Infections of the last cycle.
    pub daily_infections: usize,
    /// Deaths of the last cycle.
    pub daily_deaths: usize,
}

impl Simulation {
    /// Every individual lies in the compartment of its variant, no infectious
    /// one is marked for removal, and the parameters are in their ranges.
    pub open spec fn wf(&self) -> bool {
        &&& all_susceptible(self.susceptible@)
        &&& all_exposed(self.exposed@)
        &&& all_infectious(self.infected@)
        &&& all_resistant(self.resistant@)
        &&& all_dead(self.dead@)
        &&& self.random.wf()
        &&& self.n >= 1
        &&& self.time_delta > 0
        &&& self.contact_no < usize::MAX
        &&& self.infectivity.wf()
        &&& self.fatality_rate.wf()
        &&& self.reinfection_rate.wf()
        &&& self.curabilty.wf()
        &&& self.hospitalisation_rate.wf()
    }

    /// The size of the whole population, the dead included.
    pub open spec fn population(&self) -> nat {
        self.susceptible@.len() + self.exposed@.len() + self.infected@.len()
            + self.resistant@.len() + self.dead@.len()
    }

    /// The number of infectious turns counted so far.
    pub open spec fn turns(&self) -> nat {
        if self.n >= 1 {
            (self.n - 1) as nat
        } else {
            0
        }
    }

    /// The next cycle overflows no counter: the clock, the hours of each
    /// individual that will count some, and the two sums behind the
    /// reproduction number.
    pub open spec fn steppable(&self) -> bool {
        &&& self.time_since_start + self.time_delta <= usize::MAX
        &&& can_age(self.exposed@, self.time_delta)
        &&& can_age_in_hospital(self.infected@, self.time_delta)
        &&& self.n + self.infected@.len() <= u64::MAX
        &&& self.infections + self.susceptible@.len() <= u64::MAX
    }

    /// The two states have the same parameters and the same script of draws.
    pub open spec fn same_parameters(&self, other: &Simulation) -> bool {
        &&& self.time_delta == other.time_delta
        &&& self.infectivity == other.infectivity
        &&& self.contact_no == other.contact_no
        &&& self.incubation_period == other.incubation_period
        &&& self.fatality_rate == other.fatality_rate
        &&& self.avg_hospitalisation_period == other.avg_hospitalisation_period
        &&& self.reinfection_rate == other.reinfection_rate
        &&& self.curabilty == other.curabilty
        &&& self.hospitalisation_rate == other.hospitalisation_rate
        &&& self.random.script() == other.random.script()
    }

    /// `self` is what one cycle makes of `before` when the sampler hands out
    /// the draws `d`.
    pub open spec fn follows(&self, before: &Simulation, d: Draws) -> bool {
        let delta = before.time_delta;
        let exposed_then = before.exposed@ + copies(
            Person::Exposed(0),
            self.daily_infections as nat,
        );
        let staying = still_incubating(exposed_then, delta, before.incubation_period);
        let infected_then = before.infected@ + newly_infectious(
            exposed_then,
            delta,
            before.incubation_period,
        );
        let treated = remaining(
            infected_then,
            delta,
            before.avg_hospitalisation_period,
            d.cures,
            before.curabilty,
            before.hospitalisation_rate,
        );
        let cured = infected_then.len() - treated.len();
        let relapsed = relapses(
            infected_then,
            delta,
            before.avg_hospitalisation_period,
            d.cures,
            d.relapses,
            before.curabilty,
            before.hospitalisation_rate,
            before.reinfection_rate,
        );
        &&& self.same_parameters(before)
        &&& self.time_since_start == before.time_since_start + delta
        &&& self.n >= before.n
        &&& spread_by(
            before.susceptible@.len(),
            before.infected@.len(),
            before.contact_no as nat,
            before.infectivity,
            d.contacts,
            d.infections,
            self.daily_infections as nat,
            (self.n - before.n) as nat,
        )
        &&& self.infections == before.infections + self.daily_infections
        &&& d.cures.len() == infected_then.len()
        &&& d.relapses.len() == infected_then.len()
        &&& d.fates.len() == treated.len()
        &&& in_range(d.cures)
        &&& in_range(d.relapses)
        &&& in_range(d.fates)
        &&& self.daily_infections <= before.susceptible@.len()
        &&& self.susceptible@ == copies(
            Person::Susceptible,
            (before.susceptible@.len() - self.daily_infections) as nat,
        )
        &&& relapsed <= cured
        &&& self.exposed@ == staying + copies(Person::Exposed(0), relapsed)
        &&& self.resistant@ == before.resistant@ + copies(
            Person::Resistant,
            (cured - relapsed) as nat,
        )
        &&& self.infected@ == survivors(treated, d.fates, before.fatality_rate)
        &&& self.daily_deaths == treated.len() - self.infected@.len()
        &&& self.dead@ == before.dead@ + copies(Person::Dead, self.daily_deaths as nat)
    }

    /// `self` is what one cycle makes of `before` when its sampler replays a
    /// script: the draws are those that the script gives from the cursor on, in
    /// the order in which the phases take them, and the cursor ends behind the
    /// last.
    pub open spec fn replays(&self, before: &Simulation) -> bool {
        let script = before.random.script();
        let delta = before.time_delta;
        let pass = spread_of(
            before.susceptible@.len(),
            before.infected@.len(),
            before.contact_no as nat,
            before.infectivity,
            script,
            before.random.cursor(),
        );
        let exposed_then = before.exposed@ + copies(Person::Exposed(0), pass.0);
        let infected_then = before.infected@ + newly_infectious(
            exposed_then,
            delta,
            before.incubation_period,
        );
        let cure = treat_replay(
            infected_then,
            delta,
            before.avg_hospitalisation_period,
            before.curabilty,
            before.hospitalisation_rate,
            script,
            pass.2,
        );
        let treated = remaining(
            infected_then,
            delta,
            before.avg_hospitalisation_period,
            cure.1,
            before.curabilty,
            before.hospitalisation_rate,
        );
        let fates = Sampler::replay(script, cure.0, treated.len(), UNIT);
        &&& self.daily_infections == pass.0
        &&& self.n == before.n + pass.1
        &&& exists|contacts: Seq<u64>, infections: Seq<u64>|
            self.follows(
                before,
                (Draws { contacts, infections, cures: cure.1, relapses: cure.2, fates }),
            )
        &&& self.random.cursor() == Sampler::ahead(cure.0, script.len(), treated.len())
    }

    /// Susceptible, exposed and infectious are all empty.
    pub open spec fn is_extinguished(&self) -> bool {
        self.susceptible@.len() == 0 && self.exposed@.len() == 0 && self.infected@.len() == 0
    }

    /// A population of `population` individuals, `infected` of them infectious
    /// and the others susceptible, at hour zero. Whether an infectious one
    /// starts in hospital is drawn from `random`, one flag each.
    pub fn with_infected(
        population: usize,
        infected: usize,
        infectivity: Chance,
        contact_no: usize,
        incubation_period: u64,
        fatality_rate: Chance,
        avg_hospitalisation_period: u64,
        reinfection_rate: Chance,
        curabilty: Chance,
        hospitalisation_rate: Chance,
        random: Sampler,
    ) -> (r: Simulation)
        requires
            infected <= population,
            contact_no < usize::MAX,
            random.wf(),
            infectivity.wf(),
            fatality_rate.wf(),
            reinfection_rate.wf(),
            curabilty.wf(),
            hospitalisation_rate.wf(),
        ensures
            r.wf(),
            infected < usize::MAX ==> r.steppable(),
            r.susceptible@ == copies(Person::Susceptible, (population - infected) as nat),
            r.infected@.len() == infected,
            forall|i: int|
                0 <= i < infected ==> (#[trigger] r.infected@[i]).elapsed() == 0
                    && r.infected@[i].settled_infectious(),
            r.exposed@.len() == 0,
            r.resistant@.len() == 0,
            r.dead@.len() == 0,
            r.population() == population,
            r.n == 1,
            r.infections == 0,
            r.time_delta == HOURS_PER_CYCLE,
            r.time_since_start == 0,
            r.daily_infections == 0,
            r.daily_deaths == 0,
            r.infectivity == infectivity,
            r.contact_no == contact_no,
            r.incubation_period == incubation_period,
            r.fatality_rate == fatality_rate,
            r.avg_hospitalisation_period == avg_hospitalisation_period,
            r.reinfection_rate == reinfection_rate,
            r.curabilty == curabilty,
            r.hospitalisation_rate == hospitalisation_rate,
            r.random.script() == random.script(),
            random.script().len() > 0 ==> {
                &&& forall|j: int|
                    0 <= j < infected ==> #[trigger] r.infected@[j] == Person::Infectious(
                        0,
                        false,
                        random.script()[Sampler::ahead(
                            random.cursor(),
                            random.script().len(),
                            j as nat,
                        ) as int] % 2 == 1,
                    )
                &&& r.random.cursor() == Sampler::ahead(
                    random.cursor(),
                    random.script().len(),
                    infected as nat,
                )
            },
            random.script().len() == 0 ==> r.random.cursor() == random.cursor(),
    {
        let ghost start = random.cursor();
        let mut random = random;
        let ghost script = random.script();
        let mut susceptible: Vec<Person> = Vec::new();
        let healthy: usize = population - infected;
        let mut i: usize = 0;
        while i < healthy
            invariant
                i <= healthy,
                susceptible@ =~= copies(Person::Susceptible, i as nat),
            decreases healthy - i,
        {
            susceptible.push(Person::Susceptible);
            i = i + 1;
        }
        let mut ill: Vec<Person> = Vec::new();
        let mut j: usize = 0;
        while j < infected
            invariant
                j <= infected,
                ill@.len() == j,
                random.wf(),
                random.script() == script,
                script.len() == 0 ==> random.cursor() == start,
                script.len() > 0 ==> random.cursor() == Sampler::ahead(
                    start,
                    script.len(),
                    j as nat,
                ),
                script.len() > 0 ==> forall|k: int|
                    0 <= k < j ==> #[trigger] ill@[k] == Person::Infectious(
                        0,
                        false,
                        script[Sampler::ahead(start, script.len(), k as nat) as int] % 2 == 1,
                    ),
                forall|k: int|
                    0 <= k < j ==> (#[trigger] ill@[k]).elapsed() == 0
                        && ill@[k].settled_infectious(),
            decreases infected - j,
        {
            let hospitalised: bool = random.flip();
            ill.push(Person::Infectious(0, false, hospitalised));
            j = j + 1;
        }
        Simulation {
            susceptible,
            exposed: Vec::new(),
            infected: ill,
            resistant: Vec::new(),
            dead: Vec::new(),
            random,
            n: 1,
            infections: 0,
            time_delta: HOURS_PER_CYCLE,
            time_since_start: 0,
            infectivity,
            contact_no,
            incubation_period,
            fatality_rate,
            avg_hospitalisation_period,
            reinfection_rate,
            curabilty,
            hospitalisation_rate,
            daily_infections: 0,
            daily_deaths: 0,
        }
    }

    /// A wholly susceptible population of `population_size` individuals at hour
    /// zero, with a random sampler.
    pub fn new(
        population_size: usize,
        infectivity: Chance,
        contact_no: usize,
        incubation_period: u64,
        fatality_rate: Chance,
        avg_hospitalisation_period: u64,
        reinfection_rate: Chance,
        curabilty: Chance,
        hospitalisation_rate: Chance,
    ) -> (r: Simulation)
        requires
            contact_no < usize::MAX,
            infectivity.wf(),
            fatality_rate.wf(),
            reinfection_rate.wf(),
            curabilty.wf(),
            hospitalisation_rate.wf(),
        ensures
            r.wf(),
            r.steppable(),
            r.susceptible@ == copies(Person::Susceptible, population_size as nat),
            r.exposed@.len() == 0,
            r.infected@.len() == 0,
            r.resistant@.len() == 0,
            r.dead@.len() == 0,
            r.n == 1,
            r.infections == 0,
            r.time_delta == HOURS_PER_CYCLE,
            r.time_since_start == 0,
            r.daily_infections == 0,
            r.daily_deaths == 0,
            r.infectivity == infectivity,
            r.contact_no == contact_no,
            r.incubation_period == incubation_period,
            r.fatality_rate == fatality_rate,
            r.avg_hospitalisation_period == avg_hospitalisation_period,
            r.reinfection_rate == reinfection_rate,
            r.curabilty == curabilty,
            r.hospitalisation_rate == hospitalisation_rate,
            r.random.script().len() == 0,
    {
        Simulation::with_infected(
            population_size,
            0,
            infectivity,
            contact_no,
            incubation_period,
            fatality_rate,
            avg_hospitalisation_period,
            reinfection_rate,
            curabilty,
            hospitalisation_rate,
            Sampler::random(),
        )
    }

    /// Advances the whole population by one time step: contacts and infections,
    /// incubation, treatment, mortality, in this order.
    #[verifier::rlimit(40)]
    pub fn cycle(&mut self)
        requires
            old(self).wf(),
            old(self).steppable(),
        ensures
            final(self).wf(),
            final(self).same_parameters(old(self)),
            exists|d: Draws| final(self).follows(old(self), d),
            old(self).random.script().len() > 0 ==> final(self).replays(old(self)),
            final(self).population() == old(self).population(),
            final(self).time_since_start == old(self).time_since_start + old(self).time_delta,
            final(self).time_since_start > old(self).time_since_start,
            final(self).dead@ == old(self).dead@ + copies(
                Person::Dead,
                final(self).daily_deaths as nat,
            ),
            final(self).dead@.len() >= old(self).dead@.len(),
            final(self).susceptible@.len() + final(self).daily_infections == old(self).susceptible@.len(),
            final(self).resistant@.len() >= old(self).resistant@.len(),
            final(self).infections == old(self).infections + final(self).daily_infections,
            final(self).n <= old(self).n + old(self).infected@.len(),
            final(self).n >= old(self).n,
            old(self).infected@.len() > 0 ==> final(self).n > old(self).n,
            old(self).contact_no == 0 ==> final(self).n == old(self).n + old(self).infected@.len(),
            old(self).susceptible@.len() == 0 ==> final(self).daily_infections == 0 && final(self).infections == old(self).infections,
            old(self).infectivity.is_never() ==> final(self).daily_infections == 0 && final(
                self).susceptible@ == old(self).susceptible@,
            old(self).fatality_rate.is_never() ==> final(self).daily_deaths == 0,
            old(self).curabilty.is_never() ==> final(self).resistant@ == old(self).resistant@,
            forall|i: int|
                0 <= i < final(self).exposed@.len() ==> (#[trigger] final(self).exposed@[i]).elapsed()
                    == 0 || final(self).exposed@[i].elapsed() < old(self).incubation_period,
    {
        let ghost before = *self;
        self.daily_deaths = 0;
        self.daily_infections = 0;
        self.time_since_start = self.time_since_start + self.time_delta as usize;

        let turns: usize = self.infected.len();
        let ghost available = self.susceptible@.len();
        let spreading: Spread = spread(
            &mut self.susceptible,
            &mut self.exposed,
            turns,
            self.contact_no,
            self.infectivity,
            &mut self.random,
        );
        let ghost (contacts, infections) = choose|c: Seq<u64>, d: Seq<u64>|
            spread_by(
                available,
                turns as nat,
                self.contact_no as nat,
                self.infectivity,
                c,
                d,
                spreading.infections as nat,
                spreading.turns as nat,
            );
        self.daily_infections = spreading.infections;
        self.infections = self.infections + spreading.infections as u64;
        self.n = self.n + spreading.turns as u64;

        let ghost exposed_then = self.exposed@;
        let ghost infected_then = self.infected@;
        proof {
            lemma_incubation(exposed_then, self.time_delta, self.incubation_period);
            lemma_incubation_count(exposed_then, self.time_delta, self.incubation_period);
        }
        incubate(&mut self.exposed, &mut self.infected, self.time_delta, self.incubation_period);

        let ghost infected_mid = self.infected@;
        let ghost cursor_mid = self.random.cursor();
        let treatment: Treatment = treat(
            &mut self.infected,
            &mut self.exposed,
            &mut self.resistant,
            self.time_delta,
            self.avg_hospitalisation_period,
            self.curabilty,
            self.reinfection_rate,
            self.hospitalisation_rate,
            &mut self.random,
        );
        let ghost treated = self.infected@;
        let ghost cursor_late = self.random.cursor();
        let ghost (cures, relapsing) = choose|d: Seq<u64>, e: Seq<u64>|
            treated_by(
                infected_mid,
                treated,
                treatment.reinfected as nat,
                self.time_delta,
                self.avg_hospitalisation_period,
                d,
                e,
                self.curabilty,
                self.hospitalisation_rate,
                self.reinfection_rate,
            );
        let deaths: usize = decease(
            &mut self.infected,
            &mut self.dead,
            self.fatality_rate,
            &mut self.random,
        );
        self.daily_deaths = deaths;
        proof {
            let fates = choose|d: Seq<u64>|
                survived_by(treated, self.infected@, d, self.fatality_rate);
            assert(self.susceptible@ =~= copies(
                Person::Susceptible,
                (before.susceptible@.len() - self.daily_infections) as nat,
            ));
            if before.infectivity.is_never() {
                assert(self.susceptible@ =~= before.susceptible@);
            }
            let d = Draws { contacts, infections, cures, relapses: relapsing, fates };
            assert(self.follows(&before, d));
            let script = before.random.script();
            if script.len() > 0 {
                let cure = treat_replay(
                    infected_mid,
                    before.time_delta,
                    before.avg_hospitalisation_period,
                    before.curabilty,
                    before.hospitalisation_rate,
                    script,
                    cursor_mid,
                );
                let replayed = Draws {
                    contacts,
                    infections,
                    cures: cure.1,
                    relapses: cure.2,
                    fates: Sampler::replay(script, cursor_late, treated.len(), UNIT),
                };
                assert(self.follows(&before, replayed));
                let pass = spread_of(
                    before.susceptible@.len(),
                    before.infected@.len(),
                    before.contact_no as nat,
                    before.infectivity,
                    script,
                    before.random.cursor(),
                );
                assert(pass.0 == self.daily_infections && pass.2 == cursor_mid);
                assert(exposed_then == before.exposed@ + copies(Person::Exposed(0), pass.0));
                assert(infected_mid == before.infected@ + newly_infectious(
                    exposed_then,
                    before.time_delta,
                    before.incubation_period,
                ));
                assert(treated == remaining(
                    infected_mid,
                    before.time_delta,
                    before.avg_hospitalisation_period,
                    cure.1,
                    before.curabilty,
                    before.hospitalisation_rate,
                ));
                assert(cursor_late == cure.0);
                assert(self.replays(&before));
            }
        }
    }

    /// Decides whether the next cycle can run without overflowing a counter.
    pub fn can_cycle(&self) -> (r: bool)
        ensures
            r == self.steppable(),
    {
        if self.time_since_start > usize::MAX - self.time_delta as usize {
            return false;
        }
        if self.infected.len() as u64 > u64::MAX - self.n {
            return false;
        }
        if self.susceptible.len() as u64 > u64::MAX - self.infections {
            return false;
        }
        check_can_age(&self.exposed, self.time_delta) && check_can_age_in_hospital(
            &self.infected,
            self.time_delta,
        )
    }

    /// Decides `wf`.
    pub fn valid(&self) -> (r: bool)
        ensures
            r == self.wf(),
    {
        check_uniform(&self.susceptible, Person::Susceptible) && check_all_exposed(&self.exposed)
            && check_all_infectious(&self.infected) && check_uniform(
            &self.resistant,
            Person::Resistant,
        ) && check_uniform(&self.dead, Person::Dead) && self.random.valid() && self.n >= 1
            && self.time_delta > 0 && self.contact_no < usize::MAX && self.infectivity.valid()
            && self.fatality_rate.valid() && self.reinfection_rate.valid()
            && self.curabilty.valid() && self.hospitalisation_rate.valid()
    }

    /// Runs one cycle if the state is well formed and no counter would
    /// overflow, and says whether it did; otherwise the state stays as it is.
    pub fn try_cycle(&mut self) -> (r: bool)
        ensures
            r == (old(self).wf() && old(self).steppable()),
            r ==> final(self).wf(),
            r ==> exists|d: Draws| final(self).follows(old(self), d),
            r && old(self).random.script().len() > 0 ==> final(self).replays(old(self)),
            old(self).wf() ==> final(self).wf(),
            final(self).same_parameters(old(self)),
            r ==> final(self).time_since_start == old(self).time_since_start + old(
                self).time_delta && final(self).time_since_start > old(self).time_since_start,
            r ==> final(self).dead@ == old(self).dead@ + copies(
                Person::Dead,
                final(self).daily_deaths as nat,
            ),
            final(self).susceptible@.len() <= old(self).susceptible@.len(),
            r ==> final(self).susceptible@.len() + final(self).daily_infections == old(
                self).susceptible@.len(),
            !r ==> *final(self) == *old(self),
            final(self).population() == old(self).population(),
            final(self).dead@.len() >= old(self).dead@.len(),
            final(self).time_since_start >= old(self).time_since_start,
    {
        if self.valid() && self.can_cycle() {
            self.cycle();
            true
        } else {
            false
        }
    }

    /// Whether the epidemic has ended: nobody is susceptible, exposed or
    /// infectious any more.
    pub fn extinguished(&self) -> (r: bool)
        ensures
            r == self.is_extinguished(),
    {
        self.susceptible.len() == 0 && self.exposed.len() == 0 && self.infected.len() == 0
    }

    /// Whole days on the clock.
    pub fn days(&self) -> (r: usize)
        ensures
            r == self.time_since_start / 24,
    {
        self.time_since_start / 24
    }

    /// The reproduction number as an exact ratio: the infections caused in all
    /// infectious turns so far, and the number of those turns. With no turn
    /// yet, the number is zero.
    pub fn brn(&self) -> (r: (u64, u64))
        ensures
            r.0 == self.infections,
            r.1 == self.turns(),
    {
        (self.infections, self.past_turns())
    }

    /// The number of infectious turns counted so far.
    pub fn past_turns(&self) -> (r: u64)
        ensures
            r == self.turns(),
    {
        if self.n >= 1 {
            self.n - 1
        } else {
            0
        }
    }
}

/// The population is closed: whatever is drawn, a cycle moves individuals
/// between the compartments and neither adds nor loses one; the dead stay
/// dead, and the clock moves on.
pub proof fn lemma_cycle_conserves(before: &Simulation, after: &Simulation, d: Draws)
    requires
        before.time_delta > 0,
        after.follows(before, d),
    ensures
        after.population() == before.population(),
        after.dead@.len() >= before.dead@.len(),
        after.susceptible@.len() <= before.susceptible@.len(),
        after.resistant@.len() >= before.resistant@.len(),
        after.time_since_start > before.time_since_start,
{
    let exposed_then = before.exposed@ + copies(Person::Exposed(0), after.daily_infections as nat);
    lemma_incubation_count(exposed_then, before.time_delta, before.incubation_period);
}

/// Without transmission and without relapse nobody is ever infected: whatever
/// is drawn, a cycle leaves the susceptible as they were, and with nobody
/// exposed before it, nobody is exposed after it. Such an epidemic does not end
/// while anyone is susceptible.
pub proof fn lemma_no_transmission(before: &Simulation, after: &Simulation, d: Draws)
    requires
        before.wf(),
        after.follows(before, d),
        before.infectivity.is_never(),
        before.reinfection_rate.is_never(),
        before.exposed@.len() == 0,
    ensures
        after.susceptible@ == before.susceptible@,
        after.exposed@.len() == 0,
        after.daily_infections == 0,
        after.infections == before.infections,
        before.susceptible@.len() > 0 ==> !after.is_extinguished(),
{
    lemma_hits_never(d.infections, before.infectivity);
    let exposed_then = before.exposed@ + copies(Person::Exposed(0), after.daily_infections as nat);
    assert(exposed_then =~= Seq::<Person>::empty());
    let infected_then = before.infected@ + newly_infectious(
        exposed_then,
        before.time_delta,
        before.incubation_period,
    );
    lemma_relapses_never(
        infected_then,
        before.time_delta,
        before.avg_hospitalisation_period,
        d.cures,
        d.relapses,
        before.curabilty,
        before.hospitalisation_rate,
        before.reinfection_rate,
    );
    assert(after.susceptible@ =~= before.susceptible@);
}

} // verus!
