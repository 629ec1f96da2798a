use epidemic_sim::chance::{Chance, UNIT};
use epidemic_sim::person::Person;
use epidemic_sim::sampler::Sampler;
use epidemic_sim::simulation::{Simulation, HOURS_PER_CYCLE};

fn half() -> Chance {
    Chance::from_threshold(UNIT / 2).unwrap()
}

fn population(sim: &Simulation) -> usize {
    sim.susceptible.len() + sim.exposed.len() + sim.infected.len() + sim.resistant.len()
        + sim.dead.len()
}

fn certain_outbreak() -> Simulation {
    Simulation::with_infected(
        10,
        1,
        Chance::certain(),
        10,
        0,
        Chance::never(),
        0,
        Chance::never(),
        Chance::certain(),
        Chance::certain(),
        Sampler::scripted(vec![9]),
    )
}

#[test]
fn scripted_outbreak_runs_its_course() {
    let mut sim = certain_outbreak();
    assert_eq!(sim.susceptible.len(), 9);
    assert_eq!(sim.infected.len(), 1);
    assert_eq!(sim.infected[0], Person::Infectious(0, false, true));

    assert!(sim.can_cycle());
    sim.cycle();
    assert_eq!(sim.susceptible.len(), 0);
    assert_eq!(sim.exposed.len(), 0);
    assert_eq!(sim.infected.len(), 9);
    assert_eq!(sim.resistant.len(), 1);
    assert_eq!(sim.dead.len(), 0);
    assert_eq!(sim.daily_infections, 9);
    assert_eq!(sim.daily_deaths, 0);
    assert_eq!(sim.brn(), (9, 1));
    assert_eq!(sim.time_since_start, 24);
    for p in sim.infected.iter() {
        assert_eq!(*p, Person::Infectious(24, false, true));
    }
    assert!(!sim.extinguished());

    sim.cycle();
    assert_eq!(sim.susceptible.len(), 0);
    assert_eq!(sim.exposed.len(), 0);
    assert_eq!(sim.infected.len(), 0);
    assert_eq!(sim.resistant.len(), 10);
    assert_eq!(sim.dead.len(), 0);
    assert_eq!(sim.daily_infections, 0);
    assert_eq!(sim.brn(), (9, 2));
    assert_eq!(sim.time_since_start, 48);
    assert!(sim.extinguished());
    assert_eq!(sim.days(), 2);

    sim.cycle();
    assert_eq!(sim.resistant.len(), 10);
    assert_eq!(sim.dead.len(), 0);
    assert_eq!(sim.brn(), (9, 2));
    assert_eq!(sim.time_since_start, 72);
}

#[test]
fn no_transmission_keeps_the_susceptible() {
    let mut sim = Simulation::with_infected(
        100,
        1,
        Chance::never(),
        5,
        48,
        half(),
        24,
        Chance::never(),
        half(),
        half(),
        Sampler::random(),
    );
    for _ in 0..200 {
        assert!(sim.try_cycle());
        assert_eq!(sim.susceptible.len(), 99);
        assert_eq!(sim.exposed.len(), 0);
        assert_eq!(sim.infected.len() + sim.resistant.len() + sim.dead.len(), 1);
        assert_eq!(sim.daily_infections, 0);
        assert!(!sim.extinguished());
    }
    assert_eq!(sim.brn().0, 0);
}

#[test]
fn population_is_conserved_and_time_advances() {
    let mut sim = Simulation::with_infected(
        500,
        5,
        half(),
        8,
        48,
        Chance::from_threshold(UNIT / 50).unwrap(),
        72,
        Chance::from_threshold(UNIT / 10).unwrap(),
        half(),
        half(),
        Sampler::random(),
    );
    let mut dead = 0;
    let mut hours = 0;
    let mut infections: u64 = 0;
    for _ in 0..300 {
        let susceptible = sim.susceptible.len();
        let turns = sim.brn().1;
        let infectious = sim.infected.len() as u64;
        assert!(sim.can_cycle());
        sim.cycle();
        hours += HOURS_PER_CYCLE as usize;
        assert_eq!(population(&sim), 500);
        assert_eq!(sim.time_since_start, hours);
        assert!(sim.dead.len() >= dead);
        assert_eq!(sim.dead.len() - dead, sim.daily_deaths);
        assert_eq!(susceptible - sim.susceptible.len(), sim.daily_infections);
        infections += sim.daily_infections as u64;
        assert_eq!(sim.brn().0, infections);
        assert!(sim.brn().1 <= turns + infectious);
        assert!(sim.susceptible.iter().all(|p| *p == Person::Susceptible));
        assert!(sim.exposed.iter().all(|p| matches!(p, Person::Exposed(_))));
        assert!(sim.infected.iter().all(|p| matches!(p, Person::Infectious(_, false, _))));
        assert!(sim.resistant.iter().all(|p| *p == Person::Resistant));
        assert!(sim.dead.iter().all(|p| *p == Person::Dead));
        assert!(sim.exposed.iter().all(|p| match p {
            Person::Exposed(t) => *t < 48,
            _ => false,
        }));
        dead = sim.dead.len();
    }
}

#[test]
fn no_susceptible_means_no_infection() {
    let mut sim = Simulation::with_infected(
        5,
        5,
        Chance::certain(),
        4,
        24,
        Chance::never(),
        1000,
        Chance::never(),
        Chance::never(),
        Chance::never(),
        Sampler::scripted(vec![3]),
    );
    sim.cycle();
    assert_eq!(sim.daily_infections, 0);
    assert_eq!(sim.exposed.len(), 0);
    assert_eq!(sim.infected.len(), 5);
    // The first infectious individual finds nobody and ends the pass.
    assert_eq!(sim.brn(), (0, 1));
}

#[test]
fn without_contacts_every_infectious_turn_is_counted() {
    let mut sim = Simulation::with_infected(
        5,
        5,
        Chance::certain(),
        0,
        24,
        Chance::never(),
        1000,
        Chance::never(),
        Chance::never(),
        Chance::never(),
        Sampler::random(),
    );
    sim.cycle();
    assert_eq!(sim.daily_infections, 0);
    assert_eq!(sim.brn(), (0, 5));
    sim.cycle();
    assert_eq!(sim.brn(), (0, 10));
}

#[test]
fn new_population_is_susceptible() {
    let mut sim = Simulation::new(
        7,
        half(),
        3,
        24,
        half(),
        24,
        half(),
        half(),
        half(),
    );
    assert_eq!(sim.susceptible.len(), 7);
    assert!(sim.susceptible.iter().all(|p| *p == Person::Susceptible));
    assert_eq!(population(&sim), 7);
    assert_eq!(sim.time_delta, 24);
    assert_eq!(sim.time_since_start, 0);
    assert_eq!(sim.brn(), (0, 0));
    assert!(!sim.extinguished());
    sim.cycle();
    assert_eq!(sim.susceptible.len(), 7);
    assert_eq!(sim.brn(), (0, 0));
    assert_eq!(sim.time_since_start, 24);
}

#[test]
fn empty_population_is_extinguished_at_once() {
    let sim = Simulation::new(
        0,
        half(),
        3,
        24,
        half(),
        24,
        half(),
        half(),
        half(),
    );
    assert!(sim.extinguished());
    assert_eq!(sim.days(), 0);
}

#[test]
fn a_full_clock_stops_the_cycle() {
    let mut sim = certain_outbreak();
    sim.time_since_start = usize::MAX - 23;
    assert!(!sim.can_cycle());
    assert!(!sim.try_cycle());
    assert_eq!(sim.time_since_start, usize::MAX - 23);
    assert_eq!(sim.susceptible.len(), 9);
    assert_eq!(sim.infected.len(), 1);
    sim.time_since_start = usize::MAX - 24;
    assert!(sim.can_cycle());
}

#[test]
fn full_personal_counters_stop_the_cycle() {
    let mut sim = certain_outbreak();
    sim.exposed.push(Person::Exposed(u32::MAX - 23));
    assert!(!sim.can_cycle());
    sim.exposed[0] = Person::Exposed(u32::MAX - 24);
    assert!(sim.can_cycle());
    sim.infected.push(Person::Infectious(u32::MAX, false, false));
    assert!(sim.can_cycle());
    sim.infected.push(Person::Infectious(u32::MAX, false, true));
    assert!(!sim.can_cycle());
}

#[test]
fn rendering_is_repeatable_and_exact() {
    let mut sim = certain_outbreak();
    sim.cycle();
    let first = sim.stringify();
    let second = sim.stringify();
    assert_eq!(first, second);
    assert_eq!(
        first,
        "Susceptible: 0            \nExposed: 0            \nInfected: 9            \nResistant: 1            \nDead: 0            \nBRN: 9                     \nDaily_Deaths:0                      \nDaily_Infections:9                    \n\n"
    );
    let log = sim.condensed_stringify();
    assert_eq!(log, sim.condensed_stringify());
    assert_eq!(
        log,
        "24 hrs:-\nSusceptible:0\nExposed:0\nInfected:9\nResistant:1\nDead:0\nBRN:9\nDaily_Deaths:0\nDaily_Infections:9\n==============\n"
    );
}

#[test]
fn rendering_of_a_large_population() {
    let sim = Simulation::new(
        12345,
        half(),
        3,
        24,
        half(),
        24,
        half(),
        half(),
        half(),
    );
    assert_eq!(
        sim.condensed_stringify(),
        "0 hrs:-\nSusceptible:12345\nExposed:0\nInfected:0\nResistant:0\nDead:0\nBRN:0\nDaily_Deaths:0\nDaily_Infections:0\n==============\n"
    );
}

#[test]
fn validity_is_decided() {
    let mut sim = certain_outbreak();
    assert!(sim.valid());
    sim.dead.push(Person::Susceptible);
    assert!(!sim.valid());
    assert!(!sim.try_cycle());
    assert_eq!(sim.time_since_start, 0);
    sim.dead.pop();
    assert!(sim.valid());
    sim.infected.push(Person::Infectious(0, true, false));
    assert!(!sim.valid());
    sim.infected.pop();
    sim.exposed.push(Person::Resistant);
    assert!(!sim.valid());
    sim.exposed.pop();
    sim.infectivity = Chance { threshold: UNIT + 1 };
    assert!(!sim.valid());
    sim.infectivity = Chance::certain();
    sim.n = 0;
    assert!(!sim.valid());
    assert_eq!(sim.brn(), (0, 0));
    sim.n = 1;
    sim.time_delta = 0;
    assert!(!sim.valid());
    sim.time_delta = 24;
    assert!(sim.try_cycle());
}

#[test]
fn rendering_takes_the_reproduction_number_as_text() {
    let sim = Simulation::new(
        3,
        half(),
        3,
        48,
        half(),
        240,
        half(),
        half(),
        half(),
    );
    let expected = "0 hrs:-\nSusceptible:3\nExposed:0\nInfected:0\nResistant:0\nDead:0\nBRN:0\nDaily_Deaths:0\nDaily_Infections:0\n==============\n";
    assert_eq!(sim.condensed_stringify(), expected);
    assert_eq!(sim.condensed_stringify_with("0"), expected);
    assert_eq!(
        sim.condensed_stringify_with("0.3333333333333333"),
        "0 hrs:-\nSusceptible:3\nExposed:0\nInfected:0\nResistant:0\nDead:0\nBRN:0.3333333333333333\nDaily_Deaths:0\nDaily_Infections:0\n==============\n"
    );
    assert_eq!(
        sim.stringify_with("1.5"),
        "Susceptible: 3            \nExposed: 0            \nInfected: 0            \nResistant: 0            \nDead: 0            \nBRN: 1.5                     \nDaily_Deaths:0                      \nDaily_Infections:0                    \n\n"
    );
    assert_eq!(sim.stringify(), sim.stringify_with("0"));
}

#[test]
fn initial_hospital_flags_follow_the_script() {
    let sim = Simulation::with_infected(
        6,
        4,
        half(),
        3,
        24,
        half(),
        24,
        half(),
        half(),
        half(),
        Sampler::scripted(vec![3, 4, 7]),
    );
    assert_eq!(
        sim.infected,
        vec![
            Person::Infectious(0, false, true),
            Person::Infectious(0, false, false),
            Person::Infectious(0, false, true),
            Person::Infectious(0, false, true),
        ]
    );
    assert_eq!(sim.susceptible, vec![Person::Susceptible; 2]);
}

#[test]
fn contact_infected_at_the_period_is_promoted_in_the_same_cycle() {
    // Draws: flag false; one contact; the infection; two admissions; two fates.
    let mid = UNIT / 2;
    let mut sim = Simulation::with_infected(
        2,
        1,
        Chance::certain(),
        1,
        24,
        Chance::never(),
        1000,
        Chance::never(),
        Chance::never(),
        Chance::never(),
        Sampler::scripted(vec![0, 1, mid, mid, mid, mid, mid]),
    );
    assert_eq!(sim.infected, vec![Person::Infectious(0, false, false)]);
    sim.cycle();
    assert_eq!(sim.susceptible.len(), 0);
    assert_eq!(sim.exposed.len(), 0);
    assert_eq!(
        sim.infected,
        vec![Person::Infectious(0, false, false), Person::Infectious(24, false, false)]
    );
}

#[test]
fn scripted_outbreak_with_ten_contacts() {
    let mut script = vec![0, 10];
    script.resize(62, UNIT / 2);
    let mut sim = Simulation::with_infected(
        10,
        1,
        Chance::certain(),
        10,
        0,
        Chance::never(),
        0,
        Chance::never(),
        Chance::certain(),
        Chance::certain(),
        Sampler::scripted(script),
    );
    assert_eq!(sim.infected, vec![Person::Infectious(0, false, false)]);

    sim.cycle();
    assert_eq!(sim.susceptible.len(), 0);
    assert_eq!(sim.daily_infections, 9);
    assert_eq!(sim.brn(), (9, 1));
    assert_eq!(sim.n, 2);
    assert_eq!(sim.time_since_start, 24);
    assert_eq!(sim.infected.len(), 10);

    sim.cycle();
    assert_eq!(sim.susceptible.len(), 0);
    assert_eq!(sim.exposed.len(), 0);
    assert_eq!(sim.infected.len(), 0);

    sim.cycle();
    assert_eq!(sim.resistant.len(), 10);
    assert_eq!(sim.susceptible.len(), 0);
    assert_eq!(sim.exposed.len(), 0);
    assert_eq!(sim.infected.len(), 0);
    assert_eq!(sim.dead.len(), 0);
    assert_eq!(sim.time_since_start, 72);
    assert!(sim.extinguished());
}
