use epidemic_sim::chance::{Chance, UNIT};
use epidemic_sim::engine::{
    check_can_age, check_can_age_in_hospital, decease, incubate, needs_draw, spread, treat,
    treated,
};
use epidemic_sim::person::Person;
use epidemic_sim::render::{push_decimal, push_mean, push_padded, push_trimmed};
use epidemic_sim::sampler::Sampler;

#[test]
fn chance_from_threshold() {
    assert_eq!(Chance::from_threshold(0), Some(Chance::never()));
    assert_eq!(Chance::from_threshold(UNIT), Some(Chance::certain()));
    assert_eq!(Chance::from_threshold(17), Some(Chance { threshold: 17 }));
    assert_eq!(Chance::from_threshold(UNIT + 1), None);
    assert_eq!(UNIT, 1u64 << 53);
}

#[test]
fn chance_hits_below_its_threshold() {
    let c = Chance::from_threshold(100).unwrap();
    assert!(c.hits(0));
    assert!(c.hits(99));
    assert!(!c.hits(100));
    assert!(!Chance::never().hits(0));
    assert!(Chance::certain().hits(UNIT - 1));
}

#[test]
fn scripted_sampler_replays_its_values() {
    let mut s = Sampler::scripted(vec![3, 14, 7]);
    assert_eq!(s.below(10), 3);
    assert_eq!(s.below(10), 4);
    assert!(s.flip());
    assert_eq!(s.below(2), 1);
    assert_eq!(s.below(100), 14);
    assert!(s.flip());
    assert!(s.flip());
    assert!(!s.flip());
}

#[test]
fn random_sampler_stays_in_range() {
    let mut s = Sampler::random();
    let mut seen = [false; 4];
    for _ in 0..1000 {
        let d = s.below(4);
        assert!(d < 4);
        seen[d as usize] = true;
        assert_eq!(s.below(1), 0);
        assert!(s.below(UNIT) < UNIT);
    }
    assert!(seen.iter().all(|b| *b));
    let mut heads = 0;
    for _ in 0..1000 {
        if s.flip() {
            heads += 1;
        }
    }
    assert!(heads > 0 && heads < 1000);
}

#[test]
fn incubation_ends_at_the_period_exactly() {
    let mut exposed = vec![Person::Exposed(0), Person::Exposed(24), Person::Exposed(1)];
    let mut infected = vec![Person::Infectious(5, false, true)];
    incubate(&mut exposed, &mut infected, 24, 25);
    assert_eq!(exposed, vec![Person::Exposed(24)]);
    assert_eq!(
        infected,
        vec![
            Person::Infectious(5, false, true),
            Person::Infectious(48, false, false),
            Person::Infectious(25, false, false),
        ]
    );

    let mut exposed = vec![Person::Exposed(0)];
    let mut infected = Vec::new();
    incubate(&mut exposed, &mut infected, 24, 24);
    assert_eq!(exposed, Vec::new());
    assert_eq!(infected, vec![Person::Infectious(24, false, false)]);
}

#[test]
fn spread_infects_under_the_cursor() {
    let mut susceptible = vec![Person::Susceptible; 6];
    let mut exposed = vec![Person::Exposed(24)];
    // Contacts 2, then draws 0 (infects) and 5 (does not); the script repeats.
    let mut sampler = Sampler::scripted(vec![2, 0, 5]);
    let c = Chance::from_threshold(5).unwrap();
    let r = spread(&mut susceptible, &mut exposed, 3, 2, c, &mut sampler);
    assert_eq!(r.infections, 3);
    assert_eq!(r.turns, 3);
    assert_eq!(susceptible, vec![Person::Susceptible; 3]);
    assert_eq!(
        exposed,
        vec![Person::Exposed(24), Person::Exposed(0), Person::Exposed(0), Person::Exposed(0)]
    );
}

#[test]
fn spread_stops_when_the_cursor_runs_out() {
    let mut susceptible = vec![Person::Susceptible; 2];
    let mut exposed = Vec::new();
    // Three contacts each, no draw infects: the third contact finds nobody.
    let mut sampler = Sampler::scripted(vec![3, 9, 9]);
    let r = spread(&mut susceptible, &mut exposed, 4, 3, Chance::never(), &mut sampler);
    assert_eq!(r.infections, 0);
    assert_eq!(r.turns, 1);
    assert_eq!(susceptible.len(), 2);
    assert_eq!(exposed.len(), 0);
}

#[test]
fn treatment_of_one_individual() {
    let cure = Chance::from_threshold(10).unwrap();
    let admission = Chance::from_threshold(20).unwrap();
    assert!(needs_draw(Person::Infectious(0, false, false), 24, 48));
    assert!(!needs_draw(Person::Infectious(0, false, true), 24, 48));
    assert!(needs_draw(Person::Infectious(24, false, true), 24, 48));
    assert_eq!(
        treated(Person::Infectious(7, false, false), 24, 48, 19, cure, admission),
        Person::Infectious(7, false, true)
    );
    assert_eq!(
        treated(Person::Infectious(7, false, false), 24, 48, 20, cure, admission),
        Person::Infectious(7, false, false)
    );
    assert_eq!(
        treated(Person::Infectious(0, false, true), 24, 48, 0, cure, admission),
        Person::Infectious(24, false, true)
    );
    assert_eq!(
        treated(Person::Infectious(24, false, true), 24, 48, 9, cure, admission),
        Person::Infectious(48, true, true)
    );
    assert_eq!(
        treated(Person::Infectious(24, false, true), 24, 48, 10, cure, admission),
        Person::Infectious(48, false, true)
    );
}

#[test]
fn treatment_moves_the_cured() {
    let mut infected = vec![
        Person::Infectious(48, false, true),
        Person::Infectious(0, false, false),
        Person::Infectious(48, false, true),
        Person::Infectious(0, false, true),
    ];
    let mut exposed = Vec::new();
    let mut resistant = vec![Person::Resistant];
    // Draws: cure 0, relapse 0; admission 0; cure 0, relapse 7; none.
    let mut sampler = Sampler::scripted(vec![0, 0, 0, 0, 7]);
    let r = treat(
        &mut infected,
        &mut exposed,
        &mut resistant,
        24,
        72,
        Chance::certain(),
        Chance::from_threshold(5).unwrap(),
        Chance::certain(),
        &mut sampler,
    );
    assert_eq!(r.cured, 2);
    assert_eq!(r.reinfected, 1);
    assert_eq!(
        infected,
        vec![Person::Infectious(0, false, true), Person::Infectious(24, false, true)]
    );
    assert_eq!(exposed, vec![Person::Exposed(0)]);
    assert_eq!(resistant, vec![Person::Resistant, Person::Resistant]);
}

#[test]
fn mortality_by_draw() {
    let mut infected = vec![
        Person::Infectious(1, false, true),
        Person::Infectious(2, false, false),
        Person::Infectious(3, false, true),
    ];
    let mut dead = vec![Person::Dead];
    let mut sampler = Sampler::scripted(vec![4, 5]);
    let deaths = decease(&mut infected, &mut dead, Chance::from_threshold(5).unwrap(), &mut sampler);
    assert_eq!(deaths, 2);
    assert_eq!(infected, vec![Person::Infectious(2, false, false)]);
    assert_eq!(dead, vec![Person::Dead; 3]);

    let mut sampler = Sampler::random();
    let deaths = decease(&mut infected, &mut dead, Chance::never(), &mut sampler);
    assert_eq!(deaths, 0);
    assert_eq!(infected.len(), 1);
    let deaths = decease(&mut infected, &mut dead, Chance::certain(), &mut sampler);
    assert_eq!(deaths, 1);
    assert_eq!(infected.len(), 0);
    assert_eq!(dead.len(), 4);
}

#[test]
fn ageing_checks() {
    assert!(check_can_age(&vec![Person::Exposed(u32::MAX - 24)], 24));
    assert!(!check_can_age(&vec![Person::Exposed(0), Person::Exposed(u32::MAX - 23)], 24));
    assert!(check_can_age_in_hospital(&vec![Person::Infectious(u32::MAX, false, false)], 24));
    assert!(!check_can_age_in_hospital(&vec![Person::Infectious(u32::MAX - 23, false, true)], 24));
    assert!(check_can_age_in_hospital(&vec![Person::Infectious(u32::MAX - 24, false, true)], 24));
}

#[test]
fn decimal_numerals() {
    let mut s = String::from("n=");
    push_decimal(&mut s, 0);
    s.push(',');
    push_decimal(&mut s, 10);
    s.push(',');
    push_decimal(&mut s, 9876543210);
    s.push(',');
    push_decimal(&mut s, u64::MAX);
    assert_eq!(s, "n=0,10,9876543210,18446744073709551615");
}

#[test]
fn padded_numerals() {
    let mut s = String::new();
    push_padded(&mut s, 5, 3);
    s.push(',');
    push_padded(&mut s, 12345, 3);
    s.push(',');
    push_padded(&mut s, 7, 0);
    s.push(',');
    push_padded(&mut s, 0, 6);
    assert_eq!(s, "005,345,,000000");
}

#[test]
fn means_to_six_places() {
    let mut s = String::new();
    push_mean(&mut s, 0, 0);
    s.push(' ');
    push_mean(&mut s, 7, 0);
    s.push(' ');
    push_mean(&mut s, 3, 2);
    s.push(' ');
    push_mean(&mut s, 1, 3);
    s.push(' ');
    push_mean(&mut s, 2, 3);
    s.push(' ');
    push_mean(&mut s, 1, 16);
    s.push(' ');
    push_mean(&mut s, u64::MAX, 1);
    s.push(' ');
    push_mean(&mut s, u64::MAX - 1, u64::MAX);
    assert_eq!(
        s,
        "0 0 1.5 0.333333 0.666666 0.0625 18446744073709551615 0.999999"
    );
}

#[test]
fn trimmed_numerals() {
    let mut s = String::new();
    push_trimmed(&mut s, 500000, 6);
    s.push(',');
    push_trimmed(&mut s, 62500, 6);
    s.push(',');
    push_trimmed(&mut s, 0, 6);
    s.push(',');
    push_trimmed(&mut s, 1, 6);
    assert_eq!(s, "5,0625,,000001");
}
