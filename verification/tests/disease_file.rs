use epidemic_sim::config::{
    after_blanks, before_blanks, find_equals, find_line_end, key_of, parse_disease_file,
    parse_whole, starts_with, DiseaseFileError, Key,
};

const FULL: &str = "population = 1000\ninfected=10\n  infectivity = 0.05  \ncontact_no = 4\r\nincubation_period = 48\nfatality_rate = 0.01\navg_hospitalisation_period = 240\nreinfection_rate = 0.1\ncurability = 0.5\nhospitalisation_rate = 0.2\n";

#[test]
fn full_file_is_read() {
    let f = parse_disease_file(FULL).unwrap();
    assert_eq!(f.population, 1000);
    assert_eq!(f.infected, 10);
    assert_eq!(f.contact_no, 4);
    assert_eq!(f.infectivity, "0.05");
    assert_eq!(f.incubation_period, "48");
    assert_eq!(f.fatality_rate, "0.01");
    assert_eq!(f.avg_hospitalisation_period, "240");
    assert_eq!(f.reinfection_rate, "0.1");
    assert_eq!(f.curability, "0.5");
    assert_eq!(f.hospitalisation_rate, "0.2");
}

#[test]
fn other_lines_are_passed_over() {
    let text = format!("# a disease\n\nvirulence = 3\nno sign here\n{}", FULL);
    let f = parse_disease_file(&text).unwrap();
    assert_eq!(f.population, 1000);
    assert_eq!(f.hospitalisation_rate, "0.2");
}

#[test]
fn a_missing_setting_is_named() {
    assert_eq!(parse_disease_file("").err(), Some(DiseaseFileError::Missing(0)));
    let text = FULL.replace("contact_no = 4\r\n", "");
    assert_eq!(parse_disease_file(&text).err(), Some(DiseaseFileError::Missing(3)));
    let text = FULL.replace("hospitalisation_rate = 0.2\n", "");
    assert_eq!(parse_disease_file(&text).err(), Some(DiseaseFileError::Missing(9)));
    let text = FULL.replace("curability = 0.5\n", "curability 0.5\n");
    assert_eq!(parse_disease_file(&text).err(), Some(DiseaseFileError::Missing(8)));
}

#[test]
fn a_setting_given_twice_hides_no_missing_one() {
    let text = FULL.replace("curability = 0.5\n", "population = 7\n");
    assert_eq!(parse_disease_file(&text).err(), Some(DiseaseFileError::Missing(8)));
}

#[test]
fn the_last_value_of_a_setting_stands() {
    let text = format!("{}population = 7\nfatality_rate=0.9=ignored\n", FULL);
    let f = parse_disease_file(&text).unwrap();
    assert_eq!(f.population, 7);
    assert_eq!(f.fatality_rate, "0.9");
}

#[test]
fn whole_numbers_must_be_whole() {
    let text = FULL.replace("population = 1000", "population = 1000.5");
    assert_eq!(parse_disease_file(&text).err(), Some(DiseaseFileError::Malformed));
    let text = FULL.replace("infected=10", "infected=");
    assert_eq!(parse_disease_file(&text).err(), Some(DiseaseFileError::Malformed));
    let text = FULL.replace("contact_no = 4", "contact_no = 99999999999999999999999");
    assert_eq!(parse_disease_file(&text).err(), Some(DiseaseFileError::Malformed));
}

#[test]
fn whole_number_texts() {
    assert_eq!(parse_whole("0"), Some(0));
    assert_eq!(parse_whole("007"), Some(7));
    assert_eq!(parse_whole("1234567890"), Some(1234567890));
    assert_eq!(parse_whole(&usize::MAX.to_string()), Some(usize::MAX));
    assert_eq!(parse_whole(&format!("{}0", usize::MAX)), None);
    assert_eq!(parse_whole("18446744073709551616"), None);
    assert_eq!(parse_whole(""), None);
    assert_eq!(parse_whole("12a"), None);
    assert_eq!(parse_whole("-1"), None);
    assert_eq!(parse_whole(" 1"), None);
}

#[test]
fn names_of_settings() {
    assert_eq!(key_of("population = 3"), Some(Key::Population));
    assert_eq!(key_of("infected=1"), Some(Key::Infected));
    assert_eq!(key_of("infectivity=1"), Some(Key::Infectivity));
    assert_eq!(key_of("contact_no"), Some(Key::ContactNo));
    assert_eq!(key_of("incubation_period"), Some(Key::IncubationPeriod));
    assert_eq!(key_of("fatality_rate"), Some(Key::FatalityRate));
    assert_eq!(key_of("avg_hospitalisation_period"), Some(Key::AvgHospitalisationPeriod));
    assert_eq!(key_of("reinfection_rate"), Some(Key::ReinfectionRate));
    assert_eq!(key_of("curability"), Some(Key::Curability));
    assert_eq!(key_of("hospitalisation_rate"), Some(Key::HospitalisationRate));
    assert_eq!(key_of(" population"), None);
    assert_eq!(key_of("popul"), None);
    assert_eq!(key_of(""), None);
    assert_eq!(Key::ContactNo.index(), 3);
    assert!(starts_with("abc", ""));
    assert!(starts_with("abc", "abc"));
    assert!(!starts_with("abc", "abcd"));
    assert!(!starts_with("abc", "abd"));
}

#[test]
fn places_in_a_line() {
    let t = "a = b \nc";
    assert_eq!(find_line_end(t, 8, 0), 6);
    assert_eq!(find_line_end(t, 8, 7), 8);
    assert_eq!(find_equals(t, 8, 0, 6), 2);
    assert_eq!(find_equals(t, 8, 3, 6), 6);
    assert_eq!(after_blanks(t, 8, 3, 6), 4);
    assert_eq!(before_blanks(t, 8, 4, 6), 5);
    assert_eq!(before_blanks("   ", 3, 0, 3), 0);
    assert_eq!(after_blanks("   ", 3, 0, 3), 3);
}
