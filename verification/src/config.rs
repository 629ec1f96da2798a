use vstd::prelude::*;
use vstd::string::*;

verus! {

/// The ten settings of a disease file.
#[derive(Clone, Copy, Debug, PartialEq, Eq, Structural)]
pub enum Key {
    Population,
    Infected,
    Infectivity,
    ContactNo,
    IncubationPeriod,
    FatalityRate,
    AvgHospitalisationPeriod,
    ReinfectionRate,
    Curability,
    HospitalisationRate,
}

/// `text` begins with `prefix`.
pub open spec fn begins(text: Seq<char>, prefix: Seq<char>) -> bool {
    prefix.len() <= text.len() && text.subrange(0, prefix.len() as int) == prefix
}

/// Decides `begins`.
pub fn starts_with(text: &str, prefix: &str) -> (r: bool)
    ensures
        r == begins(text@, prefix@),
{
    let n: usize = prefix.unicode_len();
    let m: usize = text.unicode_len();
    if n > m {
        return false;
    }
    let mut i: usize = 0;
    while i < n
        invariant
            i <= n <= m,
            n == prefix@.len(),
            m == text@.len(),
            forall|k: int| 0 <= k < i ==> text@[k] == prefix@[k],
        decreases n - i,
    {
        if text.get_char(i) != prefix.get_char(i) {
            assert(text@.subrange(0, n as int)[i as int] != prefix@[i as int]);
            return false;
        }
        i = i + 1;
    }
    assert(text@.subrange(0, n as int) =~= prefix@);
    true
}

/// The setting that a line names: the first of the ten names, in this order,
/// that the line begins with.
pub open spec fn key_named(line: Seq<char>) -> Option<Key> {
    if begins(line, "population"@) {
        Some(Key::Population)
    } else if begins(line, "infected"@) {
        Some(Key::Infected)
    } else if begins(line, "infectivity"@) {
        Some(Key::Infectivity)
    } else if begins(line, "contact_no"@) {
        Some(Key::ContactNo)
    } else if begins(line, "incubation_period"@) {
        Some(Key::IncubationPeriod)
    } else if begins(line, "fatality_rate"@) {
        Some(Key::FatalityRate)
    } else if begins(line, "avg_hospitalisation_period"@) {
        Some(Key::AvgHospitalisationPeriod)
    } else if begins(line, "reinfection_rate"@) {
        Some(Key::ReinfectionRate)
    } else if begins(line, "curability"@) {
        Some(Key::Curability)
    } else if begins(line, "hospitalisation_rate"@) {
        Some(Key::HospitalisationRate)
    } else {
        None
    }
}

/// Finds the setting that a line names.
pub fn key_of(line: &str) -> (r: Option<Key>)
    ensures
        r == key_named(line@),
{
    if starts_with(line, "population") {
        Some(Key::Population)
    } else if starts_with(line, "infected") {
        Some(Key::Infected)
    } else if starts_with(line, "infectivity") {
        Some(Key::Infectivity)
    } else if starts_with(line, "contact_no") {
        Some(Key::ContactNo)
    } else if starts_with(line, "incubation_period") {
        Some(Key::IncubationPeriod)
    } else if starts_with(line, "fatality_rate") {
        Some(Key::FatalityRate)
    } else if starts_with(line, "avg_hospitalisation_period") {
        Some(Key::AvgHospitalisationPeriod)
    } else if starts_with(line, "reinfection_rate") {
        Some(Key::ReinfectionRate)
    } else if starts_with(line, "curability") {
        Some(Key::Curability)
    } else if starts_with(line, "hospitalisation_rate") {
        Some(Key::HospitalisationRate)
    } else {
        None
    }
}

/// The value of a decimal digit; nothing for another character.
pub open spec fn digit_value(c: char) -> Option<nat> {
    if 48 <= c as u32 <= 57 {
        Some((c as u32 - 48) as nat)
    } else {
        None
    }
}

/// The whole number that a text of decimal digits, and of nothing else,
/// writes; nothing for the empty text.
pub open spec fn whole(s: Seq<char>) -> Option<nat>
    decreases s.len(),
{
    if s.len() == 0 {
        None
    } else {
        match digit_value(s.last()) {
            None => None,
            Some(d) => if s.len() == 1 {
                Some(d)
            } else {
                match whole(s.drop_last()) {
                    None => None,
                    Some(w) => Some(w * 10 + d),
                }
            },
        }
    }
}

/// Reads a whole number: `Some` exactly where the text writes one that fits.
pub fn parse_whole(text: &str) -> (r: Option<usize>)
    ensures
        r is Some <==> whole(text@) is Some && whole(text@).unwrap() <= usize::MAX,
        r is Some ==> r.unwrap() == whole(text@).unwrap(),
{
    let n: usize = text.unicode_len();
    if n == 0 {
        return None;
    }
    let mut value: usize = 0;
    let mut over: bool = false;
    let mut i: usize = 0;
    while i < n
        invariant
            i <= n,
            n == text@.len(),
            i > 0 ==> whole(text@.take(i as int)) is Some,
            i > 0 && !over ==> whole(text@.take(i as int)).unwrap() == value,
            i > 0 && over ==> whole(text@.take(i as int)).unwrap() > usize::MAX,
            i == 0 ==> value == 0 && !over,
        decreases n - i,
    {
        let c: u32 = text.get_char(i) as u32;
        proof {
            assert(text@.take(i + 1).drop_last() =~= text@.take(i as int));
            assert(text@.take(i + 1).last() == text@[i as int]);
        }
        if c < 48 || c > 57 {
            proof {
                lemma_whole_needs_digits(text@, i as int);
            }
            return None;
        }
        let d: usize = (c - 48) as usize;
        if !over {
            if value > (usize::MAX - d) / 10 {
                over = true;
            } else {
                value = value * 10 + d;
            }
        }
        i = i + 1;
    }
    assert(text@.take(n as int) =~= text@);
    if over {
        None
    } else {
        Some(value)
    }
}

/// A text with a character that is no digit writes no whole number.
pub proof fn lemma_whole_needs_digits(s: Seq<char>, i: int)
    requires
        0 <= i < s.len(),
        digit_value(s[i]) is None,
    ensures
        whole(s) is None,
    decreases s.len(),
{
    if i < s.len() - 1 {
        lemma_whole_needs_digits(s.drop_last(), i);
    }
}

impl Key {
    /// The place of the setting among the ten.
    pub open spec fn position(self) -> int {
        match self {
            Key::Population => 0,
            Key::Infected => 1,
            Key::Infectivity => 2,
            Key::ContactNo => 3,
            Key::IncubationPeriod => 4,
            Key::FatalityRate => 5,
            Key::AvgHospitalisationPeriod => 6,
            Key::ReinfectionRate => 7,
            Key::Curability => 8,
            Key::HospitalisationRate => 9,
        }
    }

    /// Computes `position`.
    pub fn index(self) -> (r: usize)
        ensures
            r == self.position(),
            r < 10,
    {
        match self {
            Key::Population => 0,
            Key::Infected => 1,
            Key::Infectivity => 2,
            Key::ContactNo => 3,
            Key::IncubationPeriod => 4,
            Key::FatalityRate => 5,
            Key::AvgHospitalisationPeriod => 6,
            Key::ReinfectionRate => 7,
            Key::Curability => 8,
            Key::HospitalisationRate => 9,
        }
    }
}

/// A blank, a tab or a carriage return.
pub open spec fn is_blank(c: char) -> bool {
    c == ' ' || c == '\t' || c == '\r'
}

/// The end of the line that holds position `from`: the place of the next line
/// feed, or the end of the text.
pub open spec fn line_end(t: Seq<char>, from: int) -> int
    decreases t.len() - from,
{
    if from >= t.len() || t[from] == '\n' {
        from
    } else {
        line_end(t, from + 1)
    }
}

/// The place of the first `=` in `[from, to)`, or `to`.
pub open spec fn find_eq(t: Seq<char>, from: int, to: int) -> int
    decreases to - from,
{
    if from >= to || t[from] == '=' {
        from
    } else {
        find_eq(t, from + 1, to)
    }
}

/// The place of the first character in `[from, to)` that is not blank, or `to`.
pub open spec fn skip_blanks(t: Seq<char>, from: int, to: int) -> int
    decreases to - from,
{
    if from >= to || !is_blank(t[from]) {
        from
    } else {
        skip_blanks(t, from + 1, to)
    }
}

/// The end of `[from, to)` once the blanks at its end are cut off.
pub open spec fn trim_end(t: Seq<char>, from: int, to: int) -> int
    decreases to - from,
{
    if to <= from || !is_blank(t[to - 1]) {
        to
    } else {
        trim_end(t, from, to - 1)
    }
}

/// Computes `line_end`.
pub fn find_line_end(t: &str, n: usize, from: usize) -> (r: usize)
    requires
        n == t@.len(),
        from <= n,
    ensures
        r == line_end(t@, from as int),
        from <= r <= n,
{
    let mut i: usize = from;
    while i < n && t.get_char(i) != '\n'
        invariant
            from <= i <= n,
            n == t@.len(),
            line_end(t@, i as int) == line_end(t@, from as int),
        decreases n - i,
    {
        i = i + 1;
    }
    i
}

/// Computes `find_eq`.
pub fn find_equals(t: &str, n: usize, from: usize, to: usize) -> (r: usize)
    requires
        n == t@.len(),
        from <= to <= n,
    ensures
        r == find_eq(t@, from as int, to as int),
        from <= r <= to,
{
    let mut i: usize = from;
    while i < to && t.get_char(i) != '='
        invariant
            from <= i <= to <= n,
            n == t@.len(),
            find_eq(t@, i as int, to as int) == find_eq(t@, from as int, to as int),
        decreases to - i,
    {
        i = i + 1;
    }
    i
}

/// Decides `is_blank`.
pub fn blank(c: char) -> (r: bool)
    ensures
        r == is_blank(c),
{
    c == ' ' || c == '\t' || c == '\r'
}

/// Computes `skip_blanks`.
pub fn after_blanks(t: &str, n: usize, from: usize, to: usize) -> (r: usize)
    requires
        n == t@.len(),
        from <= to <= n,
    ensures
        r == skip_blanks(t@, from as int, to as int),
        from <= r <= to,
{
    let mut i: usize = from;
    while i < to && blank(t.get_char(i))
        invariant
            from <= i <= to <= n,
            n == t@.len(),
            skip_blanks(t@, i as int, to as int) == skip_blanks(t@, from as int, to as int),
        decreases to - i,
    {
        i = i + 1;
    }
    i
}

/// Computes `trim_end`.
pub fn before_blanks(t: &str, n: usize, from: usize, to: usize) -> (r: usize)
    requires
        n == t@.len(),
        from <= to <= n,
    ensures
        r == trim_end(t@, from as int, to as int),
        from <= r <= to,
{
    let mut j: usize = to;
    while j > from && blank(t.get_char(j - 1))
        invariant
            from <= j <= to <= n,
            n == t@.len(),
            trim_end(t@, from as int, j as int) == trim_end(t@, from as int, to as int),
        decreases j - from,
    {
        j = j - 1;
    }
    j
}

/// What a file has set so far: for each of the ten settings whether it is
/// given, and the text of its value.
pub ghost struct Draft {
    pub given: Seq<bool>,
    pub values: Seq<Seq<char>>,
}

/// The draft after the line `[start, end)` of `t`. A line without `=` sets
/// nothing, nor does one that names no setting. Any other sets the setting
/// that it names, blanks before the name aside, to the text between its first
/// `=` and its second, or its end, without the blanks around it.
pub open spec fn after_line(d: Draft, t: Seq<char>, start: int, end: int) -> Draft {
    let eq = find_eq(t, start, end);
    if eq >= end {
        d
    } else {
        match key_named(t.subrange(skip_blanks(t, start, end), end)) {
            None => d,
            Some(key) => {
                let stop = find_eq(t, eq + 1, end);
                let a = skip_blanks(t, eq + 1, stop);
                let b = trim_end(t, a, stop);
                Draft {
                    given: d.given.update(key.position(), true),
                    values: d.values.update(key.position(), t.subrange(a, b)),
                }
            },
        }
    }
}

/// The draft after all lines of `t` from position `start` on.
pub open spec fn after_lines(d: Draft, t: Seq<char>, start: int) -> Draft
    decreases t.len() - start,
{
    let end = line_end(t, start);
    let next = after_line(d, t, start, end);
    if start <= end < t.len() {
        after_lines(next, t, end + 1)
    } else {
        next
    }
}

/// The draft of a whole file.
pub open spec fn draft_of(t: Seq<char>) -> Draft {
    after_lines(
        Draft { given: Seq::new(10, |i: int| false), values: Seq::new(10, |i: int| Seq::empty()) },
        t,
        0,
    )
}

/// The first of the ten settings that is not given; ten where all are.
pub open spec fn first_missing(given: Seq<bool>, from: int) -> int
    decreases 10 - from,
{
    if from >= 10 || !given[from] {
        from
    } else {
        first_missing(given, from + 1)
    }
}

/// A whole number that fits the machine.
pub open spec fn fits(s: Seq<char>) -> bool {
    whole(s) is Some && whole(s).unwrap() <= usize::MAX
}

/// The settings of a disease file: the three whole numbers as numbers, the
/// seven others as the text that the file gives.
pub struct DiseaseFile {
    pub population: usize,
    pub infected: usize,
    pub contact_no: usize,
    pub infectivity: String,
    pub incubation_period: String,
    pub fatality_rate: String,
    pub avg_hospitalisation_period: String,
    pub reinfection_rate: String,
    pub curability: String,
    pub hospitalisation_rate: String,
}

/// Why a disease file gives no settings.
#[derive(Clone, Copy, Debug, PartialEq, Eq, Structural)]
pub enum DiseaseFileError {
    /// The setting at this place among the ten is the first that no line gives.
    Missing(usize),
    /// All are given, but one of the three whole numbers is none that fits.
    Malformed,
}

/// Reads a disease file. It succeeds exactly where every one of the ten
/// settings is given and population, infected and contact number are whole
/// numbers that fit; a setting given more than once has its last value.
pub fn parse_disease_file(contents: &str) -> (r: Result<DiseaseFile, DiseaseFileError>)
    ensures
        r is Ok <==> first_missing(draft_of(contents@).given, 0) == 10 && fits(
            draft_of(contents@).values[0],
        ) && fits(draft_of(contents@).values[1]) && fits(draft_of(contents@).values[3]),
        r is Ok ==> ({
            let v = draft_of(contents@).values;
            let f = r->Ok_0;
            &&& f.population == whole(v[0]).unwrap()
            &&& f.infected == whole(v[1]).unwrap()
            &&& f.infectivity@ == v[2]
            &&& f.contact_no == whole(v[3]).unwrap()
            &&& f.incubation_period@ == v[4]
            &&& f.fatality_rate@ == v[5]
            &&& f.avg_hospitalisation_period@ == v[6]
            &&& f.reinfection_rate@ == v[7]
            &&& f.curability@ == v[8]
            &&& f.hospitalisation_rate@ == v[9]
        }),
        r is Err ==> r->Err_0 == (if first_missing(draft_of(contents@).given, 0) < 10 {
            DiseaseFileError::Missing(first_missing(draft_of(contents@).given, 0) as usize)
        } else {
            DiseaseFileError::Malformed
        }),
{
    let n: usize = contents.unicode_len();
    let mut given: Vec<bool> = Vec::new();
    let mut values: Vec<String> = Vec::new();
    let mut k: usize = 0;
    while k < 10
        invariant
            k <= 10,
            given@.len() == k,
            values@.len() == k,
            forall|i: int| 0 <= i < k ==> !given@[i],
            forall|i: int| 0 <= i < k ==> (#[trigger] values@[i])@ == Seq::<char>::empty(),
        decreases 10 - k,
    {
        given.push(false);
        values.push(String::new());
        k = k + 1;
    }
    let ghost mut draft = Draft {
        given: Seq::new(10, |i: int| false),
        values: Seq::new(10, |i: int| Seq::empty()),
    };
    assert(draft.given =~= given@);
    let mut start: usize = 0;
    let mut done: bool = false;
    while !done
        invariant
            n == contents@.len(),
            start <= n,
            given@ == draft.given,
            given@.len() == 10,
            values@.len() == 10,
            draft.values.len() == 10,
            forall|i: int| 0 <= i < 10 ==> (#[trigger] values@[i])@ == draft.values[i],
            !done ==> after_lines(draft, contents@, start as int) == draft_of(contents@),
            done ==> draft == draft_of(contents@),
        decreases n - start + (if done { 0int } else { 1int }),
    {
        let end: usize = find_line_end(contents, n, start);
        let eq: usize = find_equals(contents, n, start, end);
        if eq < end {
            let from: usize = after_blanks(contents, n, start, end);
            let line: &str = contents.substring_char(from, end);
            match key_of(line) {
                Some(key) => {
                    let stop: usize = find_equals(contents, n, eq + 1, end);
                    let a: usize = after_blanks(contents, n, eq + 1, stop);
                    let b: usize = before_blanks(contents, n, a, stop);
                    let value: String = contents.substring_char(a, b).to_owned();
                    let at: usize = key.index();
                    given.set(at, true);
                    values.set(at, value);
                    proof {
                        draft = after_line(draft, contents@, start as int, end as int);
                    }
                },
                None => {},
            }
        }
        if end < n {
            start = end + 1;
        } else {
            done = true;
        }
    }
    let mut i: usize = 0;
    while i < 10
        invariant
            i <= 10,
            given@.len() == 10,
            values@.len() == 10,
            given@ == draft_of(contents@).given,
            forall|j: int| 0 <= j < 10 ==> (#[trigger] values@[j])@ == draft_of(contents@).values[j],
            first_missing(given@, i as int) == first_missing(given@, 0),
        decreases 10 - i,
    {
        if !given[i] {
            return Err(DiseaseFileError::Missing(i));
        }
        i = i + 1;
    }
    let population = parse_whole(values[0].as_str());
    let infected = parse_whole(values[1].as_str());
    let contact_no = parse_whole(values[3].as_str());
    match (population, infected, contact_no) {
        (Some(population), Some(infected), Some(contact_no)) => Ok(
            DiseaseFile {
                population,
                infected,
                contact_no,
                infectivity: values[2].clone(),
                incubation_period: values[4].clone(),
                fatality_rate: values[5].clone(),
                avg_hospitalisation_period: values[6].clone(),
                reinfection_rate: values[7].clone(),
                curability: values[8].clone(),
                hospitalisation_rate: values[9].clone(),
            },
        ),
        _ => Err(DiseaseFileError::Malformed),
    }
}

} // verus!
