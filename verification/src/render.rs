use vstd::prelude::*;
use crate::simulation::Simulation;

verus! {

/// Calls `String::push_str`, which appends the given text to the string.
#[verifier::external_body]
fn append_text(s: &mut String, t: &str)
    ensures
        final(s)@ == old(s)@ + t@,
{
    s.push_str(t)
}

/// Calls `String::push`, which appends the given character to the string.
#[verifier::external_body]
fn append_char(s: &mut String, c: char)
    ensures
        final(s)@ == old(s)@.push(c),
{
    s.push(c)
}

/// The character of a decimal digit.
pub open spec fn digit(d: nat) -> char {
    if d == 0 {
        '0'
    } else if d == 1 {
        '1'
    } else if d == 2 {
        '2'
    } else if d == 3 {
        '3'
    } else if d == 4 {
        '4'
    } else if d == 5 {
        '5'
    } else if d == 6 {
        '6'
    } else if d == 7 {
        '7'
    } else if d == 8 {
        '8'
    } else {
        '9'
    }
}

/// The decimal numeral of `n`, without leading zeros.
pub open spec fn decimal(n: nat) -> Seq<char>
    decreases n,
{
    if n < 10 {
        seq![digit(n)]
    } else {
        decimal(n / 10).push(digit(n % 10))
    }
}

fn digit_char(d: u64) -> (c: char)
    requires
        d < 10,
    ensures
        c == digit(d as nat),
{
    if d == 0 {
        '0'
    } else if d == 1 {
        '1'
    } else if d == 2 {
        '2'
    } else if d == 3 {
        '3'
    } else if d == 4 {
        '4'
    } else if d == 5 {
        '5'
    } else if d == 6 {
        '6'
    } else if d == 7 {
        '7'
    } else if d == 8 {
        '8'
    } else {
        '9'
    }
}

/// Appends the decimal numeral of `n`.
pub fn push_decimal(s: &mut String, n: u64)
    ensures
        final(s)@ == old(s)@ + decimal(n as nat),
    decreases n,
{
    let ghost before = s@;
    if n >= 10 {
        push_decimal(s, n / 10);
    }
    append_char(s, digit_char(n % 10));
    assert(s@ =~= before + decimal(n as nat));
}

/// The last `width` decimal digits of `n`, with leading zeros.
pub open spec fn padded(n: nat, width: nat) -> Seq<char>
    decreases width,
{
    if width == 0 {
        Seq::empty()
    } else {
        padded(n / 10, (width - 1) as nat).push(digit(n % 10))
    }
}

/// Appends the last `width` decimal digits of `n`, with leading zeros.
pub fn push_padded(s: &mut String, n: u64, width: u8)
    ensures
        final(s)@ == old(s)@ + padded(n as nat, width as nat),
    decreases width,
{
    let ghost before = s@;
    if width > 0 {
        push_padded(s, n / 10, width - 1);
        append_char(s, digit_char(n % 10));
    }
    assert(s@ =~= before + padded(n as nat, width as nat));
}

/// The whole part of the mean of `total` over `count` observations; zero
/// where there is none.
pub open spec fn mean_whole(total: nat, count: nat) -> nat {
    if count == 0 {
        0
    } else {
        total / count
    }
}

/// The first six decimal places of that mean, as a number below a million.
pub open spec fn mean_millionths(total: nat, count: nat) -> nat {
    if count == 0 {
        0
    } else {
        (total % count) * 1000000 / count
    }
}

/// The last `width` decimal digits of `n` without the zeros at their end;
/// nothing where they are all zero.
pub open spec fn trimmed(n: nat, width: nat) -> Seq<char>
    decreases width,
{
    if width == 0 {
        Seq::empty()
    } else if n % 10 == 0 {
        trimmed(n / 10, (width - 1) as nat)
    } else {
        padded(n, width)
    }
}

/// Appends the last `width` decimal digits of `n` without the zeros at their
/// end.
pub fn push_trimmed(s: &mut String, n: u64, width: u8)
    ensures
        final(s)@ == old(s)@ + trimmed(n as nat, width as nat),
    decreases width,
{
    let ghost before = s@;
    if width > 0 {
        if n % 10 == 0 {
            push_trimmed(s, n / 10, width - 1);
        } else {
            push_padded(s, n, width);
        }
    }
    assert(s@ =~= before + trimmed(n as nat, width as nat));
}

/// The mean of `total` over `count` observations in decimal: a whole mean as
/// a numeral alone, any other with a point and up to six places, cut off and
/// not rounded, without zeros at the end.
pub open spec fn mean_text(total: nat, count: nat) -> Seq<char> {
    if mean_millionths(total, count) == 0 {
        decimal(mean_whole(total, count))
    } else {
        decimal(mean_whole(total, count)).push('.') + trimmed(mean_millionths(total, count), 6)
    }
}

/// Appends the mean of `total` over `count` observations.
pub fn push_mean(s: &mut String, total: u64, count: u64)
    ensures
        final(s)@ == old(s)@ + mean_text(total as nat, count as nat),
{
    let ghost before = s@;
    let mut whole: u64 = 0;
    let mut millionths: u64 = 0;
    if count > 0 {
        whole = total / count;
        let rest: u128 = (total % count) as u128;
        let wide: u128 = count as u128;
        assert((rest as int) * 1000000 / (wide as int) < 1000000) by (nonlinear_arith)
            requires
                0 <= rest < wide,
        ;
        let scaled: u128 = rest * 1000000 / wide;
        millionths = scaled as u64;
    }
    push_decimal(s, whole);
    if millionths != 0 {
        append_char(s, '.');
        push_trimmed(s, millionths, 6);
    }
    assert(s@ =~= before + mean_text(total as nat, count as nat));
}

impl Simulation {
    /// The reproduction number as text: the mean number of infections that an
    /// infectious turn has caused so far.
    pub open spec fn brn_text(&self) -> Seq<char> {
        mean_text(self.infections as nat, self.turns())
    }

    /// The text of the snapshot with `brn` for the reproduction number.
    pub open spec fn snapshot_with(&self, brn: Seq<char>) -> Seq<char> {
        "Susceptible: "@
            + decimal(self.susceptible@.len())
            + "            \nExposed: "@
            + decimal(self.exposed@.len())
            + "            \nInfected: "@
            + decimal(self.infected@.len())
            + "            \nResistant: "@
            + decimal(self.resistant@.len())
            + "            \nDead: "@
            + decimal(self.dead@.len())
            + "            \nBRN: "@
            + brn
            + "                     \nDaily_Deaths:"@
            + decimal(self.daily_deaths as nat)
            + "                      \nDaily_Infections:"@
            + decimal(self.daily_infections as nat)
            + "                    \n\n"@
    }

    /// The text of the log entry with `brn` for the reproduction number.
    pub open spec fn log_entry_with(&self, brn: Seq<char>) -> Seq<char> {
        decimal(self.time_since_start as nat)
            + " hrs:-\nSusceptible:"@
            + decimal(self.susceptible@.len())
            + "\nExposed:"@
            + decimal(self.exposed@.len())
            + "\nInfected:"@
            + decimal(self.infected@.len())
            + "\nResistant:"@
            + decimal(self.resistant@.len())
            + "\nDead:"@
            + decimal(self.dead@.len())
            + "\nBRN:"@
            + brn
            + "\nDaily_Deaths:"@
            + decimal(self.daily_deaths as nat)
            + "\nDaily_Infections:"@
            + decimal(self.daily_infections as nat)
            + "\n==============\n"@
    }

    /// The text of the snapshot.
    pub open spec fn snapshot(&self) -> Seq<char> {
        self.snapshot_with(self.brn_text())
    }

    /// The text of the log entry.
    pub open spec fn log_entry(&self) -> Seq<char> {
        self.log_entry_with(self.brn_text())
    }

    /// A snapshot of all counts and statistics, one per line, each padded with
    /// blanks so that it covers what a console showed in its place before. The
    /// reproduction number is the text handed in, for a caller that formats it
    /// by its own means.
    pub fn stringify_with(&self, brn: &str) -> (r: String)
        ensures
            r@ == self.snapshot_with(brn@),
    {
        let mut s: String = String::new();
        append_text(&mut s, "Susceptible: ");
        push_decimal(&mut s, self.susceptible.len() as u64);
        append_text(&mut s, "            \nExposed: ");
        push_decimal(&mut s, self.exposed.len() as u64);
        append_text(&mut s, "            \nInfected: ");
        push_decimal(&mut s, self.infected.len() as u64);
        append_text(&mut s, "            \nResistant: ");
        push_decimal(&mut s, self.resistant.len() as u64);
        append_text(&mut s, "            \nDead: ");
        push_decimal(&mut s, self.dead.len() as u64);
        append_text(&mut s, "            \nBRN: ");
        append_text(&mut s, brn);
        append_text(&mut s, "                     \nDaily_Deaths:");
        push_decimal(&mut s, self.daily_deaths as u64);
        append_text(&mut s, "                      \nDaily_Infections:");
        push_decimal(&mut s, self.daily_infections as u64);
        append_text(&mut s, "                    \n\n");
        assert(s@ =~= self.snapshot_with(brn@));
        s
    }

    /// The same counts as a log entry: the hours on the clock first, a
    /// separator last. The reproduction number is the text handed in.
    pub fn condensed_stringify_with(&self, brn: &str) -> (r: String)
        ensures
            r@ == self.log_entry_with(brn@),
    {
        let mut s: String = String::new();
        push_decimal(&mut s, self.time_since_start as u64);
        append_text(&mut s, " hrs:-\nSusceptible:");
        push_decimal(&mut s, self.susceptible.len() as u64);
        append_text(&mut s, "\nExposed:");
        push_decimal(&mut s, self.exposed.len() as u64);
        append_text(&mut s, "\nInfected:");
        push_decimal(&mut s, self.infected.len() as u64);
        append_text(&mut s, "\nResistant:");
        push_decimal(&mut s, self.resistant.len() as u64);
        append_text(&mut s, "\nDead:");
        push_decimal(&mut s, self.dead.len() as u64);
        append_text(&mut s, "\nBRN:");
        append_text(&mut s, brn);
        append_text(&mut s, "\nDaily_Deaths:");
        push_decimal(&mut s, self.daily_deaths as u64);
        append_text(&mut s, "\nDaily_Infections:");
        push_decimal(&mut s, self.daily_infections as u64);
        append_text(&mut s, "\n==============\n");
        assert(s@ =~= self.log_entry_with(brn@));
        s
    }

    /// The snapshot, with the reproduction number in decimal.
    pub fn stringify(&self) -> (r: String)
        ensures
            r@ == self.snapshot(),
    {
        let mut brn: String = String::new();
        push_mean(&mut brn, self.infections, self.past_turns());
        assert(brn@ =~= self.brn_text());
        self.stringify_with(brn.as_str())
    }

    /// The log entry, with the reproduction number in decimal.
    pub fn condensed_stringify(&self) -> (r: String)
        ensures
            r@ == self.log_entry(),
    {
        let mut brn: String = String::new();
        push_mean(&mut brn, self.infections, self.past_turns());
        assert(brn@ =~= self.brn_text());
        self.condensed_stringify_with(brn.as_str())
    }
}

/// Rendering reads the sizes of the compartments, the clock and the statistics
/// and nothing else: two states that agree on these render alike, and so does
/// one state rendered twice.
pub proof fn lemma_rendering_reads_counts(a: &Simulation, b: &Simulation)
    requires
        a.susceptible@.len() == b.susceptible@.len(),
        a.exposed@.len() == b.exposed@.len(),
        a.infected@.len() == b.infected@.len(),
        a.resistant@.len() == b.resistant@.len(),
        a.dead@.len() == b.dead@.len(),
        a.infections == b.infections,
        a.turns() == b.turns(),
        a.daily_deaths == b.daily_deaths,
        a.daily_infections == b.daily_infections,
        a.time_since_start == b.time_since_start,
    ensures
        a.snapshot() == b.snapshot(),
        a.log_entry() == b.log_entry(),
{
}

} // verus!
