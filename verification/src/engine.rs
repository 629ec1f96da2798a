use vstd::prelude::*;
use crate::chance::{Chance, UNIT};
use crate::person::{all_exposed, all_infectious, all_susceptible, copies, Person};
use crate::sampler::Sampler;

verus! {

/// Whether an exposed individual has reached the incubation period once
/// `delta` more hours are counted for it.
pub open spec fn matures(p: Person, delta: u32, period: u64) -> bool {
    p.elapsed() + delta >= period
}

/// The exposed individuals of `s` that stay exposed, in their order, each
/// `delta` hours older.
pub open spec fn still_incubating(s: Seq<Person>, delta: u32, period: u64) -> Seq<Person>
    decreases s.len(),
{
    if s.len() == 0 {
        Seq::empty()
    } else {
        let rest = still_incubating(s.drop_last(), delta, period);
        if matures(s.last(), delta, period) {
            rest
        } else {
            rest.push(Person::Exposed((s.last().elapsed() + delta) as u32))
        }
    }
}

/// The infectious individuals that the matured members of `s` become, in their
/// order: each carries its hours over, is not marked for removal and is not
/// hospitalised.
pub open spec fn newly_infectious(s: Seq<Person>, delta: u32, period: u64) -> Seq<Person>
    decreases s.len(),
{
    if s.len() == 0 {
        Seq::empty()
    } else {
        let rest = newly_infectious(s.drop_last(), delta, period);
        if matures(s.last(), delta, period) {
            rest.push(Person::Infectious((s.last().elapsed() + delta) as u32, false, false))
        } else {
            rest
        }
    }
}

/// Every member of `s` can count `delta` more hours.
pub open spec fn can_age(s: Seq<Person>, delta: u32) -> bool {
    forall|i: int| 0 <= i < s.len() ==> (#[trigger] s[i]).elapsed() + delta <= u32::MAX
}

/// Every hospitalised member of `s` can count `delta` more hours.
pub open spec fn can_age_in_hospital(s: Seq<Person>, delta: u32) -> bool {
    forall|i: int|
        0 <= i < s.len() && (#[trigger] s[i]).hospitalised() ==> s[i].elapsed() + delta
            <= u32::MAX
}

/// Decides `can_age`.
pub fn check_can_age(s: &Vec<Person>, delta: u32) -> (r: bool)
    ensures
        r == can_age(s@, delta),
{
    let limit: u32 = u32::MAX - delta;
    let mut i: usize = 0;
    while i < s.len()
        invariant
            i <= s.len(),
            limit == u32::MAX - delta,
            forall|k: int| 0 <= k < i ==> (#[trigger] s@[k]).elapsed() + delta <= u32::MAX,
        decreases s.len() - i,
    {
        let fits: bool = match s[i] {
            Person::Exposed(t) => t <= limit,
            Person::Infectious(t, _, _) => t <= limit,
            _ => true,
        };
        if !fits {
            assert(s@[i as int].elapsed() + delta > u32::MAX);
            return false;
        }
        i = i + 1;
    }
    true
}

/// Decides `can_age_in_hospital`.
pub fn check_can_age_in_hospital(s: &Vec<Person>, delta: u32) -> (r: bool)
    ensures
        r == can_age_in_hospital(s@, delta),
{
    let limit: u32 = u32::MAX - delta;
    let mut i: usize = 0;
    while i < s.len()
        invariant
            i <= s.len(),
            limit == u32::MAX - delta,
            forall|k: int|
                0 <= k < i && (#[trigger] s@[k]).hospitalised() ==> s@[k].elapsed() + delta
                    <= u32::MAX,
        decreases s.len() - i,
    {
        let fits: bool = match s[i] {
            Person::Infectious(t, _, true) => t <= limit,
            _ => true,
        };
        if !fits {
            assert(s@[i as int].hospitalised() && s@[i as int].elapsed() + delta > u32::MAX);
            return false;
        }
        i = i + 1;
    }
    true
}

/// What incubation makes of a sequence of exposed individuals: those that
/// stay are exposed and short of the period, and those that leave are
/// infectious, outside hospital and not marked for removal.
pub proof fn lemma_incubation(s: Seq<Person>, delta: u32, period: u64)
    requires
        all_exposed(s),
        can_age(s, delta),
    ensures
        all_exposed(still_incubating(s, delta, period)),
        forall|i: int|
            0 <= i < still_incubating(s, delta, period).len() ==> (#[trigger] still_incubating(
                s,
                delta,
                period,
            )[i]).elapsed() < period,
        all_infectious(newly_infectious(s, delta, period)),
        forall|i: int|
            0 <= i < newly_infectious(s, delta, period).len() ==> !(#[trigger] newly_infectious(
                s,
                delta,
                period,
            )[i]).hospitalised(),
    decreases s.len(),
{
    if s.len() > 0 {
        lemma_incubation(s.drop_last(), delta, period);
    }
}

/// Incubation loses nobody: each member of `s` either stays or leaves.
pub proof fn lemma_incubation_count(s: Seq<Person>, delta: u32, period: u64)
    ensures
        still_incubating(s, delta, period).len() + newly_infectious(s, delta, period).len()
            == s.len(),
    decreases s.len(),
{
    if s.len() > 0 {
        lemma_incubation_count(s.drop_last(), delta, period);
    }
}

/// Incubation ends when the hours reach the period, not only when they pass
/// it: a member of `s` whose hours, `delta` added, are the period or more is
/// among those that leave, with these hours, and any other is among those that
/// stay.
pub proof fn lemma_incubation_boundary(s: Seq<Person>, i: int, delta: u32, period: u64)
    requires
        0 <= i < s.len(),
    ensures
        s[i].elapsed() + delta >= period ==> newly_infectious(s, delta, period).contains(
            Person::Infectious((s[i].elapsed() + delta) as u32, false, false),
        ),
        s[i].elapsed() + delta < period ==> still_incubating(s, delta, period).contains(
            Person::Exposed((s[i].elapsed() + delta) as u32),
        ),
    decreases s.len(),
{
    let leaving = newly_infectious(s, delta, period);
    let staying = still_incubating(s, delta, period);
    if i == s.len() - 1 {
        if matures(s.last(), delta, period) {
            assert(leaving[leaving.len() - 1] == Person::Infectious(
                (s[i].elapsed() + delta) as u32,
                false,
                false,
            ));
        } else {
            assert(staying[staying.len() - 1] == Person::Exposed((s[i].elapsed() + delta) as u32));
        }
    } else {
        let front = s.drop_last();
        lemma_incubation_boundary(front, i, delta, period);
        assert(front[i] == s[i]);
        if s[i].elapsed() + delta >= period {
            let p = Person::Infectious((s[i].elapsed() + delta) as u32, false, false);
            let k = choose|k: int|
                0 <= k < newly_infectious(front, delta, period).len() && newly_infectious(
                    front,
                    delta,
                    period,
                )[k] == p;
            assert(leaving[k] == p);
        } else {
            let p = Person::Exposed((s[i].elapsed() + delta) as u32);
            let k = choose|k: int|
                0 <= k < still_incubating(front, delta, period).len() && still_incubating(
                    front,
                    delta,
                    period,
                )[k] == p;
            assert(staying[k] == p);
        }
    }
}

/// The sum of the contact counts.
pub open spec fn total(contacts: Seq<u64>) -> nat
    decreases contacts.len(),
{
    if contacts.len() == 0 {
        0
    } else {
        total(contacts.drop_last()) + contacts.last() as nat
    }
}

/// The number of draws on which the event occurs.
pub open spec fn hits(draws: Seq<u64>, chance: Chance) -> nat
    decreases draws.len(),
{
    if draws.len() == 0 {
        0
    } else {
        hits(draws.drop_last(), chance) + if chance.occurs(draws.last()) {
            1nat
        } else {
            0nat
        }
    }
}

/// An impossible event occurs on no draw.
pub proof fn lemma_hits_never(draws: Seq<u64>, chance: Chance)
    requires
        chance.is_never(),
    ensures
        hits(draws, chance) == 0,
    decreases draws.len(),
{
    if draws.len() > 0 {
        lemma_hits_never(draws.drop_last(), chance);
    }
}

/// A certain event occurs on every draw that a sampler hands out.
pub proof fn lemma_hits_certain(draws: Seq<u64>, chance: Chance)
    requires
        chance.is_certain(),
        in_range(draws),
    ensures
        hits(draws, chance) == draws.len(),
    decreases draws.len(),
{
    if draws.len() > 0 {
        assert(draws.last() == draws[draws.len() - 1]);
        lemma_hits_certain(draws.drop_last(), chance);
    }
}

/// A pass of contacts among `available` susceptible individuals takes `turns`
/// turns and infects `infections` when turn `i` is given `contacts[i]` contacts
/// and contact `j` of the whole pass meets `draws[j]`. A contact is made for
/// every susceptible individual at most; the turn that is given one contact more
/// is the last.
pub open spec fn spread_by(
    available: nat,
    infectious: nat,
    contact_no: nat,
    infectivity: Chance,
    contacts: Seq<u64>,
    draws: Seq<u64>,
    infections: nat,
    turns: nat,
) -> bool {
    &&& contacts.len() == turns
    &&& turns <= infectious
    &&& forall|i: int| 0 <= i < contacts.len() ==> (#[trigger] contacts[i]) <= contact_no
    &&& in_range(draws)
    &&& draws.len() == if total(contacts) <= available {
        total(contacts)
    } else {
        available
    }
    &&& infections == hits(draws, infectivity)
    &&& turns < infectious ==> total(contacts) > available
    &&& turns > 0 ==> total(contacts.drop_last()) <= available
}

/// With no susceptible individual a pass of contacts infects nobody, whatever
/// is drawn, and it ends before every infectious individual had its turn only
/// where the last turn was given a contact.
pub proof fn lemma_spread_without_susceptible(
    infectious: nat,
    contact_no: nat,
    infectivity: Chance,
    contacts: Seq<u64>,
    draws: Seq<u64>,
    infections: nat,
    turns: nat,
)
    requires
        spread_by(0, infectious, contact_no, infectivity, contacts, draws, infections, turns),
    ensures
        infections == 0,
        draws.len() == 0,
        turns < infectious ==> turns > 0 && contacts.last() > 0,
{
}

/// Where infection is certain every contact infects: the pass infects as many
/// as it is given contacts, or everybody where these are more.
pub proof fn lemma_spread_certain(
    available: nat,
    infectious: nat,
    contact_no: nat,
    infectivity: Chance,
    contacts: Seq<u64>,
    draws: Seq<u64>,
    infections: nat,
    turns: nat,
)
    requires
        spread_by(
            available,
            infectious,
            contact_no,
            infectivity,
            contacts,
            draws,
            infections,
            turns,
        ),
        infectivity.is_certain(),
    ensures
        infections == if total(contacts) <= available {
            total(contacts)
        } else {
            available
        },
{
    lemma_hits_certain(draws, infectivity);
}

/// What a sampler with the given script makes of the contacts that are left
/// of one turn: `left` contacts to go, `met` contacts made in the pass so far,
/// `infections` among them, the sampler at `cursor`. The result is the three
/// numbers after the turn, and whether a contact found nobody.
pub open spec fn contacts_of(
    left: nat,
    met: nat,
    infections: nat,
    cursor: nat,
    available: nat,
    infectivity: Chance,
    script: Seq<u64>,
) -> (nat, nat, nat, bool)
    decreases left,
{
    if left == 0 {
        (met, infections, cursor, false)
    } else if met >= available {
        (met, infections, cursor, true)
    } else {
        let hit = infectivity.occurs((script[cursor as int] % UNIT) as u64);
        contacts_of(
            (left - 1) as nat,
            met + 1,
            if hit {
                infections + 1
            } else {
                infections
            },
            Sampler::following(cursor, script.len()),
            available,
            infectivity,
            script,
        )
    }
}

/// What a sampler with the given script makes of a pass of contacts from turn
/// `turn` on: each turn reads its number of contacts, at most `contact_no`, and
/// then one draw for each contact that meets somebody. The result is the
/// infections of the pass, the turns taken, and the cursor after it.
pub open spec fn turns_of(
    turn: nat,
    met: nat,
    infections: nat,
    cursor: nat,
    infectious: nat,
    contact_no: nat,
    available: nat,
    infectivity: Chance,
    script: Seq<u64>,
) -> (nat, nat, nat)
    decreases infectious - turn,
{
    if turn >= infectious {
        (infections, turn, cursor)
    } else {
        let count = (script[cursor as int] % ((contact_no + 1) as u64)) as nat;
        let after = contacts_of(
            count,
            met,
            infections,
            Sampler::following(cursor, script.len()),
            available,
            infectivity,
            script,
        );
        if after.3 {
            (after.1, turn + 1, after.2)
        } else {
            turns_of(
                turn + 1,
                after.0,
                after.1,
                after.2,
                infectious,
                contact_no,
                available,
                infectivity,
                script,
            )
        }
    }
}

/// What a sampler with the given script makes of a whole pass of contacts
/// among `available` susceptible individuals: the infections, the turns taken,
/// and the cursor after it.
pub open spec fn spread_of(
    available: nat,
    infectious: nat,
    contact_no: nat,
    infectivity: Chance,
    script: Seq<u64>,
    cursor: nat,
) -> (nat, nat, nat) {
    turns_of(0, 0, 0, cursor, infectious, contact_no, available, infectivity, script)
}

/// What one pass of contacts did.
pub struct Spread {
    /// Susceptible individuals that were infected.
    pub infections: usize,
    /// Infectious individuals that had their turn.
    pub turns: usize,
}

/// Contact and infection. Each of the `infectious` individuals in turn meets a
/// drawn number of contacts, at most `contact_no`; a contact infects the
/// susceptible individual under the cursor if the draw falls under
/// `infectivity`, and otherwise moves the cursor on. The pass ends with the turn
/// in which a contact finds no susceptible individual under the cursor.
pub fn spread(
    susceptible: &mut Vec<Person>,
    exposed: &mut Vec<Person>,
    infectious: usize,
    contact_no: usize,
    infectivity: Chance,
    sampler: &mut Sampler,
) -> (r: Spread)
    requires
        old(sampler).wf(),
        contact_no < usize::MAX,
        all_susceptible(old(susceptible)@),
    ensures
        final(sampler).wf(),
        final(sampler).script() == old(sampler).script(),
        exists|contacts: Seq<u64>, draws: Seq<u64>|
            spread_by(
                old(susceptible)@.len(),
                infectious as nat,
                contact_no as nat,
                infectivity,
                contacts,
                draws,
                r.infections as nat,
                r.turns as nat,
            ),
        old(sampler).script().len() > 0 ==> (
            r.infections as nat,
            r.turns as nat,
            final(sampler).cursor(),
        ) == spread_of(
            old(susceptible)@.len(),
            infectious as nat,
            contact_no as nat,
            infectivity,
            old(sampler).script(),
            old(sampler).cursor(),
        ),
        all_susceptible(final(susceptible)@),
        final(susceptible)@.len() + r.infections == old(susceptible)@.len(),
        final(exposed)@ == old(exposed)@ + copies(Person::Exposed(0), r.infections as nat),
        r.turns <= infectious,
        infectious > 0 ==> r.turns >= 1,
        infectivity.is_never() ==> r.infections == 0,
        contact_no == 0 ==> r.infections == 0 && r.turns == infectious,
{
    let ghost exposed_before = exposed@;
    let ghost susceptible_before = susceptible@;
    let available: usize = susceptible.len();
    let ghost script = sampler.script();
    let ghost goal = spread_of(
        susceptible@.len(),
        infectious as nat,
        contact_no as nat,
        infectivity,
        script,
        sampler.cursor(),
    );
    let mut cursor: usize = 0;
    let mut turn: usize = 0;
    let mut infections: usize = 0;
    let mut exhausted = false;
    let ghost mut contacts: Seq<u64> = Seq::empty();
    let ghost mut draws: Seq<u64> = Seq::empty();
    assert(exposed@ =~= exposed_before + copies(Person::Exposed(0), 0));
    while turn < infectious && !exhausted
        invariant
            script.len() > 0 && !exhausted ==> goal == turns_of(
                turn as nat,
                draws.len(),
                infections as nat,
                sampler.cursor(),
                infectious as nat,
                contact_no as nat,
                available as nat,
                infectivity,
                script,
            ),
            script.len() > 0 && exhausted ==> goal == (
                infections as nat,
                turn as nat,
                sampler.cursor(),
            ),
            contacts.len() == turn,
            forall|i: int| 0 <= i < contacts.len() ==> (#[trigger] contacts[i]) <= contact_no,
            in_range(draws),
            draws.len() == cursor + infections,
            cursor <= susceptible@.len(),
            infections == hits(draws, infectivity),
            !exhausted ==> total(contacts) == draws.len(),
            exhausted ==> total(contacts) > available && draws.len() == available,
            turn > 0 ==> total(contacts.drop_last()) <= available,
            sampler.wf(),
            sampler.script() == script,
            contact_no < usize::MAX,
            all_susceptible(susceptible@),
            susceptible@.len() + infections == susceptible_before.len(),
            susceptible_before.len() == available,
            exposed@ == exposed_before + copies(Person::Exposed(0), infections as nat),
            turn <= infectious,
            exhausted ==> turn >= 1,
            infectivity.is_never() ==> infections == 0,
            contact_no == 0 ==> infections == 0 && !exhausted,
        decreases infectious - turn,
    {
        let count: u64 = sampler.below(contact_no as u64 + 1);
        let ghost earlier = total(contacts);
        let ghost turn_goal = contacts_of(
            count as nat,
            draws.len(),
            infections as nat,
            sampler.cursor(),
            available as nat,
            infectivity,
            script,
        );
        proof {
            let before = contacts;
            contacts = contacts.push(count);
            assert(contacts.drop_last() =~= before);
        }
        let mut made: u64 = 0;
        while made < count && !exhausted
            invariant
                script.len() > 0 && !exhausted ==> turn_goal == contacts_of(
                    (count - made) as nat,
                    draws.len(),
                    infections as nat,
                    sampler.cursor(),
                    available as nat,
                    infectivity,
                    script,
                ),
                script.len() > 0 && exhausted ==> turn_goal == (
                    draws.len(),
                    infections as nat,
                    sampler.cursor(),
                    true,
                ),
                in_range(draws),
                draws.len() == cursor + infections,
                cursor <= susceptible@.len(),
                infections == hits(draws, infectivity),
                !exhausted ==> earlier + made == draws.len(),
                exhausted ==> earlier + count > available && draws.len() == available,
                sampler.wf(),
                sampler.script() == script,
                all_susceptible(susceptible@),
                susceptible@.len() + infections == susceptible_before.len(),
                susceptible_before.len() == available,
                exposed@ == exposed_before + copies(Person::Exposed(0), infections as nat),
                made <= count,
                count <= contact_no,
                infectivity.is_never() ==> infections == 0,
                contact_no == 0 ==> infections == 0 && !exhausted,
            decreases count - made,
        {
            if cursor < susceptible.len() {
                let draw: u64 = sampler.below(UNIT);
                proof {
                    let before = draws;
                    draws = draws.push(draw);
                    assert(draws.drop_last() =~= before);
                }
                if infectivity.hits(draw) {
                    susceptible.swap_remove(cursor);
                    exposed.push(Person::Exposed(0));
                    infections = infections + 1;
                    assert(exposed@ =~= exposed_before + copies(
                        Person::Exposed(0),
                        infections as nat,
                    ));
                } else {
                    cursor = cursor + 1;
                }
            } else {
                exhausted = true;
            }
            made = made + 1;
        }
        turn = turn + 1;
    }
    let r = Spread { infections, turns: turn };
    assert(spread_by(
        susceptible_before.len(),
        infectious as nat,
        contact_no as nat,
        infectivity,
        contacts,
        draws,
        r.infections as nat,
        r.turns as nat,
    ));
    r
}

/// Incubation. Every exposed individual counts `delta` more hours; those that
/// have then reached `period` leave for the infectious, in their order.
pub fn incubate(exposed: &mut Vec<Person>, infected: &mut Vec<Person>, delta: u32, period: u64)
    requires
        all_exposed(old(exposed)@),
        can_age(old(exposed)@, delta),
    ensures
        final(exposed)@ == still_incubating(old(exposed)@, delta, period),
        final(infected)@ == old(infected)@ + newly_infectious(old(exposed)@, delta, period),
{
    let ghost source = exposed@;
    let ghost infected_before = infected@;
    let mut kept: Vec<Person> = Vec::new();
    let mut i: usize = 0;
    assert(infected@ =~= infected_before + newly_infectious(source.take(0), delta, period));
    while i < exposed.len()
        invariant
            i <= exposed.len(),
            exposed@ == source,
            all_exposed(source),
            can_age(source, delta),
            kept@ == still_incubating(source.take(i as int), delta, period),
            infected@ == infected_before + newly_infectious(source.take(i as int), delta, period),
        decreases exposed.len() - i,
    {
        let p: Person = exposed[i];
        proof {
            assert(source.take(i + 1).drop_last() =~= source.take(i as int));
            assert(source.take(i + 1).last() == source[i as int]);
            assert(source[i as int] is Exposed);
        }
        match p {
            Person::Exposed(t) => {
                let aged: u32 = t + delta;
                if aged as u64 >= period {
                    infected.push(Person::Infectious(aged, false, false));
                    assert(infected@ =~= infected_before + newly_infectious(
                        source.take(i + 1),
                        delta,
                        period,
                    ));
                } else {
                    kept.push(Person::Exposed(aged));
                }
            },
            _ => {},
        }
        i = i + 1;
    }
    assert(source.take(source.len() as int) =~= source);
    *exposed = kept;
}

/// Whether the treatment of `p` is decided by a draw: an admission for one
/// outside hospital, a cure for one that has lain there for `period` hours.
pub open spec fn awaits_draw(p: Person, delta: u32, period: u64) -> bool {
    match p {
        Person::Infectious(t, _, h) => !h || t + delta >= period,
        _ => false,
    }
}

/// An infectious individual after its treatment. In hospital it counts `delta`
/// more hours and, once they reach `period`, is marked for removal if the draw
/// falls under `curability`. Outside hospital it is admitted if the draw falls
/// under `hospitalisation`; its hours stay as they are.
pub open spec fn after_treatment(
    p: Person,
    delta: u32,
    period: u64,
    draw: u64,
    curability: Chance,
    hospitalisation: Chance,
) -> Person {
    match p {
        Person::Infectious(t, pending, h) => if h {
            Person::Infectious(
                (t + delta) as u32,
                pending || (t + delta >= period && curability.occurs(draw)),
                true,
            )
        } else {
            Person::Infectious(t, pending, hospitalisation.occurs(draw))
        },
        other => other,
    }
}

/// Decides whether the treatment of `p` needs a draw.
pub fn needs_draw(p: Person, delta: u32, period: u64) -> (r: bool)
    requires
        p.hospitalised() ==> p.elapsed() + delta <= u32::MAX,
    ensures
        r == awaits_draw(p, delta, period),
{
    match p {
        Person::Infectious(t, _, h) => !h || (t + delta) as u64 >= period,
        _ => false,
    }
}

/// Treats one individual with the given draw.
pub fn treated(
    p: Person,
    delta: u32,
    period: u64,
    draw: u64,
    curability: Chance,
    hospitalisation: Chance,
) -> (r: Person)
    requires
        p.hospitalised() ==> p.elapsed() + delta <= u32::MAX,
    ensures
        r == after_treatment(p, delta, period, draw, curability, hospitalisation),
{
    match p {
        Person::Infectious(t, pending, h) => {
            if h {
                let aged: u32 = t + delta;
                let cured: bool = aged as u64 >= period && curability.hits(draw);
                Person::Infectious(aged, pending || cured, true)
            } else {
                Person::Infectious(t, pending, hospitalisation.hits(draw))
            }
        },
        other => other,
    }
}

/// Every draw is one that a sampler hands out for a chance.
pub open spec fn in_range(draws: Seq<u64>) -> bool {
    forall|i: int| 0 <= i < draws.len() ==> (#[trigger] draws[i]) < UNIT
}

/// The members of `s` that stay infectious when member `i` is treated with
/// draw `i`: each as its treatment left it, in their order, those marked for
/// removal left out.
pub open spec fn remaining(
    s: Seq<Person>,
    delta: u32,
    period: u64,
    draws: Seq<u64>,
    curability: Chance,
    hospitalisation: Chance,
) -> Seq<Person>
    decreases s.len(),
{
    if s.len() == 0 || draws.len() != s.len() {
        Seq::empty()
    } else {
        let rest = remaining(
            s.drop_last(),
            delta,
            period,
            draws.drop_last(),
            curability,
            hospitalisation,
        );
        let q = after_treatment(s.last(), delta, period, draws.last(), curability, hospitalisation);
        if q.settled_infectious() {
            rest.push(q)
        } else {
            rest
        }
    }
}

/// The number of members of `s` that are cured when member `i` is treated with
/// draw `i`, and then relapse because draw `i` of `seconds` falls under
/// `reinfection`.
pub open spec fn relapses(
    s: Seq<Person>,
    delta: u32,
    period: u64,
    draws: Seq<u64>,
    seconds: Seq<u64>,
    curability: Chance,
    hospitalisation: Chance,
    reinfection: Chance,
) -> nat
    decreases s.len(),
{
    if s.len() == 0 || draws.len() != s.len() || seconds.len() != s.len() {
        0
    } else {
        let rest = relapses(
            s.drop_last(),
            delta,
            period,
            draws.drop_last(),
            seconds.drop_last(),
            curability,
            hospitalisation,
            reinfection,
        );
        let q = after_treatment(s.last(), delta, period, draws.last(), curability, hospitalisation);
        if !q.settled_infectious() && reinfection.occurs(seconds.last()) {
            rest + 1
        } else {
            rest
        }
    }
}

/// Where relapse is impossible nobody relapses.
pub proof fn lemma_relapses_never(
    s: Seq<Person>,
    delta: u32,
    period: u64,
    draws: Seq<u64>,
    seconds: Seq<u64>,
    curability: Chance,
    hospitalisation: Chance,
    reinfection: Chance,
)
    requires
        reinfection.is_never(),
    ensures
        relapses(s, delta, period, draws, seconds, curability, hospitalisation, reinfection) == 0,
    decreases s.len(),
{
    if s.len() > 0 && draws.len() == s.len() && seconds.len() == s.len() {
        lemma_relapses_never(
            s.drop_last(),
            delta,
            period,
            draws.drop_last(),
            seconds.drop_last(),
            curability,
            hospitalisation,
            reinfection,
        );
    }
}

/// The members of `s` that survive when member `i` meets draw `i`, in their
/// order and as they were.
pub open spec fn survivors(s: Seq<Person>, draws: Seq<u64>, fatality: Chance) -> Seq<Person>
    decreases s.len(),
{
    if s.len() == 0 || draws.len() != s.len() {
        Seq::empty()
    } else {
        let rest = survivors(s.drop_last(), draws.drop_last(), fatality);
        if fatality.occurs(draws.last()) {
            rest
        } else {
            rest.push(s.last())
        }
    }
}

/// What a sampler with the given script hands out while the members of `s` are
/// treated in their order, from `cursor` on: the cursor after the last of them,
/// the first draw of each (zero where none is taken) and the second draw of each
/// (zero where it is not cured).
pub open spec fn treat_replay(
    s: Seq<Person>,
    delta: u32,
    period: u64,
    curability: Chance,
    hospitalisation: Chance,
    script: Seq<u64>,
    cursor: nat,
) -> (nat, Seq<u64>, Seq<u64>)
    decreases s.len(),
{
    if s.len() == 0 {
        (cursor, Seq::empty(), Seq::empty())
    } else {
        let (c, draws, seconds) = treat_replay(
            s.drop_last(),
            delta,
            period,
            curability,
            hospitalisation,
            script,
            cursor,
        );
        let waits = awaits_draw(s.last(), delta, period);
        let first = if waits {
            (script[c as int] % UNIT) as u64
        } else {
            0u64
        };
        let c1 = if waits {
            Sampler::following(c, script.len())
        } else {
            c
        };
        let q = after_treatment(s.last(), delta, period, first, curability, hospitalisation);
        if q.settled_infectious() {
            (c1, draws.push(first), seconds.push(0u64))
        } else {
            (
                Sampler::following(c1, script.len()),
                draws.push(first),
                seconds.push((script[c1 as int] % UNIT) as u64),
            )
        }
    }
}

/// `after` is what treatment leaves of `before`, and `relapsed` the number of
/// the cured that relapse, for the given draws, one of each kind for each
/// member.
pub open spec fn treated_by(
    before: Seq<Person>,
    after: Seq<Person>,
    relapsed: nat,
    delta: u32,
    period: u64,
    draws: Seq<u64>,
    seconds: Seq<u64>,
    curability: Chance,
    hospitalisation: Chance,
    reinfection: Chance,
) -> bool {
    &&& draws.len() == before.len()
    &&& seconds.len() == before.len()
    &&& in_range(draws)
    &&& in_range(seconds)
    &&& after == remaining(before, delta, period, draws, curability, hospitalisation)
    &&& relapsed == relapses(
        before,
        delta,
        period,
        draws,
        seconds,
        curability,
        hospitalisation,
        reinfection,
    )
}

/// `after` is what mortality leaves of `before` for the given draws, one for
/// each member.
pub open spec fn survived_by(
    before: Seq<Person>,
    after: Seq<Person>,
    draws: Seq<u64>,
    fatality: Chance,
) -> bool {
    &&& draws.len() == before.len()
    &&& in_range(draws)
    &&& after == survivors(before, draws, fatality)
}

/// What one pass of treatment did.
pub struct Treatment {
    /// Individuals that left the infectious.
    pub cured: usize,
    /// Those among them that went back to the exposed.
    pub reinfected: usize,
}

/// Hospitalisation, cure and reinfection. Every infectious individual is
/// treated with a fresh draw where one is needed. A cured one leaves the
/// infectious: a second draw under `reinfection` sends it to the exposed, with
/// no hours counted, and any other to the resistant. The others stay in
/// their order.
pub fn treat(
    infected: &mut Vec<Person>,
    exposed: &mut Vec<Person>,
    resistant: &mut Vec<Person>,
    delta: u32,
    period: u64,
    curability: Chance,
    reinfection: Chance,
    hospitalisation: Chance,
    sampler: &mut Sampler,
) -> (r: Treatment)
    requires
        old(sampler).wf(),
        all_infectious(old(infected)@),
        can_age_in_hospital(old(infected)@, delta),
    ensures
        final(sampler).wf(),
        final(sampler).script() == old(sampler).script(),
        exists|draws: Seq<u64>, seconds: Seq<u64>|
            treated_by(
                old(infected)@,
                final(infected)@,
                r.reinfected as nat,
                delta,
                period,
                draws,
                seconds,
                curability,
                hospitalisation,
                reinfection,
            ),
        old(sampler).script().len() > 0 ==> ({
            let t = treat_replay(
                old(infected)@,
                delta,
                period,
                curability,
                hospitalisation,
                old(sampler).script(),
                old(sampler).cursor(),
            );
            &&& treated_by(
                old(infected)@,
                final(infected)@,
                r.reinfected as nat,
                delta,
                period,
                t.1,
                t.2,
                curability,
                hospitalisation,
                reinfection,
            )
            &&& final(sampler).cursor() == t.0
        }),
        all_infectious(final(infected)@),
        final(infected)@.len() + r.cured == old(infected)@.len(),
        r.reinfected <= r.cured,
        final(exposed)@ == old(exposed)@ + copies(Person::Exposed(0), r.reinfected as nat),
        final(resistant)@ == old(resistant)@ + copies(
            Person::Resistant,
            (r.cured - r.reinfected) as nat,
        ),
        curability.is_never() ==> r.cured == 0,
        reinfection.is_never() ==> r.reinfected == 0,
        reinfection.is_certain() ==> r.reinfected == r.cured,
{
    let ghost source = infected@;
    let ghost exposed_before = exposed@;
    let ghost resistant_before = resistant@;
    let ghost script = sampler.script();
    let ghost start = sampler.cursor();
    let mut kept: Vec<Person> = Vec::new();
    let mut cured: usize = 0;
    let mut reinfected: usize = 0;
    let mut i: usize = 0;
    let ghost mut draws: Seq<u64> = Seq::empty();
    let ghost mut seconds: Seq<u64> = Seq::empty();
    assert(exposed@ =~= exposed_before + copies(Person::Exposed(0), 0));
    assert(resistant@ =~= resistant_before + copies(Person::Resistant, 0));
    while i < infected.len()
        invariant
            i <= infected.len(),
            infected@ == source,
            all_infectious(source),
            can_age_in_hospital(source, delta),
            sampler.wf(),
            sampler.script() == script,
            all_infectious(kept@),
            kept@.len() + cured == i,
            draws.len() == i,
            in_range(draws),
            kept@ == remaining(
                source.take(i as int),
                delta,
                period,
                draws,
                curability,
                hospitalisation,
            ),
            seconds.len() == i,
            script.len() > 0 ==> (sampler.cursor(), draws, seconds) == treat_replay(
                source.take(i as int),
                delta,
                period,
                curability,
                hospitalisation,
                script,
                start,
            ),
            in_range(seconds),
            reinfected == relapses(
                source.take(i as int),
                delta,
                period,
                draws,
                seconds,
                curability,
                hospitalisation,
                reinfection,
            ),
            reinfected <= cured,
            exposed@ == exposed_before + copies(Person::Exposed(0), reinfected as nat),
            resistant@ == resistant_before + copies(
                Person::Resistant,
                (cured - reinfected) as nat,
            ),
            curability.is_never() ==> cured == 0,
            reinfection.is_never() ==> reinfected == 0,
            reinfection.is_certain() ==> reinfected == cured,
        decreases infected.len() - i,
    {
        let p: Person = infected[i];
        assert(source[i as int].settled_infectious());
        let draw: u64 = if needs_draw(p, delta, period) {
            sampler.below(UNIT)
        } else {
            0
        };
        let q: Person = treated(p, delta, period, draw, curability, hospitalisation);
        proof {
            let earlier = draws;
            draws = draws.push(draw);
            assert(draws.drop_last() =~= earlier);
            assert(source.take(i + 1).drop_last() =~= source.take(i as int));
            assert(source.take(i + 1).last() == p);
        }
        match q {
            Person::Infectious(_, true, _) => {
                let second: u64 = sampler.below(UNIT);
                proof {
                    let earlier = seconds;
                    seconds = seconds.push(second);
                    assert(seconds.drop_last() =~= earlier);
                }
                cured = cured + 1;
                if reinfection.hits(second) {
                    exposed.push(Person::Exposed(0));
                    reinfected = reinfected + 1;
                    assert(exposed@ =~= exposed_before + copies(
                        Person::Exposed(0),
                        reinfected as nat,
                    ));
                } else {
                    resistant.push(Person::Resistant);
                    assert(resistant@ =~= resistant_before + copies(
                        Person::Resistant,
                        (cured - reinfected) as nat,
                    ));
                }
            },
            _ => {
                proof {
                    let earlier = seconds;
                    seconds = seconds.push(0);
                    assert(seconds.drop_last() =~= earlier);
                }
                kept.push(q);
            },
        }
        i = i + 1;
    }
    assert(source.take(source.len() as int) =~= source);
    *infected = kept;
    let r = Treatment { cured, reinfected };
    assert(treated_by(
        source,
        infected@,
        r.reinfected as nat,
        delta,
        period,
        draws,
        seconds,
        curability,
        hospitalisation,
        reinfection,
    ));
    r
}

/// Mortality. Every infectious individual dies if a fresh draw falls under
/// `fatality`; the survivors stay in their order.
pub fn decease(
    infected: &mut Vec<Person>,
    dead: &mut Vec<Person>,
    fatality: Chance,
    sampler: &mut Sampler,
) -> (deaths: usize)
    requires
        old(sampler).wf(),
        all_infectious(old(infected)@),
    ensures
        final(sampler).wf(),
        final(sampler).script() == old(sampler).script(),
        exists|draws: Seq<u64>| survived_by(old(infected)@, final(infected)@, draws, fatality),
        old(sampler).script().len() > 0 ==> {
            &&& survived_by(
                old(infected)@,
                final(infected)@,
                Sampler::replay(
                    old(sampler).script(),
                    old(sampler).cursor(),
                    old(infected)@.len(),
                    UNIT,
                ),
                fatality,
            )
            &&& final(sampler).cursor() == Sampler::ahead(
                old(sampler).cursor(),
                old(sampler).script().len(),
                old(infected)@.len(),
            )
        },
        all_infectious(final(infected)@),
        final(infected)@.len() + deaths == old(infected)@.len(),
        final(dead)@ == old(dead)@ + copies(Person::Dead, deaths as nat),
        fatality.is_never() ==> final(infected)@ == old(infected)@,
        fatality.is_certain() ==> deaths == old(infected)@.len(),
{
    let ghost source = infected@;
    let ghost dead_before = dead@;
    let ghost script = sampler.script();
    let ghost start = sampler.cursor();
    let mut kept: Vec<Person> = Vec::new();
    let mut deaths: usize = 0;
    let mut i: usize = 0;
    let ghost mut draws: Seq<u64> = Seq::empty();
    assert(dead@ =~= dead_before + copies(Person::Dead, 0));
    while i < infected.len()
        invariant
            i <= infected.len(),
            infected@ == source,
            all_infectious(source),
            sampler.wf(),
            sampler.script() == script,
            all_infectious(kept@),
            kept@.len() + deaths == i,
            draws.len() == i,
            in_range(draws),
            kept@ == survivors(source.take(i as int), draws, fatality),
            script.len() > 0 ==> sampler.cursor() == Sampler::ahead(start, script.len(), i as nat)
                && draws == Sampler::replay(script, start, i as nat, UNIT),
            dead@ == dead_before + copies(Person::Dead, deaths as nat),
            fatality.is_never() ==> kept@ == source.take(i as int),
            fatality.is_certain() ==> deaths == i,
        decreases infected.len() - i,
    {
        let p: Person = infected[i];
        assert(source[i as int].settled_infectious());
        let draw: u64 = sampler.below(UNIT);
        proof {
            let earlier = draws;
            draws = draws.push(draw);
            assert(draws.drop_last() =~= earlier);
            if script.len() > 0 {
                assert(draws =~= Sampler::replay(script, start, (i + 1) as nat, UNIT));
            }
            assert(source.take(i + 1).drop_last() =~= source.take(i as int));
            assert(source.take(i + 1).last() == p);
        }
        if fatality.hits(draw) {
            dead.push(Person::Dead);
            deaths = deaths + 1;
            assert(dead@ =~= dead_before + copies(Person::Dead, deaths as nat));
        } else {
            kept.push(p);
            assert(fatality.is_never() ==> kept@ =~= source.take(i + 1));
        }
        i = i + 1;
    }
    assert(source.take(source.len() as int) =~= source);
    *infected = kept;
    assert(survived_by(source, infected@, draws, fatality));
    deaths
}

} // verus!
