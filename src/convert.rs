use vstd::prelude::*;
use crate::team::{func, interact, Res, Team};

verus! {

/// The teams of two agents in close contact after the conversion rule: the
/// winner converts the loser; equal teams stay as they are.
pub open spec fn converted(a: Team, b: Team) -> (Team, Team) {
    match interact(a, b) {
        Res::Attack => (a, a),
        Res::Avoid => (b, b),
        Res::Equal => (a, b),
    }
}

/// Applies the conversion rule to one contact between agents `i` and `j`;
/// a contact that names no agent of the population changes nothing.
pub open spec fn convert_one(teams: Seq<Team>, i: int, j: int) -> Seq<Team> {
    if 0 <= i < teams.len() && 0 <= j < teams.len() {
        let (x, y) = converted(teams[i], teams[j]);
        teams.update(i, x).update(j, y)
    } else {
        teams
    }
}

/// The population's teams after the contacts, taken in order.
pub open spec fn convert_all(teams: Seq<Team>, contacts: Seq<(usize, usize)>) -> Seq<Team>
    decreases contacts.len(),
{
    if contacts.len() == 0 {
        teams
    } else {
        let c = contacts.last();
        convert_one(convert_all(teams, contacts.drop_last()), c.0 as int, c.1 as int)
    }
}

/// Whether every agent of the population is on team `t`.
pub open spec fn all_on(teams: Seq<Team>, t: Team) -> bool {
    forall|k: int| 0 <= k < teams.len() ==> teams[k] == t
}

/// Whether team `t` is present in the population.
pub open spec fn present(teams: Seq<Team>, t: Team) -> bool {
    exists|k: int| 0 <= k < teams.len() && teams[k] == t
}

/// The conversion rule on one contact: when `a` beats `b`, `b` joins `a`'s
/// team; when `b` beats `a`, `a` joins `b`'s team; otherwise nothing changes.
pub fn convert(a: &mut Team, b: &mut Team)
    ensures
        (*final(a), *final(b)) == converted(*old(a), *old(b)),
{
    match func(*a, *b) {
        Res::Attack => {
            *b = *a;
        },
        Res::Avoid => {
            *a = *b;
        },
        Res::Equal => {},
    }
}

/// Runs the conversion rule over a list of contacts between agents, given
/// by index, in order. A contact of an agent with itself changes nothing,
/// and one that names an index outside the population is skipped.
pub fn convert_contacts(teams: &mut Vec<Team>, contacts: &Vec<(usize, usize)>)
    ensures
        final(teams)@ == convert_all(old(teams)@, contacts@),
        final(teams)@.len() == old(teams)@.len(),
{
    let mut k: usize = 0;
    while k < contacts.len()
        invariant
            0 <= k <= contacts@.len(),
            teams@.len() == old(teams)@.len(),
            teams@ == convert_all(old(teams)@, contacts@.take(k as int)),
        decreases contacts@.len() - k,
    {
        let (i, j) = contacts[k];
        if i < teams.len() && j < teams.len() {
            let mut x = teams[i];
            let mut y = teams[j];
            convert(&mut x, &mut y);
            teams.set(i, x);
            teams.set(j, y);
        }
        assert(contacts@.take(k + 1).drop_last() =~= contacts@.take(k as int));
        k += 1;
    }
    assert(contacts@.take(k as int) =~= contacts@);
}

/// A contact leaves each agent on one of the two teams that met.
pub proof fn lemma_converted_from_pair(a: Team, b: Team)
    ensures
        converted(a, b).0 == a || converted(a, b).0 == b,
        converted(a, b).1 == a || converted(a, b).1 == b,
{
}

/// Contacts never change the number of agents.
pub proof fn lemma_convert_all_len(teams: Seq<Team>, contacts: Seq<(usize, usize)>)
    ensures
        convert_all(teams, contacts).len() == teams.len(),
    decreases contacts.len(),
{
    if contacts.len() > 0 {
        lemma_convert_all_len(teams, contacts.drop_last());
    }
}

/// No run of contacts brings in a team that was not present before it.
pub proof fn lemma_no_new_team(teams: Seq<Team>, contacts: Seq<(usize, usize)>, t: Team)
    requires
        present(convert_all(teams, contacts), t),
    ensures
        present(teams, t),
    decreases contacts.len(),
{
    if contacts.len() > 0 {
        let rest = contacts.drop_last();
        let before = convert_all(teams, rest);
        let c = contacts.last();
        let (i, j) = (c.0 as int, c.1 as int);
        let after = convert_one(before, i, j);
        let k = choose|k: int| 0 <= k < after.len() && after[k] == t;
        if 0 <= i < before.len() && 0 <= j < before.len() && (k == i || k == j) {
            assert(before[i] == t || before[j] == t);
        } else {
            assert(before[k] == t);
        }
        lemma_no_new_team(teams, rest, t);
    }
}

/// Once only one team is present, any run of contacts leaves it the only team.
pub proof fn lemma_single_team_stays(teams: Seq<Team>, contacts: Seq<(usize, usize)>, t: Team)
    requires
        all_on(teams, t),
    ensures
        all_on(convert_all(teams, contacts), t),
        convert_all(teams, contacts).len() == teams.len(),
    decreases contacts.len(),
{
    if contacts.len() > 0 {
        lemma_single_team_stays(teams, contacts.drop_last(), t);
    }
}

} // verus!
