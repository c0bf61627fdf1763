use vstd::prelude::*;

verus! {

/// One of the three teams of the game.
#[derive(Copy, Clone, Debug, PartialEq, Eq, Structural)]
pub enum Team {
    Rock,
    Paper,
    Scissor,
}

pub const ROCK_BITS: u8 = 0b100001;

pub const PAPER_BITS: u8 = 0b001010;

pub const SCISSOR_BITS: u8 = 0b010100;

/// The six-bit pattern of a team: two bits set. The low one (position 0, 1
/// or 2) names the team; the high one sits three positions above the low bit
/// of the team that it beats.
pub open spec fn bits_of(t: Team) -> u8 {
    match t {
        Team::Rock => ROCK_BITS,
        Team::Paper => PAPER_BITS,
        Team::Scissor => SCISSOR_BITS,
    }
}

impl Team {
    /// The team's six-bit pattern.
    pub fn bits(self) -> (r: u8)
        ensures
            r == bits_of(self),
    {
        match self {
            Team::Rock => ROCK_BITS,
            Team::Paper => PAPER_BITS,
            Team::Scissor => SCISSOR_BITS,
        }
    }
}

/// The team of agent `i` of `n` at the start: the first third (rounded
/// down) is rock, the agents up to two thirds of `n` (rounded down) are
/// paper, and the rest are scissor.
pub open spec fn initial_team_of(i: int, n: int) -> Team {
    if i < n / 3 {
        Team::Rock
    } else if i < (n * 2) / 3 {
        Team::Paper
    } else {
        Team::Scissor
    }
}

/// The team that agent `i` of a population of `num_bots` starts on.
pub fn initial_team(i: usize, num_bots: usize) -> (r: Team)
    requires
        num_bots <= usize::MAX / 2,
    ensures
        r == initial_team_of(i as int, num_bots as int),
{
    if i < num_bots / 3 {
        Team::Rock
    } else if i < num_bots * 2 / 3 {
        Team::Paper
    } else {
        Team::Scissor
    }
}

/// What agent `a` does about agent `b`.
#[derive(Copy, Clone, Debug, PartialEq, Eq, Structural)]
pub enum Res {
    /// Same team: separate gently.
    Equal,
    /// `a` beats `b`.
    Attack,
    /// `b` beats `a`.
    Avoid,
}

/// The predicate on encoded bytes: equal bytes give `Equal`; otherwise `a`
/// attacks when one of its bits meets a bit of `b` shifted up by three.
pub open spec fn interact_bits(a: u8, b: u8) -> Res {
    if a == b {
        Res::Equal
    } else if a & ((b << 3u8) as u8) != 0 {
        Res::Attack
    } else {
        Res::Avoid
    }
}

/// The game's table: rock beats scissor, scissor beats paper, paper beats
/// rock.
pub open spec fn beats(a: Team, b: Team) -> bool {
    match (a, b) {
        (Team::Rock, Team::Scissor) | (Team::Scissor, Team::Paper) | (Team::Paper, Team::Rock) => true,
        _ => false,
    }
}

/// The outcome that the table gives for two teams.
pub open spec fn interact(a: Team, b: Team) -> Res {
    if a == b {
        Res::Equal
    } else if beats(a, b) {
        Res::Attack
    } else {
        Res::Avoid
    }
}

/// The single AND on the patterns decides the game's table.
pub proof fn lemma_bits_match_table(a: Team, b: Team)
    ensures
        interact_bits(bits_of(a), bits_of(b)) == interact(a, b),
{
    assert(ROCK_BITS & ((SCISSOR_BITS << 3u8) as u8) != 0) by (bit_vector);
    assert(SCISSOR_BITS & ((PAPER_BITS << 3u8) as u8) != 0) by (bit_vector);
    assert(PAPER_BITS & ((ROCK_BITS << 3u8) as u8) != 0) by (bit_vector);
    assert(ROCK_BITS & ((PAPER_BITS << 3u8) as u8) == 0) by (bit_vector);
    assert(SCISSOR_BITS & ((ROCK_BITS << 3u8) as u8) == 0) by (bit_vector);
    assert(PAPER_BITS & ((SCISSOR_BITS << 3u8) as u8) == 0) by (bit_vector);
}

/// Whether `a` should attack or avoid `b`, from `a`'s side: one AND of
/// `a`'s pattern with `b`'s pattern shifted up by three.
pub fn func(a: Team, b: Team) -> (r: Res)
    ensures
        r == interact_bits(bits_of(a), bits_of(b)),
        r == interact(a, b),
{
    let x = a.bits();
    let y = b.bits();
    let r = if x == y {
        Res::Equal
    } else if x & (y << 3u8) != 0 {
        Res::Attack
    } else {
        Res::Avoid
    };
    proof {
        lemma_bits_match_table(a, b);
    }
    r
}

/// Every team meets itself as `Equal`.
pub proof fn lemma_interact_reflexive(t: Team)
    ensures
        interact(t, t) == Res::Equal,
        interact_bits(bits_of(t), bits_of(t)) == Res::Equal,
{
}

/// For two different teams exactly one side attacks, and the other avoids.
pub proof fn lemma_interact_anti_symmetric(a: Team, b: Team)
    requires
        a != b,
    ensures
        (interact(a, b) == Res::Attack) != (interact(b, a) == Res::Attack),
        interact(a, b) == Res::Attack <==> interact(b, a) == Res::Avoid,
        interact(a, b) != Res::Equal,
{
}

} // verus!
