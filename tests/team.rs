use rps_sim::{func, initial_team, Res, Team, PAPER_BITS, ROCK_BITS, SCISSOR_BITS};

const ALL: [Team; 3] = [Team::Rock, Team::Paper, Team::Scissor];

#[test]
fn avoid_trio() {
    assert_eq!(func(Team::Rock, Team::Paper), Res::Avoid);
    assert_eq!(func(Team::Scissor, Team::Rock), Res::Avoid);
    assert_eq!(func(Team::Paper, Team::Scissor), Res::Avoid);
}

#[test]
fn attack_trio() {
    assert_eq!(func(Team::Paper, Team::Rock), Res::Attack);
    assert_eq!(func(Team::Rock, Team::Scissor), Res::Attack);
    assert_eq!(func(Team::Scissor, Team::Paper), Res::Attack);
}

#[test]
fn equal_trio() {
    assert_eq!(func(Team::Rock, Team::Rock), Res::Equal);
    assert_eq!(func(Team::Paper, Team::Paper), Res::Equal);
    assert_eq!(func(Team::Scissor, Team::Scissor), Res::Equal);
}

#[test]
fn rps_cycle_and_reverse() {
    assert_eq!(func(Team::Rock, Team::Scissor), Res::Attack);
    assert_eq!(func(Team::Scissor, Team::Paper), Res::Attack);
    assert_eq!(func(Team::Paper, Team::Rock), Res::Attack);
    assert_eq!(func(Team::Scissor, Team::Rock), Res::Avoid);
    assert_eq!(func(Team::Paper, Team::Scissor), Res::Avoid);
    assert_eq!(func(Team::Rock, Team::Paper), Res::Avoid);
}

#[test]
fn every_team_meets_itself_as_equal() {
    for t in ALL {
        assert_eq!(func(t, t), Res::Equal);
    }
}

#[test]
fn distinct_teams_exactly_one_attacks() {
    for a in ALL {
        for b in ALL {
            if a != b {
                let ab = func(a, b);
                let ba = func(b, a);
                assert!((ab == Res::Attack) != (ba == Res::Attack));
                assert_ne!(ab, Res::Equal);
                assert_ne!(ba, Res::Equal);
            }
        }
    }
}

#[test]
fn team_bit_patterns() {
    assert_eq!(Team::Rock.bits(), 0b100001);
    assert_eq!(Team::Paper.bits(), 0b001010);
    assert_eq!(Team::Scissor.bits(), 0b010100);
    assert_eq!(ROCK_BITS, 0b100001);
    assert_eq!(PAPER_BITS, 0b001010);
    assert_eq!(SCISSOR_BITS, 0b010100);
    for t in ALL {
        let b = t.bits();
        assert_eq!(b.count_ones(), 2);
        assert_eq!((b & 0b111).count_ones(), 1);
        assert_eq!((b & 0b111000).count_ones(), 1);
    }
    // the high bit of the winner sits three places above the low bit of the loser
    assert_eq!(ROCK_BITS & 0b111000, (SCISSOR_BITS & 0b111) << 3);
    assert_eq!(SCISSOR_BITS & 0b111000, (PAPER_BITS & 0b111) << 3);
    assert_eq!(PAPER_BITS & 0b111000, (ROCK_BITS & 0b111) << 3);
}

#[test]
fn initial_split_in_thirds() {
    assert_eq!(initial_team(0, 1000), Team::Rock);
    assert_eq!(initial_team(332, 1000), Team::Rock);
    assert_eq!(initial_team(333, 1000), Team::Paper);
    assert_eq!(initial_team(665, 1000), Team::Paper);
    assert_eq!(initial_team(666, 1000), Team::Scissor);
    assert_eq!(initial_team(999, 1000), Team::Scissor);
    assert_eq!(initial_team(0, 2), Team::Paper);
    assert_eq!(initial_team(1, 2), Team::Scissor);
}
