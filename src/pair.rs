use vstd::prelude::*;
use crate::team::{func, interact, Res, Team};

verus! {

/// The velocity change that one pair of agents `a`, `b` receives. `norm` is
/// the unit vector from `a` to `b`; `mag` is the pair-force coefficient
/// times the square of the relative overlap of the two interaction discs.
#[derive(Copy, Clone, Debug, PartialEq, Eq, Structural)]
pub enum Kick {
    /// The two agents sit on one point: `a` gets `(+1, 0)`, `b` gets `(-1, 0)`.
    Unstick,
    /// Out of range: nothing changes.
    Still,
    /// `a` beats `b`: both get `+norm * mag`, and `a` chases `b`.
    Chase,
    /// `b` beats `a`: both get `-norm * mag`, and `a` flees.
    Flee,
    /// Same team: `a` gets `+norm * 0.003`, `b` gets `-norm * 0.003`.
    Part,
}

/// The kick for a pair: coincident positions come first, whatever the
/// teams; then the range test; then the teams decide.
pub open spec fn kick_for(coincident: bool, in_range: bool, a: Team, b: Team) -> Kick {
    if coincident {
        Kick::Unstick
    } else if !in_range {
        Kick::Still
    } else {
        match interact(a, b) {
            Res::Attack => Kick::Chase,
            Res::Avoid => Kick::Flee,
            Res::Equal => Kick::Part,
        }
    }
}

/// Decides how a pair of agents is resolved. `coincident` says that the
/// squared distance between them is below the threshold for one point;
/// `in_range` that the distance is below twice the interaction radius.
pub fn plan(coincident: bool, in_range: bool, a: Team, b: Team) -> (r: Kick)
    ensures
        r == kick_for(coincident, in_range, a, b),
        coincident ==> r == Kick::Unstick,
        !coincident && !in_range ==> r == Kick::Still,
{
    if coincident {
        Kick::Unstick
    } else if !in_range {
        Kick::Still
    } else {
        match func(a, b) {
            Res::Attack => Kick::Chase,
            Res::Avoid => Kick::Flee,
            Res::Equal => Kick::Part,
        }
    }
}

/// Resolving the pair the other way round gives the mirrored kick: an
/// attack seen from one side is a flight seen from the other, and a
/// same-team kick stays one.
pub proof fn lemma_plan_swapped(coincident: bool, in_range: bool, a: Team, b: Team)
    ensures
        kick_for(coincident, in_range, a, b) == Kick::Chase <==> kick_for(coincident, in_range, b, a) == Kick::Flee,
        kick_for(coincident, in_range, a, b) == Kick::Part <==> kick_for(coincident, in_range, b, a) == Kick::Part,
        kick_for(coincident, in_range, a, b) == Kick::Still <==> kick_for(coincident, in_range, b, a) == Kick::Still,
{
}

} // verus!
