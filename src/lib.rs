//! Rock–paper–scissors agents: the team predicate, the rule by which close
//! contacts convert agents, and the decision of which impulse a pair of
//! agents receives.

pub mod convert;
pub mod pair;
pub mod team;

pub use convert::{convert, convert_contacts};
pub use pair::{plan, Kick};
pub use team::{func, initial_team, Res, Team, PAPER_BITS, ROCK_BITS, SCISSOR_BITS};
