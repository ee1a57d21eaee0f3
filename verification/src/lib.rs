//! A chess engine core: static evaluation, move ordering, hash-indexed
//! tables, quiescence and principal-variation search, the
//! iterative-deepening driver, and the rules of the UCI front end, each with
//! a machine-checked contract. The rules of chess come from the `chess`
//! crate.

pub mod moves;
pub mod tables;
pub mod placement;
pub mod fen;
pub mod position;
pub mod eval;
pub mod ordering;
pub mod signal;
pub mod quiescence;
pub mod search;
pub mod driver;
pub mod uci;

pub use driver::{Deepening, IterationReport};
pub use eval::evaluate;
pub use moves::Move;
pub use placement::Placement;
pub use position::Position;
pub use search::Engine;
pub use signal::StopSignal;
