//! Historical-overlap filtering engine for Mega-Sena lottery games.
//!
//! A game is six distinct numbers from the universe `[1, 60]`. The engine
//! generates random candidate games and filters out those that resemble past
//! winning draws too closely, under three independent heuristics: exact
//! duplication of a past draw, containment of a trio (three numbers that
//! co-occurred in a single past draw), and excessive numeric overlap with any
//! past draw, combined with a sum-range bound derived from history.

pub mod analyser;
pub mod csv_campos;
pub mod game_generator;
pub mod mega_sena;
pub mod migrations;
pub mod orchestrator;
pub mod sum_bounds;

pub use mega_sena::EngineError;
pub use mega_sena::HistoricoMegaSena;
pub use mega_sena::MegaSena;
