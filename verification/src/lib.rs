//! Parsing and standings derivation for bracket-style elimination
//! tournaments.
//!
//! The library turns a plain-text tournament description (round headers
//! such as `Final` or `Game 3`, each followed by a block of player result
//! lines) into a structured [`records::ParsedTournament`], and derives from
//! the parsed matches the ordered list of players that should receive win
//! and ranking credit.  Every function is verified: the parser is proved
//! to return exactly what a specification-level line-driven state machine
//! computes, and the standings deriver exactly a specification-level
//! filter over the matches.

pub mod parser;
pub mod records;
pub mod standings;
pub mod text;
pub mod tokens;

pub use parser::{get_match_type, parse, parse_player, PlayerLineError};
pub use records::{DateTime, Match, MatchUser, ParseError, ParsedTournament, UserInput};
pub use standings::get_overall_player_list;
pub use tokens::{ImmuneStatus, LifeStatus, MatchType};
