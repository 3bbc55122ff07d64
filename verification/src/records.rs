//! The record types a parse produces — the tournament, its matches and the
//! player result lines — together with the caller-supplied metadata, the
//! typed parse failure, and the mathematical views the contracts speak of.

use vstd::prelude::*;

use crate::tokens::{ImmuneStatus, LifeStatus, MatchType};

verus! {

/// A calendar date and time of day, carried as plain fields.  The library
/// never inspects it: it is caller-supplied metadata stored on the parsed
/// tournament unchanged and unvalidated.
#[derive(Clone, Copy, Debug, PartialEq, Eq, Structural)]
pub struct DateTime {
    pub year: i32,
    pub month: u8,
    pub day: u8,
    pub hour: u8,
    pub minute: u8,
}

/// The metadata the caller collects outside the parser: a title, a date and
/// an optional media link.
#[derive(Debug)]
pub struct UserInput {
    pub title: String,
    pub date: DateTime,
    pub link: Option<String>,
}

/// One line inside a match block: a player's result in that match.
#[derive(Clone, Debug, PartialEq, Eq)]
pub struct MatchUser {
    pub username: String,
    pub user_id: String,
    pub rank: i32,
    pub life_status: LifeStatus,
    pub immune_status: ImmuneStatus,
}

/// One round of the bracket: its type, its player results in file order,
/// and its zero-based position among all parsed matches.
#[derive(Clone, Debug, PartialEq, Eq)]
pub struct Match {
    pub match_type: MatchType,
    pub players: Vec<MatchUser>,
    pub match_index: i32,
}

/// The fully parsed tournament: the version from the first line, the
/// matches in file order, and the caller-supplied metadata.
#[derive(Debug)]
pub struct ParsedTournament {
    pub version: i32,
    pub matches: Vec<Match>,
    pub date: DateTime,
    pub title: String,
    pub link: Option<String>,
}

/// A typed parse failure.  Every variant that points at a line carries the
/// zero-based index of that line in the input sequence and its raw content.
#[derive(Clone, Debug, PartialEq, Eq)]
pub enum ParseError {
    /// The input has no first line to read a version from.
    MissingVersion,
    /// The first line is not `v` followed by a decimal integer.
    InvalidVersion { content: String },
    /// A line in a player block does not split into five colon-separated
    /// fields, or its rank field is not a decimal integer.
    MalformedPlayerLine { line: usize, content: String },
    /// A line in a player block carries an immune or life status code
    /// outside the recognized set.
    UnknownEnumCode { line: usize, content: String },
}

/// The view of a player result line.
#[verifier::ext_equal]
pub ghost struct PlayerView {
    pub username: Seq<char>,
    pub user_id: Seq<char>,
    pub rank: int,
    pub life_status: LifeStatus,
    pub immune_status: ImmuneStatus,
}

/// The view of a match.
#[verifier::ext_equal]
pub ghost struct MatchView {
    pub match_type: MatchType,
    pub players: Seq<PlayerView>,
    pub match_index: int,
}

/// The view of the caller-supplied metadata.
#[verifier::ext_equal]
pub ghost struct UserInputView {
    pub title: Seq<char>,
    pub date: DateTime,
    pub link: Option<Seq<char>>,
}

/// The view of a parsed tournament.
#[verifier::ext_equal]
pub ghost struct TournamentView {
    pub version: int,
    pub matches: Seq<MatchView>,
    pub date: DateTime,
    pub title: Seq<char>,
    pub link: Option<Seq<char>>,
}

/// The view of a parse failure.
#[verifier::ext_equal]
pub ghost enum ErrorView {
    MissingVersion,
    InvalidVersion { content: Seq<char> },
    MalformedPlayerLine { line: int, content: Seq<char> },
    UnknownEnumCode { line: int, content: Seq<char> },
}

impl View for MatchUser {
    type V = PlayerView;

    open spec fn view(&self) -> PlayerView {
        PlayerView {
            username: self.username@,
            user_id: self.user_id@,
            rank: self.rank as int,
            life_status: self.life_status,
            immune_status: self.immune_status,
        }
    }
}

impl View for Match {
    type V = MatchView;

    open spec fn view(&self) -> MatchView {
        MatchView {
            match_type: self.match_type,
            players: self.players@.map_values(|p: MatchUser| p@),
            match_index: self.match_index as int,
        }
    }
}

impl View for UserInput {
    type V = UserInputView;

    open spec fn view(&self) -> UserInputView {
        UserInputView {
            title: self.title@,
            date: self.date,
            link: match self.link {
                Some(ref s) => Some(s@),
                None => None,
            },
        }
    }
}

impl View for ParsedTournament {
    type V = TournamentView;

    open spec fn view(&self) -> TournamentView {
        TournamentView {
            version: self.version as int,
            matches: self.matches@.map_values(|m: Match| m@),
            date: self.date,
            title: self.title@,
            link: match self.link {
                Some(ref s) => Some(s@),
                None => None,
            },
        }
    }
}

impl View for ParseError {
    type V = ErrorView;

    open spec fn view(&self) -> ErrorView {
        match self {
            ParseError::MissingVersion => ErrorView::MissingVersion,
            ParseError::InvalidVersion { content } => ErrorView::InvalidVersion {
                content: content@,
            },
            ParseError::MalformedPlayerLine { line, content } => ErrorView::MalformedPlayerLine {
                line: *line as int,
                content: content@,
            },
            ParseError::UnknownEnumCode { line, content } => ErrorView::UnknownEnumCode {
                line: *line as int,
                content: content@,
            },
        }
    }
}

} // verus!
