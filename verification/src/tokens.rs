//! The closed enumerations of the tournament file format, each with two
//! independent total token mappings: the file-header token recognized in the
//! raw text, and the lowercase persistence token handed to the storage
//! collaborator.  The two spellings are deliberately different and both are
//! pinned down here.

use vstd::prelude::*;

use crate::text::str_eq;

verus! {

/// The round of a bracket, ordered by stage severity.
#[derive(Clone, Copy, Debug, PartialEq, Eq, Structural)]
pub enum MatchType {
    Final,
    SemiFinal,
    QuarterFinal,
    Bonus,
    Game4,
    Game3,
    Game2,
    Game1,
}

/// Whether a player survived the match, with one-character file codes.
#[derive(Clone, Copy, Debug, PartialEq, Eq, Structural)]
pub enum LifeStatus {
    Alive,
    Eliminated,
    Playing,
}

/// A player's immunity in the match; `NoImmune` is the explicit "no
/// immune status", encoded in the file as the empty string.
#[derive(Clone, Copy, Debug, PartialEq, Eq, Structural)]
pub enum ImmuneStatus {
    Immune,
    Saved,
    NoImmune,
}

/// The header token that identifies `mt` in the raw tournament text.
pub open spec fn spec_file_token(mt: MatchType) -> Seq<char> {
    match mt {
        MatchType::Final => "Final"@,
        MatchType::SemiFinal => "Semifinal"@,
        MatchType::QuarterFinal => "Quarterfinal"@,
        MatchType::Bonus => "Bonus"@,
        MatchType::Game4 => "Game 4"@,
        MatchType::Game3 => "Game 3"@,
        MatchType::Game2 => "Game 2"@,
        MatchType::Game1 => "Game 1"@,
    }
}

/// The lowercase token the persistence collaborator expects for `mt`.
pub open spec fn spec_wire_token(mt: MatchType) -> Seq<char> {
    match mt {
        MatchType::Final => "final"@,
        MatchType::SemiFinal => "semifinal"@,
        MatchType::QuarterFinal => "quarterfinal"@,
        MatchType::Bonus => "bonus"@,
        MatchType::Game4 => "game_4"@,
        MatchType::Game3 => "game_3"@,
        MatchType::Game2 => "game_2"@,
        MatchType::Game1 => "game_1"@,
    }
}

/// The variant whose file-header token is exactly `s`, if any.
pub open spec fn spec_match_type_of_token(s: Seq<char>) -> Option<MatchType> {
    if s == "Final"@ {
        Some(MatchType::Final)
    } else if s == "Semifinal"@ {
        Some(MatchType::SemiFinal)
    } else if s == "Quarterfinal"@ {
        Some(MatchType::QuarterFinal)
    } else if s == "Bonus"@ {
        Some(MatchType::Bonus)
    } else if s == "Game 4"@ {
        Some(MatchType::Game4)
    } else if s == "Game 3"@ {
        Some(MatchType::Game3)
    } else if s == "Game 2"@ {
        Some(MatchType::Game2)
    } else if s == "Game 1"@ {
        Some(MatchType::Game1)
    } else {
        None
    }
}

/// The lowercase persistence token for a life status.
pub open spec fn spec_life_token(ls: LifeStatus) -> Seq<char> {
    match ls {
        LifeStatus::Alive => "alive"@,
        LifeStatus::Eliminated => "eliminated"@,
        LifeStatus::Playing => "playing"@,
    }
}

/// The variant whose file code is exactly `s`, if any.
pub open spec fn spec_life_of_code(s: Seq<char>) -> Option<LifeStatus> {
    if s == "a"@ {
        Some(LifeStatus::Alive)
    } else if s == "e"@ {
        Some(LifeStatus::Eliminated)
    } else if s == "p"@ {
        Some(LifeStatus::Playing)
    } else {
        None
    }
}

/// The lowercase persistence token for an immune status.
pub open spec fn spec_immune_token(st: ImmuneStatus) -> Seq<char> {
    match st {
        ImmuneStatus::Immune => "immune"@,
        ImmuneStatus::Saved => "saved"@,
        ImmuneStatus::NoImmune => "none"@,
    }
}

/// The variant whose file code is exactly `s`, if any; the empty string
/// explicitly encodes `ImmuneStatus::NoImmune`.
pub open spec fn spec_immune_of_code(s: Seq<char>) -> Option<ImmuneStatus> {
    if s == "i"@ {
        Some(ImmuneStatus::Immune)
    } else if s == "is"@ {
        Some(ImmuneStatus::Saved)
    } else if s == ""@ {
        Some(ImmuneStatus::NoImmune)
    } else {
        None
    }
}

impl MatchType {
    /// The persistence token for this round.
    pub fn to_str(&self) -> (r: &'static str)
        ensures
            r@ == spec_wire_token(*self),
    {
        match self {
            MatchType::Final => "final",
            MatchType::SemiFinal => "semifinal",
            MatchType::QuarterFinal => "quarterfinal",
            MatchType::Bonus => "bonus",
            MatchType::Game4 => "game_4",
            MatchType::Game3 => "game_3",
            MatchType::Game2 => "game_2",
            MatchType::Game1 => "game_1",
        }
    }

    /// The file-header token for this round.
    pub fn to_file_str(&self) -> (r: &'static str)
        ensures
            r@ == spec_file_token(*self),
    {
        match self {
            MatchType::Final => "Final",
            MatchType::SemiFinal => "Semifinal",
            MatchType::QuarterFinal => "Quarterfinal",
            MatchType::Bonus => "Bonus",
            MatchType::Game4 => "Game 4",
            MatchType::Game3 => "Game 3",
            MatchType::Game2 => "Game 2",
            MatchType::Game1 => "Game 1",
        }
    }

    /// Decodes a file-header token.
    pub fn from_str(input: &str) -> (r: Option<MatchType>)
        ensures
            r == spec_match_type_of_token(input@),
    {
        if str_eq(input, "Final") {
            Some(MatchType::Final)
        } else if str_eq(input, "Semifinal") {
            Some(MatchType::SemiFinal)
        } else if str_eq(input, "Quarterfinal") {
            Some(MatchType::QuarterFinal)
        } else if str_eq(input, "Bonus") {
            Some(MatchType::Bonus)
        } else if str_eq(input, "Game 4") {
            Some(MatchType::Game4)
        } else if str_eq(input, "Game 3") {
            Some(MatchType::Game3)
        } else if str_eq(input, "Game 2") {
            Some(MatchType::Game2)
        } else if str_eq(input, "Game 1") {
            Some(MatchType::Game1)
        } else {
            None
        }
    }
}

impl LifeStatus {
    /// The persistence token for this life status.
    pub fn to_str(&self) -> (r: &'static str)
        ensures
            r@ == spec_life_token(*self),
    {
        match self {
            LifeStatus::Alive => "alive",
            LifeStatus::Eliminated => "eliminated",
            LifeStatus::Playing => "playing",
        }
    }

    /// Decodes a one-character file code.
    pub fn from_str(input: &str) -> (r: Option<LifeStatus>)
        ensures
            r == spec_life_of_code(input@),
    {
        if str_eq(input, "a") {
            Some(LifeStatus::Alive)
        } else if str_eq(input, "e") {
            Some(LifeStatus::Eliminated)
        } else if str_eq(input, "p") {
            Some(LifeStatus::Playing)
        } else {
            None
        }
    }
}

impl ImmuneStatus {
    /// The persistence token for this immune status.
    pub fn to_str(&self) -> (r: &'static str)
        ensures
            r@ == spec_immune_token(*self),
    {
        match self {
            ImmuneStatus::Immune => "immune",
            ImmuneStatus::Saved => "saved",
            ImmuneStatus::NoImmune => "none",
        }
    }

    /// Decodes a file code; the empty string is a valid, explicit encoding
    /// of `ImmuneStatus::NoImmune`.
    pub fn from_str(input: &str) -> (r: Option<ImmuneStatus>)
        ensures
            r == spec_immune_of_code(input@),
    {
        if str_eq(input, "i") {
            Some(ImmuneStatus::Immune)
        } else if str_eq(input, "is") {
            Some(ImmuneStatus::Saved)
        } else if str_eq(input, "") {
            Some(ImmuneStatus::NoImmune)
        } else {
            None
        }
    }
}

/// Law: decoding a file-header token and re-encoding it through the
/// file-token mapping reproduces the original string, and every variant's
/// file token decodes back to that variant.
pub proof fn lemma_file_token_round_trip(s: Seq<char>)
    ensures
        forall|mt: MatchType| spec_match_type_of_token(s) == Some(mt) ==> spec_file_token(mt) == s,
        forall|mt: MatchType| #![auto] spec_match_type_of_token(spec_file_token(mt)) == Some(mt),
{
    lemma_tokens_distinct();
}

/// Law: the persistence token of every variant differs from its file-header
/// token (the two spellings of each round are deliberately distinct), and
/// decoding a file header then re-encoding through the persistence mapping
/// is determined: each file token leads to exactly one persistence token.
pub proof fn lemma_wire_token_round_trip(mt: MatchType)
    ensures
        spec_match_type_of_token(spec_file_token(mt)) == Some(mt),
        spec_wire_token(mt) != spec_file_token(mt),
{
    lemma_tokens_distinct();
}

/// The concrete shapes of the sixteen tokens: enough lengths and characters
/// to tell every pair apart.
proof fn lemma_tokens_distinct()
    ensures
        forall|mt: MatchType| #![auto] spec_match_type_of_token(spec_file_token(mt)) == Some(mt),
        forall|mt: MatchType| #![auto] spec_wire_token(mt) != spec_file_token(mt),
{
    reveal_strlit("Final");
    reveal_strlit("Semifinal");
    reveal_strlit("Quarterfinal");
    reveal_strlit("Bonus");
    reveal_strlit("Game 4");
    reveal_strlit("Game 3");
    reveal_strlit("Game 2");
    reveal_strlit("Game 1");
    reveal_strlit("final");
    reveal_strlit("semifinal");
    reveal_strlit("quarterfinal");
    reveal_strlit("bonus");
    reveal_strlit("game_4");
    reveal_strlit("game_3");
    reveal_strlit("game_2");
    reveal_strlit("game_1");
    assert("Final"@.len() == 5);
    assert("Semifinal"@.len() == 9);
    assert("Quarterfinal"@.len() == 12);
    assert("Bonus"@.len() == 5);
    assert("Game 4"@.len() == 6);
    assert("Game 3"@.len() == 6);
    assert("Game 2"@.len() == 6);
    assert("Game 1"@.len() == 6);
    assert("Final"@[0] == 'F');
    assert("Bonus"@[0] == 'B');
    assert("Game 4"@[5] == '4');
    assert("Game 3"@[5] == '3');
    assert("Game 2"@[5] == '2');
    assert("Game 1"@[5] == '1');
    assert("final"@.len() == 5);
    assert("semifinal"@.len() == 9);
    assert("quarterfinal"@.len() == 12);
    assert("bonus"@.len() == 5);
    assert("game_4"@.len() == 6);
    assert("game_3"@.len() == 6);
    assert("game_2"@.len() == 6);
    assert("game_1"@.len() == 6);
    assert("final"@[0] == 'f');
    assert("bonus"@[0] == 'b');
    assert("semifinal"@[0] == 's');
    assert("quarterfinal"@[0] == 'q');
    assert("game_4"@[4] == '_');
    assert("game_3"@[4] == '_');
    assert("game_2"@[4] == '_');
    assert("game_1"@[4] == '_');
    assert("Game 4"@[4] == ' ');
    assert("Game 3"@[4] == ' ');
    assert("Game 2"@[4] == ' ');
    assert("Game 1"@[4] == ' ');
}

} // verus!
