use tournament_parser::{ImmuneStatus, LifeStatus, MatchType};

const ALL_MATCH_TYPES: [MatchType; 8] = [
    MatchType::Final,
    MatchType::SemiFinal,
    MatchType::QuarterFinal,
    MatchType::Bonus,
    MatchType::Game4,
    MatchType::Game3,
    MatchType::Game2,
    MatchType::Game1,
];

#[test]
fn file_token_round_trip_all_variants() {
    for mt in ALL_MATCH_TYPES {
        let token = mt.to_file_str();
        assert_eq!(MatchType::from_str(token), Some(mt));
    }
}

#[test]
fn wire_tokens_are_the_documented_lowercase_spellings() {
    assert_eq!(MatchType::from_str("Final").unwrap().to_str(), "final");
    assert_eq!(MatchType::from_str("Semifinal").unwrap().to_str(), "semifinal");
    assert_eq!(
        MatchType::from_str("Quarterfinal").unwrap().to_str(),
        "quarterfinal"
    );
    assert_eq!(MatchType::from_str("Bonus").unwrap().to_str(), "bonus");
    assert_eq!(MatchType::from_str("Game 4").unwrap().to_str(), "game_4");
    assert_eq!(MatchType::from_str("Game 3").unwrap().to_str(), "game_3");
    assert_eq!(MatchType::from_str("Game 2").unwrap().to_str(), "game_2");
    assert_eq!(MatchType::from_str("Game 1").unwrap().to_str(), "game_1");
}

#[test]
fn file_tokens_are_the_documented_header_spellings() {
    assert_eq!(MatchType::Final.to_file_str(), "Final");
    assert_eq!(MatchType::SemiFinal.to_file_str(), "Semifinal");
    assert_eq!(MatchType::QuarterFinal.to_file_str(), "Quarterfinal");
    assert_eq!(MatchType::Bonus.to_file_str(), "Bonus");
    assert_eq!(MatchType::Game4.to_file_str(), "Game 4");
    assert_eq!(MatchType::Game3.to_file_str(), "Game 3");
    assert_eq!(MatchType::Game2.to_file_str(), "Game 2");
    assert_eq!(MatchType::Game1.to_file_str(), "Game 1");
}

#[test]
fn wire_and_file_tokens_differ_for_every_variant() {
    for mt in ALL_MATCH_TYPES {
        assert_ne!(mt.to_str(), mt.to_file_str());
    }
}

#[test]
fn match_type_decoding_is_case_sensitive_and_exact() {
    assert_eq!(MatchType::from_str("final"), None);
    assert_eq!(MatchType::from_str("FINAL"), None);
    assert_eq!(MatchType::from_str("Game1"), None);
    assert_eq!(MatchType::from_str("Game  1"), None);
    assert_eq!(MatchType::from_str(""), None);
    assert_eq!(MatchType::from_str("Fin"), None);
}

#[test]
fn life_status_codes_decode() {
    assert_eq!(LifeStatus::from_str("a"), Some(LifeStatus::Alive));
    assert_eq!(LifeStatus::from_str("e"), Some(LifeStatus::Eliminated));
    assert_eq!(LifeStatus::from_str("p"), Some(LifeStatus::Playing));
    assert_eq!(LifeStatus::from_str("x"), None);
    assert_eq!(LifeStatus::from_str(""), None);
    assert_eq!(LifeStatus::from_str("A"), None);
}

#[test]
fn life_status_wire_tokens() {
    assert_eq!(LifeStatus::Alive.to_str(), "alive");
    assert_eq!(LifeStatus::Eliminated.to_str(), "eliminated");
    assert_eq!(LifeStatus::Playing.to_str(), "playing");
}

#[test]
fn immune_status_codes_decode_including_empty_string() {
    assert_eq!(ImmuneStatus::from_str("i"), Some(ImmuneStatus::Immune));
    assert_eq!(ImmuneStatus::from_str("is"), Some(ImmuneStatus::Saved));
    assert_eq!(ImmuneStatus::from_str(""), Some(ImmuneStatus::NoImmune));
    assert_eq!(ImmuneStatus::from_str("z"), None);
    assert_eq!(ImmuneStatus::from_str("I"), None);
    assert_eq!(ImmuneStatus::from_str("si"), None);
}

#[test]
fn immune_status_wire_tokens() {
    assert_eq!(ImmuneStatus::Immune.to_str(), "immune");
    assert_eq!(ImmuneStatus::Saved.to_str(), "saved");
    assert_eq!(ImmuneStatus::NoImmune.to_str(), "none");
}
