use tournament_parser::{
    get_match_type, parse, parse_player, DateTime, ImmuneStatus, LifeStatus, MatchType,
    ParseError, PlayerLineError, UserInput,
};

fn lines_of(text: &str) -> Vec<String> {
    text.lines().map(|l| l.to_string()).collect()
}

fn meta() -> UserInput {
    UserInput {
        title: "Spring Cup".to_string(),
        date: DateTime { year: 2024, month: 5, day: 1, hour: 18, minute: 30 },
        link: None,
    }
}

#[test]
fn scenario_single_final_match() {
    let lines = lines_of("v3\nFinal\n:a:1:u1:Alice\n:e:2:u2:Bob\n");
    let t = parse(&lines, &meta()).unwrap();
    assert_eq!(t.version, 3);
    assert_eq!(t.title, "Spring Cup");
    assert_eq!(t.link, None);
    assert_eq!(t.matches.len(), 1);
    let m = &t.matches[0];
    assert_eq!(m.match_type, MatchType::Final);
    assert_eq!(m.match_index, 0);
    assert_eq!(m.players.len(), 2);
    assert_eq!(m.players[0].username, "Alice");
    assert_eq!(m.players[0].user_id, "u1");
    assert_eq!(m.players[0].rank, 1);
    assert_eq!(m.players[0].life_status, LifeStatus::Alive);
    assert_eq!(m.players[0].immune_status, ImmuneStatus::NoImmune);
    assert_eq!(m.players[1].username, "Bob");
    assert_eq!(m.players[1].user_id, "u2");
    assert_eq!(m.players[1].rank, 2);
    assert_eq!(m.players[1].life_status, LifeStatus::Eliminated);
    assert_eq!(m.players[1].immune_status, ImmuneStatus::NoImmune);
}

#[test]
fn scenario_two_matches_with_blank_separator() {
    let lines = lines_of("v1\nGame 1\ni:p:1:u1:Alice\n:e:2:u2:Bob\n\nQuarterfinal\n:a:1:u3:Carl\n");
    let t = parse(&lines, &meta()).unwrap();
    assert_eq!(t.version, 1);
    assert_eq!(t.matches.len(), 2);
    assert_eq!(t.matches[0].match_type, MatchType::Game1);
    assert_eq!(t.matches[0].match_index, 0);
    assert_eq!(t.matches[0].players.len(), 2);
    assert_eq!(t.matches[0].players[0].username, "Alice");
    assert_eq!(t.matches[0].players[0].immune_status, ImmuneStatus::Immune);
    assert_eq!(t.matches[0].players[0].life_status, LifeStatus::Playing);
    assert_eq!(t.matches[0].players[1].username, "Bob");
    assert_eq!(t.matches[1].match_type, MatchType::QuarterFinal);
    assert_eq!(t.matches[1].match_index, 1);
    assert_eq!(t.matches[1].players.len(), 1);
    assert_eq!(t.matches[1].players[0].username, "Carl");
    assert_eq!(t.matches[1].players[0].life_status, LifeStatus::Alive);
}

#[test]
fn scenario_malformed_player_line_reports_line_number() {
    let lines = lines_of("v1\nGame 1\nx:y:bad:u1:Alice\n");
    let e = parse(&lines, &meta()).unwrap_err();
    assert_eq!(
        e,
        ParseError::UnknownEnumCode { line: 2, content: "x:y:bad:u1:Alice".to_string() }
    );
}

#[test]
fn scenario_header_at_eof_yields_empty_match() {
    let lines = lines_of("v2\nFinal");
    let t = parse(&lines, &meta()).unwrap();
    assert_eq!(t.matches.len(), 1);
    assert_eq!(t.matches[0].match_type, MatchType::Final);
    assert_eq!(t.matches[0].match_index, 0);
    assert!(t.matches[0].players.is_empty());
}

#[test]
fn empty_input_is_missing_version() {
    let lines: Vec<String> = Vec::new();
    assert_eq!(parse(&lines, &meta()).unwrap_err(), ParseError::MissingVersion);
}

#[test]
fn first_line_without_v_prefix_is_invalid_version() {
    let lines = lines_of("3\nFinal\n");
    assert_eq!(
        parse(&lines, &meta()).unwrap_err(),
        ParseError::InvalidVersion { content: "3".to_string() }
    );
}

#[test]
fn v_with_no_digits_is_invalid_version() {
    for first in ["v", "vx", "v 1", "Final"] {
        let lines = vec![first.to_string()];
        assert_eq!(
            parse(&lines, &meta()).unwrap_err(),
            ParseError::InvalidVersion { content: first.to_string() },
            "first line {:?}",
            first
        );
    }
}

#[test]
fn signed_version_numbers_parse() {
    let t = parse(&lines_of("v-7"), &meta()).unwrap();
    assert_eq!(t.version, -7);
    assert_eq!(t.matches.len(), 0);
    let t = parse(&lines_of("v+12"), &meta()).unwrap();
    assert_eq!(t.version, 12);
}

#[test]
fn metadata_is_carried_through_unchanged() {
    let input = UserInput {
        title: "Winter Finals".to_string(),
        date: DateTime { year: 2023, month: 12, day: 24, hour: 9, minute: 5 },
        link: Some("https://example.test/vod".to_string()),
    };
    let t = parse(&lines_of("v9"), &input).unwrap();
    assert_eq!(t.version, 9);
    assert_eq!(t.title, "Winter Finals");
    assert_eq!(t.date, DateTime { year: 2023, month: 12, day: 24, hour: 9, minute: 5 });
    assert_eq!(t.link, Some("https://example.test/vod".to_string()));
}

#[test]
fn headers_are_recognized_after_trimming_and_hash_stripping() {
    let lines = lines_of("v1\n  ##Final  \n:e:1:u1:Ann\n");
    let t = parse(&lines, &meta()).unwrap();
    assert_eq!(t.matches.len(), 1);
    assert_eq!(t.matches[0].match_type, MatchType::Final);
}

#[test]
fn only_leading_hashes_are_stripped() {
    assert_eq!(get_match_type("##Final"), Some(MatchType::Final));
    assert_eq!(get_match_type("#Game 3"), Some(MatchType::Game3));
    assert_eq!(get_match_type("Fi#nal"), None);
    assert_eq!(get_match_type("Final#"), None);
    assert_eq!(get_match_type("Quarterfinal"), Some(MatchType::QuarterFinal));
}

#[test]
fn unrecognized_lines_between_matches_are_ignored() {
    let lines = lines_of("v1\nsome commentary\nFinal\n:e:1:u1:Ann\n\nmore notes\n");
    let t = parse(&lines, &meta()).unwrap();
    assert_eq!(t.matches.len(), 1);
    assert_eq!(t.matches[0].players.len(), 1);
}

#[test]
fn player_lines_are_trimmed_before_decoding() {
    let lines = lines_of("v1\nFinal\n  :e:1:u1:Ann  \n");
    let t = parse(&lines, &meta()).unwrap();
    assert_eq!(t.matches[0].players[0].username, "Ann");
}

#[test]
fn username_keeps_colons_verbatim() {
    let lines = lines_of("v1\nFinal\n:e:2:u2:Al:ice:x\n");
    let t = parse(&lines, &meta()).unwrap();
    assert_eq!(t.matches[0].players[0].username, "Al:ice:x");
    assert_eq!(t.matches[0].players[0].user_id, "u2");
}

#[test]
fn empty_user_id_and_username_are_allowed() {
    let lines = lines_of("v1\nFinal\n:e:1::\n");
    let t = parse(&lines, &meta()).unwrap();
    assert_eq!(t.matches[0].players[0].user_id, "");
    assert_eq!(t.matches[0].players[0].username, "");
}

#[test]
fn too_few_fields_is_malformed() {
    let lines = lines_of("v1\nFinal\na:b:c\n");
    assert_eq!(
        parse(&lines, &meta()).unwrap_err(),
        ParseError::MalformedPlayerLine { line: 2, content: "a:b:c".to_string() }
    );
}

#[test]
fn non_numeric_rank_is_malformed() {
    let lines = lines_of("v1\nFinal\n:e:one:u1:Ann\n");
    assert_eq!(
        parse(&lines, &meta()).unwrap_err(),
        ParseError::MalformedPlayerLine { line: 2, content: ":e:one:u1:Ann".to_string() }
    );
}

#[test]
fn rank_at_the_i32_bounds() {
    let lines = lines_of("v1\nFinal\n:e:2147483647:u1:Ann\n:e:-2147483648:u2:Ben\n");
    let t = parse(&lines, &meta()).unwrap();
    assert_eq!(t.matches[0].players[0].rank, 2147483647);
    assert_eq!(t.matches[0].players[1].rank, -2147483648);
    let lines = lines_of("v1\nFinal\n:e:2147483648:u1:Ann\n");
    assert_eq!(
        parse(&lines, &meta()).unwrap_err(),
        ParseError::MalformedPlayerLine { line: 2, content: ":e:2147483648:u1:Ann".to_string() }
    );
}

#[test]
fn header_inside_a_block_is_read_as_a_player_line() {
    let lines = lines_of("v1\nFinal\nSemifinal\n");
    assert_eq!(
        parse(&lines, &meta()).unwrap_err(),
        ParseError::MalformedPlayerLine { line: 2, content: "Semifinal".to_string() }
    );
}

#[test]
fn match_indices_follow_file_order() {
    let lines = lines_of(
        "v1\nQuarterfinal\n:e:1:u1:A\n\nBonus\n:e:1:u2:B\n\nGame 2\n:e:1:u3:C\n\nFinal\n:a:1:u4:D\n",
    );
    let t = parse(&lines, &meta()).unwrap();
    assert_eq!(t.matches.len(), 4);
    for (i, m) in t.matches.iter().enumerate() {
        assert_eq!(m.match_index, i as i32);
    }
    assert_eq!(t.matches[0].match_type, MatchType::QuarterFinal);
    assert_eq!(t.matches[1].match_type, MatchType::Bonus);
    assert_eq!(t.matches[2].match_type, MatchType::Game2);
    assert_eq!(t.matches[3].match_type, MatchType::Final);
}

#[test]
fn parse_player_decodes_a_single_line() {
    let p = parse_player("is:p:4:uid9:Dana").unwrap();
    assert_eq!(p.username, "Dana");
    assert_eq!(p.user_id, "uid9");
    assert_eq!(p.rank, 4);
    assert_eq!(p.life_status, LifeStatus::Playing);
    assert_eq!(p.immune_status, ImmuneStatus::Saved);
}

#[test]
fn parse_player_reports_the_failing_kind() {
    assert_eq!(parse_player("q:e:1:u:n").unwrap_err(), PlayerLineError::UnknownEnumCode);
    assert_eq!(parse_player(":q:1:u:n").unwrap_err(), PlayerLineError::UnknownEnumCode);
    assert_eq!(parse_player(":e:x:u:n").unwrap_err(), PlayerLineError::Malformed);
    assert_eq!(parse_player("only three:fields:here").unwrap_err(), PlayerLineError::Malformed);
}
