use tournament_parser::{
    get_overall_player_list, parse, DateTime, LifeStatus, Match, MatchType, MatchUser, UserInput,
};

fn lines_of(text: &str) -> Vec<String> {
    text.lines().map(|l| l.to_string()).collect()
}

fn meta() -> UserInput {
    UserInput {
        title: "Cup".to_string(),
        date: DateTime { year: 2024, month: 1, day: 2, hour: 3, minute: 4 },
        link: None,
    }
}

fn names(players: &[MatchUser]) -> Vec<String> {
    players.iter().map(|p| p.username.clone()).collect()
}

#[test]
fn final_match_keeps_all_players_even_when_all_alive() {
    let lines = lines_of("v1\nFinal\n:a:1:u1:Ann\n:a:2:u2:Ben\n:a:3:u3:Cid\n");
    let t = parse(&lines, &meta()).unwrap();
    let overall = get_overall_player_list(t.matches);
    assert_eq!(names(&overall), vec!["Ann", "Ben", "Cid"]);
}

#[test]
fn non_final_match_with_all_players_alive_contributes_nothing() {
    let lines = lines_of("v1\nGame 3\n:a:1:u1:Ann\n:a:2:u2:Ben\n");
    let t = parse(&lines, &meta()).unwrap();
    let overall = get_overall_player_list(t.matches);
    assert!(overall.is_empty());
}

#[test]
fn non_final_match_keeps_eliminated_and_playing_players() {
    let lines = lines_of("v1\nGame 1\ni:p:1:u1:Alice\n:e:2:u2:Bob\n\nQuarterfinal\n:a:1:u3:Carl\n");
    let t = parse(&lines, &meta()).unwrap();
    let overall = get_overall_player_list(t.matches);
    assert_eq!(names(&overall), vec!["Alice", "Bob"]);
}

#[test]
fn final_keeps_all_in_scenario_with_mixed_statuses() {
    let lines = lines_of("v3\nFinal\n:a:1:u1:Alice\n:e:2:u2:Bob\n");
    let t = parse(&lines, &meta()).unwrap();
    let overall = get_overall_player_list(t.matches);
    assert_eq!(names(&overall), vec!["Alice", "Bob"]);
}

#[test]
fn order_is_match_order_then_within_match_file_order() {
    let lines = lines_of(
        "v1\nGame 1\n:e:9:u1:A\n:a:1:u2:B\n:p:2:u3:C\n\nSemifinal\n:e:1:u4:D\n\nFinal\n:a:1:u5:E\n:a:2:u6:F\n",
    );
    let t = parse(&lines, &meta()).unwrap();
    let overall = get_overall_player_list(t.matches);
    assert_eq!(names(&overall), vec!["A", "C", "D", "E", "F"]);
}

#[test]
fn empty_match_list_yields_empty_overall_list() {
    let overall = get_overall_player_list(Vec::<Match>::new());
    assert!(overall.is_empty());
}

#[test]
fn empty_match_contributes_nothing() {
    let lines = lines_of("v2\nFinal");
    let t = parse(&lines, &meta()).unwrap();
    assert_eq!(t.matches[0].match_type, MatchType::Final);
    let overall = get_overall_player_list(t.matches);
    assert!(overall.is_empty());
}

#[test]
fn deriving_twice_from_the_same_matches_is_identical() {
    let lines = lines_of("v1\nGame 2\n:e:1:u1:A\ni:p:2:u2:B\n:a:3:u3:C\n\nFinal\n:a:1:u4:D\n");
    let t = parse(&lines, &meta()).unwrap();
    let first = get_overall_player_list(t.matches.clone());
    let second = get_overall_player_list(t.matches);
    assert_eq!(first, second);
}

#[test]
fn life_status_drives_the_filter_not_immunity() {
    let lines = lines_of("v1\nGame 4\ni:a:1:u1:A\nis:e:2:u2:B\n");
    let t = parse(&lines, &meta()).unwrap();
    let overall = get_overall_player_list(t.matches);
    assert_eq!(names(&overall), vec!["B"]);
    assert_eq!(overall[0].life_status, LifeStatus::Eliminated);
}
