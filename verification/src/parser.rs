//! The format parser: a single forward pass over the input lines, modeled
//! as a line-driven state machine (seeking a header, or inside a player
//! block).  The executable parser is proved to return exactly what the
//! specification-level machine [`spec_parse`] computes, for every input.

use vstd::prelude::*;

use crate::records::{
    ErrorView, Match, MatchUser, MatchView, ParseError, ParsedTournament, PlayerView,
    TournamentView, UserInput, UserInputView,
};
use crate::text::{
    parse_i32_str, spec_parse_i32, spec_trim, split5, splitn_colon, trim_str,
};
use crate::tokens::{
    spec_immune_of_code, spec_life_of_code, spec_match_type_of_token, ImmuneStatus, LifeStatus,
    MatchType,
};

verus! {

/// Why a single player line failed to decode.
#[derive(Clone, Copy, Debug, PartialEq, Eq, Structural)]
pub enum PlayerLineError {
    /// Not five colon-separated fields, or the rank is not a decimal
    /// integer.
    Malformed,
    /// The immune or life status code is outside the recognized set.
    UnknownEnumCode,
}

/// A line with every leading `'#'` removed.
pub open spec fn spec_strip_hashes(s: Seq<char>) -> Seq<char>
    decreases s.len(),
{
    if s.len() > 0 && s[0] == '#' {
        spec_strip_hashes(s.drop_first())
    } else {
        s
    }
}

/// The match type a (trimmed) line announces as a header: every leading
/// `'#'` is stripped, and the remainder must equal a file-header token
/// exactly.
pub open spec fn spec_header_of(t: Seq<char>) -> Option<MatchType> {
    spec_match_type_of_token(spec_strip_hashes(t))
}

/// The decoding of one (trimmed) player line: five colon-separated fields
/// `immune:life:rank:user_id:username`, where the username keeps any
/// further colons verbatim.
pub open spec fn spec_parse_player(t: Seq<char>) -> Result<PlayerView, PlayerLineError> {
    let parts = splitn_colon(t, 5);
    if parts.len() != 5 {
        Err(PlayerLineError::Malformed)
    } else {
        match spec_immune_of_code(parts[0]) {
            None => Err(PlayerLineError::UnknownEnumCode),
            Some(im) => match spec_life_of_code(parts[1]) {
                None => Err(PlayerLineError::UnknownEnumCode),
                Some(lf) => match spec_parse_i32(parts[2]) {
                    None => Err(PlayerLineError::Malformed),
                    Some(rk) => Ok(
                        PlayerView {
                            username: parts[4],
                            user_id: parts[3],
                            rank: rk,
                            life_status: lf,
                            immune_status: im,
                        },
                    ),
                },
            },
        }
    }
}

/// The version announced by the first line: a `'v'` prefix followed by a
/// decimal integer.
pub open spec fn spec_version(s: Seq<char>) -> Option<int> {
    if s.len() >= 1 && s[0] == 'v' {
        spec_parse_i32(s.drop_first())
    } else {
        None
    }
}

/// The parser's state between lines: the completed match blocks, and the
/// block currently being filled, if any.
#[verifier::ext_equal]
pub ghost struct ScanState {
    pub done: Seq<(MatchType, Seq<PlayerView>)>,
    pub current: Option<(MatchType, Seq<PlayerView>)>,
}

/// One step of the line-driven state machine.  Seeking a header: a blank or
/// unrecognized line is ignored, a header opens a block.  Inside a block: a
/// blank line completes the block, any other line must decode as a player
/// result or the whole parse fails at that line.
pub open spec fn spec_scan_step(st: ScanState, line: Seq<char>, line_no: int) -> Result<
    ScanState,
    ErrorView,
> {
    let t = spec_trim(line);
    match st.current {
        None => {
            if t.len() == 0 {
                Ok(st)
            } else {
                match spec_header_of(t) {
                    None => Ok(st),
                    Some(mt) => Ok(
                        ScanState { done: st.done, current: Some((mt, Seq::<PlayerView>::empty())) },
                    ),
                }
            }
        },
        Some(cur) => {
            if t.len() == 0 {
                Ok(ScanState { done: st.done.push(cur), current: None })
            } else {
                match spec_parse_player(t) {
                    Ok(p) => Ok(
                        ScanState { done: st.done, current: Some((cur.0, cur.1.push(p))) },
                    ),
                    Err(PlayerLineError::Malformed) => Err(
                        ErrorView::MalformedPlayerLine { line: line_no, content: line },
                    ),
                    Err(PlayerLineError::UnknownEnumCode) => Err(
                        ErrorView::UnknownEnumCode { line: line_no, content: line },
                    ),
                }
            }
        },
    }
}

/// End of input: a block still open is completed.
pub open spec fn spec_flush(st: ScanState) -> Seq<(MatchType, Seq<PlayerView>)> {
    match st.current {
        None => st.done,
        Some(cur) => st.done.push(cur),
    }
}

/// Runs the state machine from line `i` to the end of the input.
pub open spec fn spec_scan_lines(lines: Seq<Seq<char>>, i: int, st: ScanState) -> Result<
    Seq<(MatchType, Seq<PlayerView>)>,
    ErrorView,
>
    decreases lines.len() - i,
{
    if i >= lines.len() {
        Ok(spec_flush(st))
    } else {
        match spec_scan_step(st, lines[i], i) {
            Ok(st2) => spec_scan_lines(lines, i + 1, st2),
            Err(e) => Err(e),
        }
    }
}

/// What parsing an input is: the first line fixes the version, the state
/// machine runs over the remaining lines, and the completed blocks become
/// the matches, renumbered by their zero-based position in file order.
pub open spec fn spec_parse(lines: Seq<Seq<char>>, meta: UserInputView) -> Result<
    TournamentView,
    ErrorView,
> {
    if lines.len() == 0 {
        Err(ErrorView::MissingVersion)
    } else {
        match spec_version(lines[0]) {
            None => Err(ErrorView::InvalidVersion { content: lines[0] }),
            Some(v) => match spec_scan_lines(
                lines,
                1,
                ScanState { done: Seq::empty(), current: None },
            ) {
                Err(e) => Err(e),
                Ok(ms) => Ok(
                    TournamentView {
                        version: v,
                        matches: Seq::new(
                            ms.len(),
                            |j: int|
                                MatchView {
                                    match_type: ms[j].0,
                                    players: ms[j].1,
                                    match_index: j,
                                },
                        ),
                        date: meta.date,
                        title: meta.title,
                        link: meta.link,
                    },
                ),
            },
        }
    }
}

/// Law: on every successfully parsed input, the `match_index` fields are
/// exactly `0, 1, 2, ...` in ascending file order, whatever the match types
/// and their order in the file.
pub proof fn lemma_match_indices(lines: Seq<Seq<char>>, meta: UserInputView)
    ensures
        spec_parse(lines, meta) matches Ok(t) ==> forall|j: int|
            0 <= j < t.matches.len() ==> (#[trigger] t.matches[j]).match_index == j,
{
}

/// Removes every leading `'#'`.
#[verifier::loop_isolation(false)]
fn strip_hashes(s: &str) -> (r: &str)
    ensures
        r@ == spec_strip_hashes(s@),
{
    let n = s.unicode_len();
    proof {
        assert(s@.subrange(0, n as int) =~= s@);
    }
    let mut i: usize = 0;
    while i < n && s.get_char(i) == '#'
        invariant
            i <= n,
            spec_strip_hashes(s@) == spec_strip_hashes(s@.subrange(i as int, n as int)),
        decreases n - i,
    {
        proof {
            assert(s@.subrange(i as int, n as int).drop_first() =~= s@.subrange(i + 1, n as int));
        }
        i = i + 1;
    }
    let r = s.substring_char(i, n);
    proof {
        assert(spec_strip_hashes(s@.subrange(i as int, n as int)) == s@.subrange(i as int, n as int));
    }
    r
}

/// Recognizes a (trimmed) line as a match header, stripping all leading
/// `'#'` characters first.
pub fn get_match_type(line: &str) -> (r: Option<MatchType>)
    ensures
        r == spec_header_of(line@),
{
    let stripped = strip_hashes(line);
    MatchType::from_str(stripped)
}

/// Reads the version line: `'v'` followed by a decimal integer.
fn parse_version(line: &str) -> (r: Option<i32>)
    ensures
        match r {
            Some(v) => spec_version(line@) == Some(v as int),
            None => spec_version(line@) == None::<int>,
        },
{
    let n = line.unicode_len();
    if n == 0 {
        return None;
    }
    if line.get_char(0) != 'v' {
        return None;
    }
    let rest = line.substring_char(1, n);
    proof {
        assert(rest@ =~= line@.drop_first());
    }
    parse_i32_str(rest)
}

/// Decodes one (already trimmed) player line into a player record.
pub fn parse_player(player_line: &str) -> (r: Result<MatchUser, PlayerLineError>)
    ensures
        match r {
            Ok(p) => spec_parse_player(player_line@) == Ok::<PlayerView, PlayerLineError>(p@),
            Err(e) => spec_parse_player(player_line@) == Err::<PlayerView, PlayerLineError>(e),
        },
{
    let parts = split5(player_line);
    let ghost sp = splitn_colon(player_line@, 5);
    proof {
        assert(parts.deep_view().len() == parts@.len());
        assert forall|j: int| 0 <= j < parts@.len() implies parts@[j]@ == sp[j] by {
            assert(parts.deep_view()[j] == parts@[j]@);
        }
    }
    if parts.len() != 5 {
        return Err(PlayerLineError::Malformed);
    }
    let immune_status = match ImmuneStatus::from_str(parts[0].as_str()) {
        Some(x) => x,
        None => {
            return Err(PlayerLineError::UnknownEnumCode);
        },
    };
    let life_status = match LifeStatus::from_str(parts[1].as_str()) {
        Some(x) => x,
        None => {
            return Err(PlayerLineError::UnknownEnumCode);
        },
    };
    let rank = match parse_i32_str(parts[2].as_str()) {
        Some(v) => v,
        None => {
            return Err(PlayerLineError::Malformed);
        },
    };
    let p = MatchUser {
        username: parts[4].clone(),
        user_id: parts[3].clone(),
        rank,
        life_status,
        immune_status,
    };
    proof {
        assert(p@ =~= spec_parse_player(player_line@)->Ok_0);
    }
    Ok(p)
}

/// Parses a whole tournament file, given as its sequence of lines, plus the
/// caller-supplied metadata.  Returns exactly what the specification-level
/// parser [`spec_parse`] yields on the lines' views: the typed failure on
/// the first offending line, or the tournament with its matches in file
/// order.  The length bound is a machine limit: `match_index` is an `i32`.
#[verifier::loop_isolation(false)]
pub fn parse(lines: &Vec<String>, user_input: &UserInput) -> (r: Result<
    ParsedTournament,
    ParseError,
>)
    requires
        lines@.len() < 0x8000_0000,
    ensures
        match r {
            Ok(t) => spec_parse(lines.deep_view(), user_input@) == Ok::<TournamentView, ErrorView>(
                t@,
            ),
            Err(e) => spec_parse(lines.deep_view(), user_input@) == Err::<
                TournamentView,
                ErrorView,
            >(e@),
        },
{
    let ghost lv = lines.deep_view();
    proof {
        assert(lv.len() == lines@.len());
    }
    if lines.len() == 0 {
        return Err(ParseError::MissingVersion);
    }
    proof {
        assert(lv[0] == lines@[0]@);
    }
    let version: i32 = match parse_version(lines[0].as_str()) {
        Some(v) => v,
        None => {
            return Err(ParseError::InvalidVersion { content: lines[0].clone() });
        },
    };
    let ghost init = ScanState { done: Seq::empty(), current: None };
    let ghost mut st = init;
    let mut matches: Vec<Match> = Vec::new();
    let mut in_block: bool = false;
    let mut cur_type: MatchType = MatchType::Final;
    let mut cur_players: Vec<MatchUser> = Vec::new();
    let mut i: usize = 1;
    while i < lines.len()
        invariant
            1 <= i <= lines@.len(),
            in_block == (st.current is Some),
            in_block ==> st.current == Some(
                (cur_type, cur_players@.map_values(|p: MatchUser| p@)),
            ),
            matches@.len() == st.done.len(),
            forall|j: int|
                0 <= j < matches@.len() ==> (#[trigger] matches@[j])@ == (MatchView {
                    match_type: st.done[j].0,
                    players: st.done[j].1,
                    match_index: j,
                }),
            st.done.len() + (if st.current is Some {
                1 as int
            } else {
                0 as int
            }) <= i - 1,
            spec_scan_lines(lv, 1, init) == spec_scan_lines(lv, i as int, st),
        decreases lines@.len() - i,
    {
        proof {
            assert(lv[i as int] == lines@[i as int]@);
        }
        let line: &String = &lines[i];
        let t = trim_str(line.as_str());
        let ghost prev = st;
        if in_block {
            if t.unicode_len() == 0 {
                let ghost curv = cur_players@.map_values(|p: MatchUser| p@);
                let ps = cur_players;
                cur_players = Vec::new();
                proof {
                    assert(matches@.len() < 0x8000_0000);
                }
                let idx: i32 = matches.len() as i32;
                matches.push(Match { match_type: cur_type, players: ps, match_index: idx });
                in_block = false;
                proof {
                    st = ScanState { done: prev.done.push((cur_type, curv)), current: None };
                    assert(spec_scan_step(prev, lv[i as int], i as int) == Ok::<
                        ScanState,
                        ErrorView,
                    >(st));
                    assert((matches@[matches@.len() - 1])@ =~= (MatchView {
                        match_type: st.done[st.done.len() - 1].0,
                        players: st.done[st.done.len() - 1].1,
                        match_index: st.done.len() - 1,
                    }));
                }
            } else {
                match parse_player(t) {
                    Ok(p) => {
                        let ghost oldps = cur_players@.map_values(|q: MatchUser| q@);
                        let ghost pv = p@;
                        cur_players.push(p);
                        proof {
                            st = ScanState {
                                done: prev.done,
                                current: Some((cur_type, oldps.push(pv))),
                            };
                            assert(cur_players@.map_values(|q: MatchUser| q@) =~= oldps.push(pv));
                            assert(spec_scan_step(prev, lv[i as int], i as int) == Ok::<
                                ScanState,
                                ErrorView,
                            >(st));
                        }
                    },
                    Err(k) => {
                        let err = match k {
                            PlayerLineError::Malformed => ParseError::MalformedPlayerLine {
                                line: i,
                                content: line.clone(),
                            },
                            PlayerLineError::UnknownEnumCode => ParseError::UnknownEnumCode {
                                line: i,
                                content: line.clone(),
                            },
                        };
                        proof {
                            assert(spec_scan_step(prev, lv[i as int], i as int) == Err::<
                                ScanState,
                                ErrorView,
                            >(err@));
                        }
                        return Err(err);
                    },
                }
            }
        } else {
            if t.unicode_len() == 0 {
            } else {
                match get_match_type(t) {
                    None => {},
                    Some(mt) => {
                        cur_type = mt;
                        cur_players = Vec::new();
                        in_block = true;
                        proof {
                            st = ScanState {
                                done: prev.done,
                                current: Some((mt, Seq::<PlayerView>::empty())),
                            };
                            assert(cur_players@.map_values(|p: MatchUser| p@)
                                =~= Seq::<PlayerView>::empty());
                            assert(spec_scan_step(prev, lv[i as int], i as int) == Ok::<
                                ScanState,
                                ErrorView,
                            >(st));
                        }
                    },
                }
            }
        }
        i = i + 1;
    }
    let ghost ms = spec_flush(st);
    if in_block {
        let ghost curv = cur_players@.map_values(|p: MatchUser| p@);
        let ps = cur_players;
        proof {
            assert(matches@.len() < 0x8000_0000);
        }
        let idx: i32 = matches.len() as i32;
        matches.push(Match { match_type: cur_type, players: ps, match_index: idx });
        proof {
            assert(ms == st.done.push((cur_type, curv)));
            assert((matches@[matches@.len() - 1])@ =~= (MatchView {
                match_type: ms[ms.len() - 1].0,
                players: ms[ms.len() - 1].1,
                match_index: ms.len() - 1,
            }));
        }
    }
    let title = user_input.title.clone();
    let link: Option<String> = match &user_input.link {
        Some(s) => Some(s.clone()),
        None => None,
    };
    let result = ParsedTournament { version, matches, date: user_input.date, title, link };
    proof {
        assert(spec_scan_lines(lv, i as int, st) == Ok::<
            Seq<(MatchType, Seq<PlayerView>)>,
            ErrorView,
        >(ms));
        let tv = spec_parse(lv, user_input@)->Ok_0;
        assert(result@.matches =~~= tv.matches);
        assert(result@ =~~= tv);
    }
    Ok(result)
}

} // verus!
