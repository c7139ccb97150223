use chess::game::action::{GameAction, GameMode};
use chess::game::alpha_beta_benchmark::{
    benchmark_position_fen, benchmark_position_name, positions_named, select_positions, PositionFilterError,
    BENCHMARK_POSITION_COUNT,
};
use chess::evaluate::evaluation::GameEnding;
use chess::game::engine::SearchStats;
use chess::game::renderer::{
    ending_message, move_limit_reached, search_stats_text, stats_display, ConditionalStatsRenderer, SimpleRenderer,
    StatsRenderer,
};
use chess::piece::Color;
use chess::text::{decimal_string, parse_unsigned_text, split_words, text_starts_with};

#[test]
fn benchmark_positions_have_names_and_fens() {
    assert_eq!(BENCHMARK_POSITION_COUNT, 8);
    assert_eq!(benchmark_position_name(0), "Starting Position");
    assert_eq!(benchmark_position_name(7), "Rook Endgame");
    assert_eq!(
        benchmark_position_fen(0),
        "rnbqkbnr/pppppppp/8/8/8/8/PPPPPPPP/RNBQKBNR w KQkq - 0 1"
    );
    assert_eq!(benchmark_position_fen(5), "4k3/8/8/8/8/8/4P3/4K3 w - - 0 1");
}

#[test]
fn no_filter_selects_every_position() {
    assert_eq!(select_positions(None), Ok(vec![0, 1, 2, 3, 4, 5, 6, 7]));
}

#[test]
fn a_number_selects_that_position() {
    assert_eq!(select_positions(Some("3")), Ok(vec![3]));
    assert_eq!(select_positions(Some("+2")), Ok(vec![2]));
    assert_eq!(select_positions(Some("007")), Ok(vec![7]));
    assert_eq!(select_positions(Some("8")), Err(PositionFilterError::IndexOutOfRange(8)));
    assert_eq!(select_positions(Some("100")), Err(PositionFilterError::IndexOutOfRange(100)));
}

#[test]
fn other_filters_match_names_ignoring_case() {
    assert_eq!(select_positions(Some("endgame")), Ok(vec![5, 6, 7]));
    assert_eq!(select_positions(Some("SICILIAN")), Ok(vec![1]));
    assert_eq!(select_positions(Some("Position")), Ok(vec![0, 3]));
    assert_eq!(select_positions(Some("tactic")), Ok(vec![2, 3]));
    assert_eq!(select_positions(Some("xyz")), Err(PositionFilterError::NoMatch));
    assert_eq!(select_positions(Some("-1")), Err(PositionFilterError::NoMatch));
    // An empty filter is no number, and every name contains it.
    assert_eq!(select_positions(Some("")), Ok(vec![0, 1, 2, 3, 4, 5, 6, 7]));
}

#[test]
fn positions_named_takes_a_lowercase_filter() {
    assert_eq!(positions_named("king"), Ok(vec![4]));
    assert_eq!(positions_named("King"), Err(PositionFilterError::NoMatch));
    assert_eq!(positions_named("queen endgame"), Ok(vec![6]));
}

#[test]
fn unsigned_numbers_parse_as_str_parse_does() {
    assert_eq!(parse_unsigned_text("42", u32::MAX as u64), Some(42));
    assert_eq!(parse_unsigned_text("+42", u32::MAX as u64), Some(42));
    assert_eq!(parse_unsigned_text("4294967295", u32::MAX as u64), Some(4294967295));
    assert_eq!(parse_unsigned_text("4294967296", u32::MAX as u64), None);
    assert_eq!(parse_unsigned_text("18446744073709551615", u64::MAX), Some(u64::MAX));
    assert_eq!(parse_unsigned_text("18446744073709551616", u64::MAX), None);
    assert_eq!(parse_unsigned_text("", u64::MAX), None);
    assert_eq!(parse_unsigned_text("+", u64::MAX), None);
    assert_eq!(parse_unsigned_text("-1", u64::MAX), None);
    assert_eq!(parse_unsigned_text("12a", u64::MAX), None);
    assert_eq!(parse_unsigned_text(" 1", u64::MAX), None);
    for text in ["0", "7", "+9", "123456", "99999999999", "x", "1 2"] {
        assert_eq!(parse_unsigned_text(text, u32::MAX as u64), text.parse::<u32>().ok().map(|v| v as u64));
    }
}

#[test]
fn decimal_strings() {
    assert_eq!(decimal_string(0), "0");
    assert_eq!(decimal_string(7), "7");
    assert_eq!(decimal_string(1234567), "1234567");
    assert_eq!(decimal_string(u64::MAX), u64::MAX.to_string());
}

#[test]
fn words_split_at_white_space() {
    assert_eq!(split_words("  a  bb\tc \n"), vec!["a", "bb", "c"]);
    assert_eq!(split_words(""), Vec::<String>::new());
    assert_eq!(split_words("   "), Vec::<String>::new());
    assert_eq!(split_words("one"), vec!["one"]);
    assert_eq!(split_words("x\u{3000}y\u{a0}z"), vec!["x", "y", "z"]);
    let line = "option name UCI_Elo type spin default 1320 min 1320 max 3190";
    assert_eq!(split_words(line), line.split_whitespace().collect::<Vec<_>>());
}

#[test]
fn prefixes() {
    assert!(text_starts_with("bestmove e2e4", "bestmove"));
    assert!(text_starts_with("abc", ""));
    assert!(!text_starts_with("best", "bestmove"));
    assert!(!text_starts_with("Bestmove", "bestmove"));
}

#[test]
fn mode_switching_after_a_game() {
    assert_eq!(GameAction::RestartSameMode.next_mode(GameMode::Watch), Some(GameMode::Watch));
    assert_eq!(
        GameAction::SwitchGameMode { target: GameMode::Pvp }.next_mode(GameMode::Play),
        Some(GameMode::Pvp)
    );
    assert_eq!(GameAction::Exit.next_mode(GameMode::Play), None);
    assert_eq!(GameMode::Pvp.search_depth(6), 0);
    assert_eq!(GameMode::Play.search_depth(6), 6);
    assert_eq!(GameMode::Watch.search_depth(4), 4);
    assert!(GameMode::Play.human_moves_for(Color::White, Color::White));
    assert!(!GameMode::Play.human_moves_for(Color::Black, Color::White));
    assert!(!GameMode::Watch.human_moves_for(Color::White, Color::White));
    assert!(GameMode::Pvp.human_moves_for(Color::Black, Color::White));
}

#[test]
fn renderers_close_with_the_ending_or_a_prompt() {
    assert_eq!(ending_message(GameEnding::Checkmate), "Checkmate!");
    assert_eq!(ending_message(GameEnding::Stalemate), "Stalemate!");
    assert_eq!(ending_message(GameEnding::Draw), "Draw!");
    assert_eq!(SimpleRenderer.closing_line(None), "Enter your move:");
    assert_eq!(SimpleRenderer.closing_line(Some(GameEnding::Draw)), "Draw!");
    let stats = StatsRenderer { delay_between_moves: None };
    assert_eq!(stats.closing_line(None), None);
    assert_eq!(stats.closing_line(Some(GameEnding::Checkmate)), Some("Checkmate!"));
    let conditional = ConditionalStatsRenderer { human_color: Color::Black };
    assert_eq!(conditional.closing_line(None, Color::Black), Some("Enter your move:"));
    assert_eq!(conditional.closing_line(None, Color::White), None);
    assert_eq!(conditional.closing_line(Some(GameEnding::Stalemate), Color::White), Some("Stalemate!"));
    assert!(!move_limit_reached(0, 200));
    assert!(!move_limit_reached(40, 40));
    assert!(move_limit_reached(40, 41));
}

#[test]
fn search_statistics_text() {
    let stats = SearchStats { positions_searched: 12345, depth: 4, last_score: Some(-37), last_search_duration: None };
    assert_eq!(
        stats_display(&stats, Some("1.5s")),
        "* Score: -37\n* Positions searched: 12345 (depth: 4)\n* Move took: 1.5s"
    );
    assert_eq!(search_stats_text(&stats), "* Score: -37\n* Positions searched: 12345\n* Search depth: 4");
    let fresh = SearchStats { positions_searched: 0, depth: 6, last_score: None, last_search_duration: None };
    assert_eq!(stats_display(&fresh, None), "* Score: -\n* Positions searched: 0 (depth: 6)\n* Move took: -");
    let extreme = SearchStats { positions_searched: 1, depth: 1, last_score: Some(i16::MIN), last_search_duration: None };
    assert_eq!(search_stats_text(&extreme), "* Score: -32768\n* Positions searched: 1\n* Search depth: 1");
    let up = SearchStats { positions_searched: 1, depth: 1, last_score: Some(250), last_search_duration: None };
    assert_eq!(search_stats_text(&up), "* Score: 250\n* Positions searched: 1\n* Search depth: 1");
}
