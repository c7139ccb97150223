use chess::chess_search::history_table::HistoryTable;
use chess::chess_search::move_orderer::{get_history_score, record_history_cutoff};
use chess::diagnostics::memory_profiler::MemoryProfiler;
use chess::board::Board;
use chess::game::action::{GameAction, GameMode};
use chess::game::engine::{next_game, EngineConfig};
use chess::evaluate::evaluation::{game_phase, pawn_structure_for_color, player_material_score, GameEnding};
use chess::game::stockfish_elo::{game_step, read_stockfish_move, GameResult, GameStepEvent};
use chess::input_handler::parse_command;
use chess::game::command::MakeMove;
use chess::piece::{Color, Piece};
use chess::square::Square;

#[test]
fn profiler_counts_from_zero_after_a_reset() {
    let mut profiler = MemoryProfiler { board_clones: 17, movegen_creates: 4 };
    profiler.reset();
    assert_eq!(profiler.stats_lines(), ("Board clones: 0".to_string(), "MoveGen creates: 0".to_string()));
    for _ in 0..5 {
        profiler.record_board_clone();
    }
    profiler.record_movegen_create();
    assert_eq!(profiler.stats_lines(), ("Board clones: 5".to_string(), "MoveGen creates: 1".to_string()));
}

#[test]
fn history_scores_after_cutoffs() {
    let mut table = HistoryTable::new();
    record_history_cutoff(&mut table, Square::E2, Square::E4, 3);
    record_history_cutoff(&mut table, Square::D2, Square::D4, 4);
    assert_eq!(get_history_score(&table, Square::E2, Square::E4), 16);
    assert_eq!(get_history_score(&table, Square::D2, Square::D4), 25);
    assert_eq!(get_history_score(&table, Square::E2, Square::E3), 0);
    table.record_cutoff(Square::E2, Square::E4, 0);
    assert_eq!(table.score(Square::E2, Square::E4), 17);
}

#[test]
fn games_against_stockfish_end_on_failures_as_draws() {
    assert_eq!(game_step(GameStepEvent::EngineMoved, Color::White, Color::White), None);
    assert_eq!(game_step(GameStepEvent::StockfishMoved, Color::Black, Color::White), None);
    assert_eq!(game_step(GameStepEvent::EngineFailed, Color::White, Color::White), Some(GameResult::Draw));
    assert_eq!(game_step(GameStepEvent::StockfishFailed, Color::Black, Color::White), Some(GameResult::Draw));
    assert_eq!(game_step(GameStepEvent::StockfishMoveUnreadable, Color::Black, Color::White), Some(GameResult::Draw));
    assert_eq!(game_step(GameStepEvent::StockfishMoveIllegal, Color::Black, Color::White), Some(GameResult::Draw));
    assert_eq!(
        game_step(GameStepEvent::GameOver(GameEnding::Checkmate), Color::Black, Color::White),
        Some(GameResult::Win)
    );
    assert_eq!(
        game_step(GameStepEvent::GameOver(GameEnding::Checkmate), Color::White, Color::White),
        Some(GameResult::Loss)
    );
}

#[test]
fn stockfish_moves_are_read_into_squares() {
    assert_eq!(read_stockfish_move("e2", "e4", None), Some((Square::E2, Square::E4, None)));
    assert_eq!(read_stockfish_move("g7", "g8", Some('n')), Some((Square::G7, Square::G8, Some(Piece::Knight))));
    assert_eq!(read_stockfish_move("(n", "on", Some('e')), None);
    assert_eq!(read_stockfish_move("e2", "z9", None), None);
}

#[test]
fn typed_moves_are_exactly_two_squares() {
    match parse_command("e2e4") {
        Ok(MakeMove::Coordinate { from_square, to_square }) => {
            assert_eq!(from_square, "e2");
            assert_eq!(to_square, "e4");
        }
        other => panic!("unexpected {:?}", other),
    }
    for bad in ["e2e9", "i2e4", "e2e4 ", "E2E4", "e2", "e2e4e5", ""] {
        match parse_command(bad) {
            Err(e) => assert_eq!(e, format!("invalid input: {}", bad)),
            other => panic!("unexpected {:?}", other),
        }
    }
}

#[test]
fn black_pawns_score_as_mirrored_white_pawns() {
    // White pawns on a2, c4, d4, d5, h6; black pawns on b7, e6, f7, g5.
    let white: u64 = (1 << 8) | (1 << 26) | (1 << 27) | (1 << 35) | (1 << 47);
    let black: u64 = (1 << 49) | (1 << 44) | (1 << 53) | (1 << 38);
    for phase in [0u8, 7, 12, 24] {
        let as_white = pawn_structure_for_color(white, black, phase, true);
        let as_black = pawn_structure_for_color(white.swap_bytes(), black.swap_bytes(), phase, false);
        assert_eq!(as_white, as_black);
        let other_white = pawn_structure_for_color(black.swap_bytes(), white.swap_bytes(), phase, true);
        assert_eq!(pawn_structure_for_color(black, white, phase, false), other_white);
    }
}

fn board_of(pieces: &[(Square, Piece, Color)]) -> Board {
    let mut board = Board::empty();
    for &(square, piece, color) in pieces {
        board.put(square, piece, color).unwrap();
    }
    board
}

#[test]
fn exchanging_the_sides_negates_the_material_score() {
    let pieces = [
        (Square::E1, Piece::King, Color::White),
        (Square::D1, Piece::Queen, Color::White),
        (Square::B3, Piece::Knight, Color::White),
        (Square::C2, Piece::Pawn, Color::White),
        (Square::G2, Piece::Pawn, Color::White),
        (Square::G8, Piece::King, Color::Black),
        (Square::A8, Piece::Rook, Color::Black),
        (Square::F6, Piece::Bishop, Color::Black),
        (Square::E5, Piece::Pawn, Color::Black),
    ];
    let board = board_of(&pieces);
    let exchanged: Vec<(Square, Piece, Color)> = pieces
        .iter()
        .map(|&(square, piece, color)| (Square::from_index(63 - square.index()), piece, color.opposite()))
        .collect();
    let other = board_of(&exchanged);
    let phase = game_phase(&board);
    assert_eq!(game_phase(&other), phase);
    let balance = player_material_score(&board, Color::White, phase) - player_material_score(&board, Color::Black, phase);
    let other_balance =
        player_material_score(&other, Color::White, phase) - player_material_score(&other, Color::Black, phase);
    assert_eq!(other_balance, -balance);
    assert_ne!(balance, 0);
}

#[test]
fn every_next_game_starts_from_the_first_position() {
    let mut start = Board::default();
    start.increment_halfmove_clock();
    let copy = start.clone();
    assert_eq!(copy.halfmove_clock(), 1);
    assert_eq!(copy.get(Square::E1), Some((Piece::King, Color::White)));
    assert!(next_game(GameAction::Exit, GameMode::Play, 6, &start).is_none());
    let (mode, config) = next_game(GameAction::RestartSameMode, GameMode::Watch, 6, &start).unwrap();
    assert_eq!(mode, GameMode::Watch);
    assert_eq!(config.search_depth, 6);
    assert_eq!(config.starting_position.halfmove_clock(), 1);
    let (mode, config) =
        next_game(GameAction::SwitchGameMode { target: GameMode::Pvp }, GameMode::Play, 6, &start).unwrap();
    assert_eq!(mode, GameMode::Pvp);
    assert_eq!(config.search_depth, 0);
    assert_eq!(config.starting_position.get(Square::D8), Some((Piece::Queen, Color::Black)));
    let first = EngineConfig::for_mode(GameMode::Play, 4, &start);
    assert_eq!(first.search_depth, 4);
}
