use chess::evaluate::evaluation::GameEnding;
use chess::game::stockfish_elo::{
    game_result, initial_elo, level_outcome, promotion_piece, GameResult, LevelOutcome, ELO_INCREMENT, GAMES_PER_ELO,
};
use chess::game::stockfish_interface::{
    best_move_of_line, clamped_elo, go_command, handshake_step, min_elo_of_line, position_command, strength_commands,
    BestMoveLine, DEFAULT_MIN_ELO,
};
use chess::piece::{Color, Piece};
use chess::square::Square;

#[test]
fn min_elo_is_read_from_the_uci_elo_option() {
    let line = "option name UCI_Elo type spin default 1320 min 1320 max 3190";
    assert_eq!(min_elo_of_line(line), Some(1320));
    assert_eq!(min_elo_of_line("option name UCI_Elo type spin default 1500 min  1400\tmax 3190"), Some(1400));
}

#[test]
fn min_elo_needs_the_option_and_a_number_after_min() {
    assert_eq!(min_elo_of_line("option name Threads type spin default 1 min 1 max 1024"), None);
    assert_eq!(min_elo_of_line("option name UCI_Elo type spin default 1320"), None);
    assert_eq!(min_elo_of_line("option name UCI_Elo type spin min"), None);
    assert_eq!(min_elo_of_line("option name UCI_Elo type spin min low max 3190"), None);
    assert_eq!(min_elo_of_line("option name UCI_Elo min 99999999999 max 3190"), None);
    assert_eq!(min_elo_of_line(" option name UCI_Elo min 1320"), None);
}

#[test]
fn handshake_keeps_the_minimum_until_uciok() {
    assert_eq!(handshake_step(DEFAULT_MIN_ELO, "id name Stockfish 16"), (1320, false));
    assert_eq!(handshake_step(DEFAULT_MIN_ELO, "option name UCI_Elo type spin default 1320 min 1350 max 3190"), (1350, false));
    assert_eq!(handshake_step(1350, "uciok"), (1350, true));
    assert_eq!(handshake_step(1350, "uciok "), (1350, false));
}

#[test]
fn strength_commands_raise_the_elo_to_the_minimum() {
    assert_eq!(clamped_elo(1000, 1320), 1320);
    assert_eq!(clamped_elo(2000, 1320), 2000);
    let (commands, elo) = strength_commands(1000, 1320);
    assert_eq!(elo, 1320);
    assert_eq!(
        commands,
        vec![
            "setoption name UCI_LimitStrength value true".to_string(),
            "setoption name UCI_Elo value 1320".to_string(),
            "isready".to_string(),
        ]
    );
    let (commands, elo) = strength_commands(2345, 1320);
    assert_eq!(elo, 2345);
    assert_eq!(commands[1], "setoption name UCI_Elo value 2345");
}

#[test]
fn position_and_go_commands() {
    assert_eq!(position_command("e2e4 e7e5"), "position startpos moves e2e4 e7e5");
    assert_eq!(position_command(""), "position startpos moves ");
    assert_eq!(go_command(500), "go movetime 500");
    assert_eq!(go_command(0), "go movetime 0");
}

#[test]
fn best_move_is_the_second_word_of_a_bestmove_line() {
    match best_move_of_line("bestmove e2e4 ponder e7e5") {
        BestMoveLine::Move(m) => assert_eq!(m, "e2e4"),
        other => panic!("unexpected {:?}", other),
    }
    match best_move_of_line("bestmove   g7g8q") {
        BestMoveLine::Move(m) => assert_eq!(m, "g7g8q"),
        other => panic!("unexpected {:?}", other),
    }
    assert!(matches!(best_move_of_line("bestmove"), BestMoveLine::MissingMove));
    assert!(matches!(best_move_of_line("info depth 10 score cp 20"), BestMoveLine::NotBestMove));
    assert!(matches!(best_move_of_line(" bestmove e2e4"), BestMoveLine::NotBestMove));
}

#[test]
fn moves_from_stockfish_name_squares() {
    assert_eq!(Square::from_algebraic("e2"), Some(Square::E2));
    assert_eq!(Square::from_algebraic("h8"), Some(Square::H8));
    assert_eq!(Square::from_algebraic("a1"), Some(Square::A1));
    assert_eq!(Square::from_algebraic("i1"), None);
    assert_eq!(Square::from_algebraic("a9"), None);
    assert_eq!(Square::from_algebraic("E2"), None);
    assert_eq!(Square::from_algebraic("e"), None);
    assert_eq!(Square::from_algebraic("e22"), None);
    assert_eq!(Square::from_algebraic("(n"), None);
}

#[test]
fn every_square_reads_back_from_its_name() {
    for i in 0..64u8 {
        let square = Square::from_index(i);
        assert_eq!(Square::from_algebraic(&square.to_algebraic()), Some(square));
    }
}

#[test]
fn promotion_letters() {
    assert_eq!(promotion_piece(None), None);
    assert_eq!(promotion_piece(Some('q')), Some(Piece::Queen));
    assert_eq!(promotion_piece(Some('r')), Some(Piece::Rook));
    assert_eq!(promotion_piece(Some('b')), Some(Piece::Bishop));
    assert_eq!(promotion_piece(Some('n')), Some(Piece::Knight));
    assert_eq!(promotion_piece(Some('x')), Some(Piece::Queen));
}

#[test]
fn game_results_for_the_engine() {
    assert_eq!(game_result(GameEnding::Checkmate, Color::White, Color::White), GameResult::Loss);
    assert_eq!(game_result(GameEnding::Checkmate, Color::Black, Color::White), GameResult::Win);
    assert_eq!(game_result(GameEnding::Stalemate, Color::White, Color::White), GameResult::Draw);
    assert_eq!(game_result(GameEnding::Draw, Color::Black, Color::White), GameResult::Draw);
}

#[test]
fn elo_starts_no_lower_than_the_minimum() {
    assert_eq!(initial_elo(1000, 1320), 1320);
    assert_eq!(initial_elo(1500, 1320), 1500);
}

#[test]
fn elo_levels_move_up_down_or_stop_at_the_floor() {
    assert_eq!(GAMES_PER_ELO, 10);
    assert_eq!(ELO_INCREMENT, 25);
    // 6 wins of 10: over half.
    assert_eq!(level_outcome(1500, 1320, 6, 0, 10), LevelOutcome::Raise(1525));
    // 4 wins and 3 draws: 5.5 of 10.
    assert_eq!(level_outcome(1500, 1320, 4, 3, 10), LevelOutcome::Raise(1525));
    // Exactly half is not over half.
    assert_eq!(level_outcome(1500, 1320, 5, 0, 10), LevelOutcome::Lower(1475));
    assert_eq!(level_outcome(1500, 1320, 4, 2, 10), LevelOutcome::Lower(1475));
    // Lowering stops at the minimum.
    assert_eq!(level_outcome(1330, 1320, 2, 0, 10), LevelOutcome::Lower(1320));
    // At the minimum a poor level ends the measurement there.
    assert_eq!(level_outcome(1320, 1320, 0, 0, 10), LevelOutcome::Floor(1320));
    assert_eq!(level_outcome(10, 20, 1, 0, 10), LevelOutcome::Floor(20));
}
