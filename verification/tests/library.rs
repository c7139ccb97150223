use chess::bitboard::{count_ones, square_bit};
use chess::board::{Board, BoardError, CastleRights};
use chess::chess_move::capture::Capture;
use chess::chess_move::castle::CastleChessMove;
use chess::chess_move::chess_move::ChessMove;
use chess::chess_move::chess_move_effect::ChessMoveEffect;
use chess::chess_move::en_passant::EnPassantChessMove;
use chess::chess_move::pawn_promotion::PawnPromotionChessMove;
use chess::chess_move::standard::StandardChessMove;
use chess::diagnostics::memory_profiler::MemoryProfiler;
use chess::evaluate::evaluation::{game_ending, pawn_structure_for_color, score, GameEnding};
use chess::evaluate::piece_values::material_value;
use chess::game::action::GameMode;
use chess::game::alpha_beta_benchmark::format_number;
use chess::game::command::MakeMove;
use chess::game::display::GameDisplay;
use chess::game::engine::EngineConfig;
use chess::game::position_counter::CountPositionsStrategy;
use chess::input_handler::parse_command;
use chess::piece::{Color, Piece};
use chess::square::Square;
use chess::targets::{attack_targets, bishop_attacks, king_attacks, knight_attacks, pawn_attacks, rook_attacks};

fn lib_board(rows: [&str; 8]) -> Board {
    let mut board = Board::empty();
    for (i, row) in rows.iter().enumerate() {
        let rank = 7 - i as u8;
        for (file, c) in row.chars().enumerate() {
            let color = if c.is_ascii_uppercase() { Color::White } else { Color::Black };
            let piece = match c.to_ascii_lowercase() {
                'p' => Piece::Pawn,
                'n' => Piece::Knight,
                'b' => Piece::Bishop,
                'r' => Piece::Rook,
                'q' => Piece::Queen,
                'k' => Piece::King,
                _ => continue,
            };
            board.put(Square::from_index(rank * 8 + file as u8), piece, color).unwrap();
        }
    }
    board
}

fn squares_of(board: &Board) -> Vec<Option<(Piece, Color)>> {
    (0..64u8).map(|i| board.get(Square::from_index(i))).collect()
}

fn full_state(board: &Board) -> (Vec<Option<(Piece, Color)>>, Color, u32, u32, Option<Square>, CastleRights) {
    (
        squares_of(board),
        board.turn(),
        board.halfmove_clock(),
        board.fullmove_clock(),
        board.peek_en_passant_target(),
        board.peek_castle_rights(),
    )
}

#[test]
fn parse_command_reads_two_squares() {
    match parse_command("e2e4") {
        Ok(MakeMove::Coordinate { from_square, to_square }) => {
            assert_eq!(from_square, "e2");
            assert_eq!(to_square, "e4");
        },
        _ => panic!("e2e4 is a move"),
    }
}

#[test]
fn parse_command_rejects_other_text() {
    for raw in ["e2e9", "e2e4 ", "i2e4", "e2", "Nf3"] {
        match parse_command(raw) {
            Err(message) => assert_eq!(message, format!("invalid input: {}", raw)),
            Ok(_) => panic!("{} is not a move", raw),
        }
    }
}

#[test]
fn display_clears_the_screen_first() {
    let mut display = GameDisplay::new();
    assert_eq!(display.text(), "");
    display.clear();
    assert_eq!(display.text(), "\x1b[1;1H\x1b[2J");
}

#[test]
fn display_frame_shows_board_turn_and_move() {
    let mut display = GameDisplay::new();
    let board = Board::default();
    let mv = ChessMove::Standard(StandardChessMove::new(Square::E2, Square::E4, None));
    display.render_game_state(&board, Color::Black, Some((&mv, "e4")), Some("* Score: 0"));
    let frame = display.buffer();
    assert!(frame.starts_with("\x1b[1;1H\x1b[2J    a   b   c   d   e   f   g   h\n"));
    assert!(frame.contains("8 │ ♜ │ ♞ │ ♝ │ ♛ │ ♚ │ ♝ │ ♞ │ ♜ │ 8\n"));
    assert!(frame.contains("1 │ ♖ │ ♘ │ ♗ │ ♕ │ ♔ │ ♗ │ ♘ │ ♖ │ 1\n"));
    assert!(frame.contains("5 │   │ · │   │ · │   │ · │   │ · │ 5\n"));
    assert!(frame.ends_with("Turn: Black\nLast move: e4\n\n* Score: 0\n"));
}

#[test]
fn uci_and_algebraic_squares() {
    assert_eq!(Square::E4.to_algebraic(), "e4");
    assert_eq!(Square::A1.to_algebraic(), "a1");
    assert_eq!(Square::H8.to_algebraic(), "h8");
    let std = ChessMove::Standard(StandardChessMove::new(Square::E2, Square::E4, None));
    assert_eq!(std.to_uci(), "e2e4");
    let promo = ChessMove::PawnPromotion(PawnPromotionChessMove::new(Square::E7, Square::E8, None, Piece::Knight));
    assert_eq!(promo.to_uci(), "e7e8n");
    let castle = ChessMove::Castle(CastleChessMove::castle_kingside(Color::White));
    assert_eq!(castle.to_uci(), "e1g1");
}

#[test]
fn format_number_groups_thousands() {
    assert_eq!(format_number(0), "0");
    assert_eq!(format_number(999), "999");
    assert_eq!(format_number(1000), "1,000");
    assert_eq!(format_number(1234567), "1,234,567");
    assert_eq!(format_number(100000), "100,000");
}

#[test]
fn game_mode_and_strategy_names() {
    assert_eq!(GameMode::parse("play"), Some(GameMode::Play));
    assert_eq!(GameMode::parse("WATCH"), Some(GameMode::Watch));
    assert_eq!(GameMode::parse("PvP"), Some(GameMode::Pvp));
    assert_eq!(GameMode::parse("plays"), None);
    assert_eq!(CountPositionsStrategy::parse("all"), Ok(CountPositionsStrategy::All));
    assert_eq!(CountPositionsStrategy::parse("alpha-beta"), Ok(CountPositionsStrategy::AlphaBeta));
    assert_eq!(CountPositionsStrategy::parse("ALL"), Err("invalid strategy; options are: all, alpha-beta"));
    let parsed: CountPositionsStrategy = "alpha-beta".parse().unwrap();
    assert_eq!(parsed, CountPositionsStrategy::AlphaBeta);
}

#[test]
fn memory_profiler_counts_and_resets() {
    let mut profiler = MemoryProfiler::default();
    profiler.record_board_clone();
    profiler.record_board_clone();
    profiler.record_movegen_create();
    assert_eq!((profiler.board_clones, profiler.movegen_creates), (2, 1));
    profiler.reset();
    assert_eq!((profiler.board_clones, profiler.movegen_creates), (0, 0));
}

#[test]
fn material_values_and_default_config() {
    assert_eq!(material_value(Piece::Pawn), 8);
    assert_eq!(material_value(Piece::Queen), 9);
    assert_eq!(material_value(Piece::King), 100);
    let config = EngineConfig::default();
    assert_eq!(config.search_depth, 4);
    assert_eq!(squares_of(&config.starting_position), squares_of(&Board::starting_position()));
}

#[test]
fn attack_tables() {
    assert_eq!(square_bit(Square::C3.index()), 1u64 << 18);
    assert_eq!(count_ones(knight_attacks(Square::E4.index())), 8);
    assert_eq!(count_ones(knight_attacks(Square::A1.index())), 2);
    assert_eq!(count_ones(king_attacks(Square::A1.index())), 3);
    assert_eq!(count_ones(king_attacks(Square::E4.index())), 8);
    assert_eq!(pawn_attacks(true, Square::E4.index()), (1u64 << Square::D5.index()) | (1u64 << Square::F5.index()));
    assert_eq!(pawn_attacks(false, Square::A7.index()), 1u64 << Square::B6.index());
    // A bishop on a1 sees the long diagonal up to the first piece, which it attacks.
    let blocker = 1u64 << Square::D4.index();
    let expected = (1u64 << Square::B2.index()) | (1u64 << Square::C3.index()) | blocker;
    assert_eq!(bishop_attacks(Square::A1.index(), blocker), expected);
    assert_eq!(count_ones(rook_attacks(Square::A1.index(), 0)), 14);
    assert_eq!(count_ones(rook_attacks(Square::A1.index(), 1u64 << Square::A2.index() | 1u64 << Square::B1.index())), 2);
}

#[test]
fn starting_position_attacks_the_third_and_sixth_ranks() {
    let board = Board::default();
    let white = attack_targets(&board, Color::White);
    let black = attack_targets(&board, Color::Black);
    for file in 0..8u8 {
        assert!(white & (1u64 << (16 + file)) != 0);
        assert!(black & (1u64 << (40 + file)) != 0);
    }
    assert!(white & (1u64 << 32) == 0);
    assert!(board.is_maximizing_player());
    assert!(!board.is_in_check());
    assert!(!board.is_endgame());
}

#[test]
fn single_passed_pawn_scores_exactly() {
    // A lone pawn on e5 in the midgame: passed (35) and isolated (-12).
    let e5 = 1u64 << Square::E5.index();
    assert_eq!(pawn_structure_for_color(e5, 0, 24, true), 23);
    // In the endgame the passed bonus on that rank is 50.
    assert_eq!(pawn_structure_for_color(e5, 0, 0, true), 38);
}

#[test]
fn game_ending_draws() {
    let mut board = Board::default();
    for _ in 0..100 {
        board.increment_halfmove_clock();
    }
    assert!(matches!(game_ending(&board, &Vec::new(), 7, true), Some(GameEnding::Draw)));

    let board = Board::default();
    let history = vec![7u64, 1, 7, 2, 7];
    assert!(matches!(game_ending(&board, &history, 7, true), Some(GameEnding::Draw)));
    let history = vec![7u64, 1, 7];
    assert!(game_ending(&board, &history, 7, true).is_none());
}

#[test]
fn score_of_mates_and_draws() {
    // White to move and mated: Black wins, the sooner the better for Black.
    let mut mated = lib_board([".......k", "........", "........", "........", "........", "........", "PPP.....", ".K.....r"]);
    mated.lose_castle_rights(CastleRights::all());
    assert_eq!(score(&mated, Color::White, 3, false), i16::MIN / 2 - 3);
    assert_eq!(score(&mated, Color::White, 0, false), i16::MIN / 2);
    assert!(score(&mated, Color::White, 3, false) < score(&mated, Color::White, 1, false));
    assert_eq!(score(&mated, Color::Black, 2, false), i16::MAX / 2 + 2);
    // Stalemate scores as a draw away from the leaves.
    let mut stalemate = lib_board(["k.......", "........", ".Q......", "........", "........", "........", "........", "....K..."]);
    stalemate.set_turn(Color::Black);
    assert_eq!(score(&stalemate, Color::Black, 2, false), 0);
    // Near the fifty-move rule every position is a draw.
    let mut quiet = Board::default();
    for _ in 0..90 {
        quiet.increment_halfmove_clock();
    }
    assert_eq!(score(&quiet, Color::White, 3, true), 0);
    assert_eq!(score(&Board::default(), Color::White, 3, true), 0);
}

#[test]
fn undo_restores_every_kind_of_move() {
    // Standard capture.
    let mut board = lib_board(["....k...", "........", "........", "...p....", "....P...", "........", "........", "....K..R"]);
    let before = full_state(&board);
    let capture = ChessMove::Standard(StandardChessMove::new(Square::E4, Square::D5, Some(Capture(Piece::Pawn))));
    capture.apply(&mut board).unwrap();
    assert_eq!(board.halfmove_clock(), 0);
    capture.undo(&mut board).unwrap();
    assert_eq!(before, full_state(&board));
    // Castle.
    let castle = ChessMove::Castle(CastleChessMove::castle_kingside(Color::White));
    castle.apply(&mut board).unwrap();
    assert!(board.peek_castle_rights().intersection(CastleRights::white_kingside()).is_empty());
    castle.undo(&mut board).unwrap();
    assert_eq!(before, full_state(&board));
    // Promotion.
    let mut board = lib_board(["....k...", "P.......", "........", "........", "........", "........", "........", "....K..."]);
    let before = full_state(&board);
    let promotion = ChessMove::PawnPromotion(PawnPromotionChessMove::new(Square::A7, Square::A8, None, Piece::Rook));
    promotion.apply(&mut board).unwrap();
    assert_eq!(board.get(Square::A8), Some((Piece::Rook, Color::White)));
    promotion.undo(&mut board).unwrap();
    assert_eq!(before, full_state(&board));
    // En passant.
    let mut board = lib_board(["....k...", "........", "........", "...pP...", "........", "........", "........", "....K..."]);
    let before = full_state(&board);
    let ep = ChessMove::EnPassant(EnPassantChessMove::new(Square::E5, Square::D6));
    ep.apply(&mut board).unwrap();
    assert_eq!(board.get(Square::D5), None);
    ep.undo(&mut board).unwrap();
    assert_eq!(before, full_state(&board));
}

#[test]
fn move_errors() {
    let mut board = lib_board(["....k...", "........", "........", "........", "........", "........", "....P...", "....K..."]);
    // Nothing to move.
    let empty = StandardChessMove::new(Square::A3, Square::A4, None);
    assert_eq!(empty.apply(&mut board), Err(BoardError::FromSquareIsEmptyMoveApplicationError));
    // A capture that finds nothing to take.
    let mut board = Board::default();
    let wrong = StandardChessMove::new(Square::E2, Square::E4, Some(Capture(Piece::Pawn)));
    assert_eq!(wrong.apply(&mut board), Err(BoardError::UnexpectedCaptureResultError));
    // Undo with nothing on the target square.
    let mut board = Board::default();
    board.increment_halfmove_clock();
    board.increment_fullmove_clock();
    board.push_en_passant_target(None);
    board.preserve_castle_rights();
    let undo = StandardChessMove::new(Square::E2, Square::E4, None);
    assert_eq!(undo.undo(&mut board), Err(BoardError::ToSquareIsEmptyMoveUndoError));
    // Putting a piece on an occupied square.
    let mut board = Board::default();
    assert_eq!(board.put(Square::E1, Piece::Queen, Color::White), Err(BoardError::SquareOccupiedBoardPutError));
    // Castling without a rook.
    let mut board = lib_board(["....k...", "........", "........", "........", "........", "........", "........", "....K..."]);
    let castle = CastleChessMove::castle_kingside(Color::White);
    assert_eq!(castle.apply(&mut board), Err(BoardError::InvalidCastleStateError));
    // En passant with a piece that is not a pawn, and with nothing to take.
    let mut board = lib_board(["....k...", "........", "........", "....N...", "........", "........", "........", "....K..."]);
    let ep = EnPassantChessMove::new(Square::E5, Square::D6);
    assert_eq!(ep.apply(&mut board), Err(BoardError::EnPassantNonPawnMoveApplicationError));
    let mut board = lib_board(["....k...", "........", "........", "....P...", "........", "........", "........", "....K..."]);
    assert_eq!(ep.apply(&mut board), Err(BoardError::EnPassantDidNotResultInCaptureError));
    let mut board = lib_board(["....k...", "........", "...N....", "........", "........", "........", "........", "....K..."]);
    assert_eq!(ep.undo(&mut board), Err(BoardError::EnPassantNonPawnMoveUndoError));
    // Promoting something that is not a pawn.
    let mut board = lib_board(["....k...", "N.......", "........", "........", "........", "........", "........", "....K..."]);
    let promotion = PawnPromotionChessMove::new(Square::A7, Square::A8, None, Piece::Queen);
    assert_eq!(promotion.apply(&mut board), Err(BoardError::PromotionNonPawnError));
    // Turning a move that is not a pawn's last step into a promotion.
    let board = Board::default();
    let not_promotable = StandardChessMove::new(Square::E2, Square::E4, None);
    assert!(!not_promotable.is_promotable_pawn(&board));
    assert_eq!(not_promotable.to_pawn_promotion(&board, Piece::Queen).err(), Some(BoardError::PawnNotPromotableError));
    let board = lib_board(["....k...", "P.......", "........", "........", "........", "........", "........", "....K..."]);
    let promotable = StandardChessMove::new(Square::A7, Square::A8, None);
    let promoted = promotable.to_pawn_promotion(&board, Piece::Queen).unwrap();
    assert_eq!(promoted.promote_to_piece(), Piece::Queen);
    assert_eq!(promoted.from_square(), Square::A7);
}

#[test]
fn double_step_sets_en_passant_target() {
    let mut board = Board::default();
    ChessMove::Standard(StandardChessMove::new(Square::E2, Square::E4, None)).apply(&mut board).unwrap();
    assert_eq!(board.peek_en_passant_target(), Some(Square::E3));
    ChessMove::Standard(StandardChessMove::new(Square::G8, Square::F6, None)).apply(&mut board).unwrap();
    assert_eq!(board.peek_en_passant_target(), None);
    // The pawn move restarted the halfmove clock; the knight move advanced it.
    assert_eq!(board.halfmove_clock(), 1);
    assert_eq!(board.fullmove_clock(), 2);
}

#[test]
fn pawn_moves_and_captures_restart_the_halfmove_clock() {
    let mut board = Board::default();
    ChessMove::Standard(StandardChessMove::new(Square::G1, Square::F3, None)).apply(&mut board).unwrap();
    ChessMove::Standard(StandardChessMove::new(Square::G8, Square::F6, None)).apply(&mut board).unwrap();
    assert_eq!(board.halfmove_clock(), 2);
    let pawn = ChessMove::Standard(StandardChessMove::new(Square::D2, Square::D3, None));
    pawn.apply(&mut board).unwrap();
    assert_eq!(board.halfmove_clock(), 0);
    pawn.undo(&mut board).unwrap();
    assert_eq!(board.halfmove_clock(), 2);
}

#[test]
fn standard_moves_compare_without_effects() {
    let mut checking = ChessMove::Standard(StandardChessMove::new(Square::E2, Square::E4, None));
    checking.set_effect(ChessMoveEffect::Check);
    let plain = ChessMove::Standard(StandardChessMove::new(Square::E2, Square::E4, None));
    assert_eq!(checking, plain);
    assert_eq!(checking.effect(), Some(ChessMoveEffect::Check));
    let other = ChessMove::Standard(StandardChessMove::new(Square::E2, Square::E3, None));
    assert_ne!(checking, other);
}
