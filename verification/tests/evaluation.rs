use chess::bitboard::{EMPTY, RANK_1, RANK_2, RANK_7, RANK_8};
use chess::board::{Board, CastleRights};
use chess::evaluate::evaluation::{
    above_rank_mask, below_rank_mask, board_material_score, game_ending, game_phase, is_endgame,
    king_safety_for_color, mobility_eval, mobility_for_color, pawn_structure_eval, pawn_structure_for_color,
    piece_activity_eval, piece_activity_for_color, player_is_in_check, player_is_in_checkmate,
    player_material_score, taper, GameEnding,
};
use chess::piece::{Color, Piece};
use chess::square::Square;

/// A board from a diagram: eight rows from rank 8 down to rank 1, `.` for an
/// empty square, capitals for White and small letters for Black.
fn diagram_board(rows: [&str; 8]) -> Board {
    let mut board = Board::empty();
    for (i, row) in rows.iter().enumerate() {
        let rank = 7 - i as u8;
        for (file, c) in row.chars().enumerate() {
            let color = if c.is_ascii_uppercase() { Color::White } else { Color::Black };
            let piece = match c.to_ascii_lowercase() {
                'p' => Piece::Pawn,
                'n' => Piece::Knight,
                'b' => Piece::Bishop,
                'r' => Piece::Rook,
                'q' => Piece::Queen,
                'k' => Piece::King,
                _ => continue,
            };
            board.put(Square::from_index(rank * 8 + file as u8), piece, color).unwrap();
        }
    }
    board
}

fn pawns(board: &Board, color: Color) -> u64 {
    board.pieces(color).locate(Piece::Pawn)
}

#[test]
fn test_game_phase_starting_position() {
    let board = Board::default();
    assert_eq!(game_phase(&board), 24);
}

#[test]
fn test_game_phase_endgame() {
    let board = diagram_board([
        "........", "........", "...k....", "........", "...K....", "........", "........", "........",
    ]);
    assert_eq!(game_phase(&board), 0);
}

#[test]
fn test_taper_midgame() {
    assert_eq!(taper(100, 0, 24), 100);
}

#[test]
fn test_taper_endgame() {
    assert_eq!(taper(100, 50, 0), 50);
}

#[test]
fn test_taper_midpoint() {
    assert_eq!(taper(100, 0, 12), 50);
}

#[test]
fn test_starting_board_material_score_is_zero() {
    let board = Board::default();
    assert_eq!(board_material_score(&board), 0);
}

#[test]
fn test_game_ending_stalemate() {
    // Black king on a8, White queen on b6: Black has no legal move and is not in check.
    let mut board = diagram_board([
        "k.......", "........", ".Q......", "........", "........", "........", "........", "....K...",
    ]);
    board.set_turn(Color::Black);
    board.lose_castle_rights(CastleRights::all());
    let ending = game_ending(&board, &Vec::new(), 0, false);
    assert!(matches!(ending, Some(GameEnding::Stalemate)));
}

#[test]
fn test_game_ending_checkmate() {
    // Black king on h8, White queen on g7 gives check, the White king on f7 guards it.
    let mut board = diagram_board([
        ".......k", ".....KQ.", "........", "........", "........", "........", "........", "........",
    ]);
    board.set_turn(Color::Black);
    board.lose_castle_rights(CastleRights::all());
    let ending = game_ending(&board, &Vec::new(), 0, false);
    assert!(matches!(ending, Some(GameEnding::Checkmate)));
}

#[test]
fn test_is_endgame_one_minor_piece() {
    let mut board = diagram_board([
        ".......k", ".......b", "........", "...q....", "........", "........", "........", "K.......",
    ]);
    assert!(!is_endgame(&board));
    board.remove(Square::D5);
    assert!(is_endgame(&board));
}

#[test]
fn test_is_endgame_both_sides_no_queens() {
    let mut board = diagram_board([
        ".......k", ".......q", "........", "...b....", "........", "........", ".Q......", "K.......",
    ]);
    assert!(!is_endgame(&board));
    board.remove(Square::H7);
    board.remove(Square::B2);
    assert!(is_endgame(&board));
}

#[test]
fn test_default_is_not_endgame() {
    let board = Board::default();
    assert!(!is_endgame(&board));
}

#[test]
fn test_passed_pawn_detection() {
    let board = diagram_board([
        "........", "........", "........", "....P...", "........", "........", "........", "........",
    ]);
    let phase = game_phase(&board);
    let score = pawn_structure_eval(pawns(&board, Color::White), pawns(&board, Color::Black), phase);
    assert!(score > 0, "Expected positive score for passed pawn, got {}", score);
}

#[test]
fn test_doubled_pawn_penalty() {
    let board = diagram_board([
        "........", "........", "........", "....P...", "....P...", "........", "........", "........",
    ]);
    let phase = game_phase(&board);
    let doubled_score = pawn_structure_eval(pawns(&board, Color::White), pawns(&board, Color::Black), phase);
    let single = diagram_board([
        "........", "........", "........", "....P...", "........", "........", "........", "........",
    ]);
    let single_score = pawn_structure_eval(pawns(&single, Color::White), pawns(&single, Color::Black), phase);
    assert!(
        doubled_score < single_score * 2,
        "Doubled pawn ({}) should be less than 2x single ({})",
        doubled_score,
        single_score
    );
}

#[test]
fn test_isolated_pawn_penalty() {
    let isolated = diagram_board([
        "........", "........", "........", "P.......", "........", "........", "........", "........",
    ]);
    let phase = game_phase(&isolated);
    let iso_score = pawn_structure_eval(pawns(&isolated, Color::White), pawns(&isolated, Color::Black), phase);
    let connected = diagram_board([
        "........", "........", "........", "P.......", ".P......", "........", "........", "........",
    ]);
    let conn_score = pawn_structure_eval(pawns(&connected, Color::White), pawns(&connected, Color::Black), phase);
    assert!(
        conn_score > iso_score,
        "Connected pawns ({}) should score better than isolated ({})",
        conn_score,
        iso_score
    );
}

#[test]
fn test_bishop_pair_bonus() {
    let board = diagram_board([
        "........", "........", "........", "........", "........", "........", "........", "..BB....",
    ]);
    let phase = game_phase(&board);
    let score = piece_activity_eval(&board, EMPTY, EMPTY, EMPTY, phase);
    assert!(score > 0, "Expected positive bishop pair bonus, got {}", score);
}

#[test]
fn test_player_is_in_check() {
    let mut board = diagram_board([
        ".......k", ".....ppp", "........", "...b....", "........", "........", ".Q......", "K......q",
    ]);
    board.lose_castle_rights(CastleRights::all());
    board.set_turn(Color::White);
    assert!(player_is_in_check(&board, Color::White));
    assert!(!player_is_in_check(&board, Color::Black));
}

#[test]
fn test_player_is_in_checkmate() {
    let mut board = diagram_board([
        ".......k", "........", "........", "........", "........", "........", "PPP.....", ".K.....r",
    ]);
    board.lose_castle_rights(CastleRights::all());
    board.set_turn(Color::White);
    // White, mated, has no legal move; Black can move.
    assert!(player_is_in_checkmate(&board, Color::White, false));
    assert!(!player_is_in_checkmate(&board, Color::Black, true));
}

#[test]
fn test_above_rank_mask() {
    let mask = above_rank_mask(0);
    assert!(mask != 0);
    assert!(mask & RANK_1 == 0);
    assert!(mask & RANK_2 != 0);
    assert!(above_rank_mask(7) == 0);
}

#[test]
fn test_below_rank_mask() {
    let mask = below_rank_mask(7);
    assert!(mask != 0);
    assert!(mask & RANK_8 == 0);
    assert!(mask & RANK_7 != 0);
    assert!(below_rank_mask(0) == 0);
}

#[test]
fn test_black_passed_pawn_detection() {
    let board = diagram_board([
        "........", "........", "........", "........", "...p....", "........", "........", "........",
    ]);
    let phase = game_phase(&board);
    let score = pawn_structure_eval(pawns(&board, Color::White), pawns(&board, Color::Black), phase);
    assert!(score < 0, "Expected negative score for Black passed pawn, got {}", score);
}

#[test]
fn test_king_safety_pawn_shield() {
    let shielded = diagram_board([
        "........", "........", "........", "........", "........", "........", ".....PPP", "......K.",
    ]);
    let exposed = diagram_board([
        "........", "........", "........", "........", "........", "........", "........", "...K....",
    ]);
    let phase_full = 24u8;
    let all_pawns_s = pawns(&shielded, Color::White);
    let white_score_shielded = king_safety_for_color(&shielded, Color::White, all_pawns_s, all_pawns_s, phase_full);
    let white_score_exposed = king_safety_for_color(&exposed, Color::White, EMPTY, EMPTY, phase_full);
    assert!(
        white_score_shielded > white_score_exposed,
        "Shielded king ({}) should score higher than exposed king ({})",
        white_score_shielded,
        white_score_exposed
    );
}

#[test]
fn test_king_safety_open_file_penalty() {
    let open_file_king = diagram_board([
        "........", "........", "........", "........", "........", "........", "PP...PPP", "..K.....",
    ]);
    let closed_file_king = diagram_board([
        "........", "........", "........", "........", "........", "........", "PPP..PPP", ".K......",
    ]);
    let phase_full = 24u8;
    let wp_open = pawns(&open_file_king, Color::White);
    let score_open = king_safety_for_color(&open_file_king, Color::White, wp_open, wp_open, phase_full);
    let wp_closed = pawns(&closed_file_king, Color::White);
    let score_closed = king_safety_for_color(&closed_file_king, Color::White, wp_closed, wp_closed, phase_full);
    assert!(
        score_closed > score_open,
        "Closed files king ({}) should score higher than open file king ({})",
        score_closed,
        score_open
    );
}

#[test]
fn test_knight_outpost_bonus() {
    let outpost = diagram_board([
        "....k...", "........", "........", "...N....", "........", "........", "........", "....K...",
    ]);
    let no_outpost = diagram_board([
        "....k...", "........", "........", "........", "........", "........", "...N....", "....K...",
    ]);
    let phase = 24u8;
    let outpost_score = piece_activity_for_color(&outpost, Color::White, EMPTY, EMPTY, EMPTY, phase);
    let no_outpost_score = piece_activity_for_color(&no_outpost, Color::White, EMPTY, EMPTY, EMPTY, phase);
    assert!(
        outpost_score > no_outpost_score,
        "Knight outpost ({}) should score higher than non-outpost ({})",
        outpost_score,
        no_outpost_score
    );
}

#[test]
fn test_knight_outpost_blocked_by_enemy_pawn() {
    let blocked = diagram_board([
        "....k...", "........", "..p.....", "...N....", "........", "........", "........", "....K...",
    ]);
    let phase = 24u8;
    let bp = pawns(&blocked, Color::Black);
    let score = piece_activity_for_color(&blocked, Color::White, bp, EMPTY, bp, phase);
    let unblocked = diagram_board([
        "....k...", "........", "........", "...N....", "........", "........", "........", "....K...",
    ]);
    let unblocked_score = piece_activity_for_color(&unblocked, Color::White, EMPTY, EMPTY, EMPTY, phase);
    assert!(
        unblocked_score > score,
        "Unblocked outpost ({}) should score higher than blocked ({})",
        unblocked_score,
        score
    );
}

#[test]
fn test_knight_outpost_supported_by_pawn() {
    let supported = diagram_board([
        "....k...", "........", "........", "...N....", "..P.....", "........", "........", "....K...",
    ]);
    let unsupported = diagram_board([
        "....k...", "........", "........", "...N....", "........", "........", "........", "....K...",
    ]);
    let phase = 24u8;
    let wp_s = pawns(&supported, Color::White);
    let supported_score = piece_activity_for_color(&supported, Color::White, wp_s, wp_s, EMPTY, phase);
    let unsupported_score = piece_activity_for_color(&unsupported, Color::White, EMPTY, EMPTY, EMPTY, phase);
    assert!(
        supported_score > unsupported_score,
        "Supported outpost ({}) should score higher than unsupported ({})",
        supported_score,
        unsupported_score
    );
}

#[test]
fn test_black_knight_outpost() {
    let board = diagram_board([
        "....k...", "........", "........", "........", "....n...", "........", "........", "....K...",
    ]);
    let phase = 24u8;
    let score = piece_activity_for_color(&board, Color::Black, EMPTY, EMPTY, EMPTY, phase);
    assert!(score > 0, "Black knight outpost should give bonus, got {}", score);
}

#[test]
fn test_backward_pawn_penalty() {
    let backward = diagram_board([
        "........", "........", "........", "....p...", "........", "...P....", "........", "........",
    ]);
    let supported = diagram_board([
        "........", "........", "........", "....p...", "........", "...P....", "..P.....", "........",
    ]);
    let phase = 24u8;
    let bw_score = pawn_structure_for_color(pawns(&backward, Color::White), pawns(&backward, Color::Black), phase, true);
    let sp_score_white =
        pawn_structure_for_color(pawns(&supported, Color::White), pawns(&supported, Color::Black), phase, true);
    assert!(
        sp_score_white > bw_score,
        "Supported pawn ({}) should score higher than backward pawn ({})",
        sp_score_white,
        bw_score
    );
}

#[test]
fn test_backward_pawn_not_when_isolated() {
    let board = diagram_board([
        "........", "........", "........", "........", ".p......", "P.......", "........", "........",
    ]);
    let phase = 24u8;
    let score = pawn_structure_for_color(pawns(&board, Color::White), pawns(&board, Color::Black), phase, true);
    assert!(score < 0, "Isolated pawn should have negative score, got {}", score);
}

#[test]
fn test_connected_pawn_bonus() {
    let connected = diagram_board([
        "........", "........", "........", "........", "...PP...", "........", "........", "........",
    ]);
    let disconnected = diagram_board([
        "........", "........", "........", "........", "P......P", "........", "........", "........",
    ]);
    let phase = 24u8;
    let conn_score = pawn_structure_for_color(pawns(&connected, Color::White), EMPTY, phase, true);
    let disc_score = pawn_structure_for_color(pawns(&disconnected, Color::White), EMPTY, phase, true);
    assert!(
        conn_score > disc_score,
        "Connected pawns ({}) should score higher than disconnected ({})",
        conn_score,
        disc_score
    );
}

#[test]
fn test_connected_pawn_diagonal_support() {
    let board = diagram_board([
        "........", "........", "........", "........", "....P...", "...P....", "........", "........",
    ]);
    let phase = 24u8;
    let score = pawn_structure_for_color(pawns(&board, Color::White), EMPTY, phase, true);
    assert!(score > 0, "Diagonally supported pawns should have positive score, got {}", score);
}

#[test]
fn test_mobility_knight_center_vs_corner() {
    let center = diagram_board([
        "....k...", "........", "........", "........", "....N...", "........", "........", "....K...",
    ]);
    let corner = diagram_board([
        "....k...", "........", "........", "........", "........", "........", "........", "N...K...",
    ]);
    let phase = 24u8;
    let center_mob = mobility_for_color(&center, Color::White, phase);
    let corner_mob = mobility_for_color(&corner, Color::White, phase);
    assert!(
        center_mob > corner_mob,
        "Center knight mobility ({}) should exceed corner ({})",
        center_mob,
        corner_mob
    );
}

#[test]
fn test_mobility_bishop_open_vs_blocked() {
    let open = diagram_board([
        "....k...", "........", "........", "........", "........", "........", "........", "B...K...",
    ]);
    let blocked = diagram_board([
        "....k...", "........", "........", "........", "........", "........", ".P......", "B...K...",
    ]);
    let phase = 24u8;
    let open_mob = mobility_for_color(&open, Color::White, phase);
    let blocked_mob = mobility_for_color(&blocked, Color::White, phase);
    assert!(open_mob > blocked_mob, "Open bishop mobility ({}) should exceed blocked ({})", open_mob, blocked_mob);
}

#[test]
fn test_mobility_symmetry_starting_position() {
    let board = Board::default();
    let phase = game_phase(&board);
    let score = mobility_eval(&board, phase);
    assert_eq!(score, 0, "Starting position mobility should be 0, got {}", score);
}

#[test]
fn test_mobility_bishop_long_diagonal() {
    let long_diag = diagram_board([
        "....k...", "........", "........", "........", "........", "........", "........", "B...K...",
    ]);
    let short_diag = diagram_board([
        "....k...", "........", "........", "........", "........", "........", ".P......", "B...K...",
    ]);
    let phase = 24u8;
    let long_mob = mobility_for_color(&long_diag, Color::White, phase);
    let short_mob = mobility_for_color(&short_diag, Color::White, phase);
    assert!(
        long_mob > short_mob,
        "Long diagonal bishop mobility ({}) should exceed blocked ({})",
        long_mob,
        short_mob
    );
}

#[test]
fn test_king_attack_scoring() {
    let attacking = diagram_board([
        "......k.", "........", ".....N..", "........", "........", "........", "........", "....K...",
    ]);
    let passive = diagram_board([
        "......k.", "........", "........", "........", "........", "........", "........", "N...K...",
    ]);
    let phase = 24u8;
    let attack_score = king_safety_for_color(&attacking, Color::Black, EMPTY, EMPTY, phase);
    let passive_score = king_safety_for_color(&passive, Color::Black, EMPTY, EMPTY, phase);
    assert!(
        attack_score < passive_score,
        "Attacked king ({}) should score lower than passive ({})",
        attack_score,
        passive_score
    );
}

#[test]
fn test_king_attack_zero_in_endgame() {
    let board = diagram_board([
        "......k.", "........", ".....N..", "........", "........", "........", "........", "....K...",
    ]);
    let score_eg = king_safety_for_color(&board, Color::Black, EMPTY, EMPTY, 0);
    assert_eq!(score_eg, 0, "King attack in endgame should be 0, got {}", score_eg);
}

#[test]
fn test_endgame_knight_prefers_center() {
    let center_knight = diagram_board([
        "....k...", "........", "........", "........", "....N...", "........", "........", "....K...",
    ]);
    let rim_knight = diagram_board([
        "....k...", "........", "........", "........", "N.......", "........", "........", "....K...",
    ]);
    let center_score = player_material_score(&center_knight, Color::White, 0);
    let rim_score = player_material_score(&rim_knight, Color::White, 0);
    assert!(center_score > rim_score, "Center knight EG score ({}) should exceed rim ({})", center_score, rim_score);
}

#[test]
fn test_endgame_rook_prefers_seventh() {
    let seventh = diagram_board([
        "....k...", "R.......", "........", "........", "........", "........", "........", "....K...",
    ]);
    let first = diagram_board([
        "....k...", "........", "........", "........", "........", "........", "........", "R...K...",
    ]);
    let seventh_score = player_material_score(&seventh, Color::White, 0);
    let first_score = player_material_score(&first, Color::White, 0);
    assert!(
        seventh_score > first_score,
        "7th rank rook EG score ({}) should exceed 1st rank ({})",
        seventh_score,
        first_score
    );
}

#[test]
fn test_board_material_score_white_advantage() {
    let board = diagram_board([
        "rnbqkbnr", "pppppppp", "........", "........", "........", "........", "PPPPPPPP", "RNBQKBNR",
    ]);
    assert_eq!(board_material_score(&board), 0);
}

#[test]
fn test_eval_includes_all_terms() {
    let board = diagram_board([
        "....k..r", "pp.p.ppp", "........", "...N....", "........", "..B.B...", "PP.P.PPP", "R...K..R",
    ]);
    let score = board_material_score(&board);
    assert!(score > 0, "White positional advantage should give positive score, got {}", score);
}
