//! The candidate moves that the notation has to tell a move apart from are
//! listed by hand: the moves of the same kind of piece onto the same square.
use chess::board::{Board, CastleRights};
use chess::chess_move::algebraic_notation::{
    algebraic_castle, chess_move_to_algebraic_notation, enumerate_candidate_moves_with_algebraic_notation,
    get_disambiguating_chars,
};
use chess::chess_move::capture::Capture;
use chess::chess_move::castle::CastleChessMove;
use chess::chess_move::chess_move::ChessMove;
use chess::chess_move::chess_move_effect::ChessMoveEffect;
use chess::chess_move::en_passant::EnPassantChessMove;
use chess::chess_move::pawn_promotion::PawnPromotionChessMove;
use chess::chess_move::standard::StandardChessMove;
use chess::piece::{Color, Piece};
use chess::square::Square;

fn notation_board(rows: [&str; 8]) -> Board {
    let mut board = Board::empty();
    for (i, row) in rows.iter().enumerate() {
        let rank = 7 - i as u8;
        for (file, c) in row.chars().enumerate() {
            let color = if c.is_ascii_uppercase() { Color::White } else { Color::Black };
            let piece = match c.to_ascii_lowercase() {
                'p' => Piece::Pawn,
                'n' => Piece::Knight,
                'b' => Piece::Bishop,
                'r' => Piece::Rook,
                'q' => Piece::Queen,
                'k' => Piece::King,
                _ => continue,
            };
            board.put(Square::from_index(rank * 8 + file as u8), piece, color).unwrap();
        }
    }
    board
}

fn with_effect(mut m: ChessMove, effect: ChessMoveEffect) -> ChessMove {
    m.set_effect(effect);
    m
}

fn sm(from: Square, to: Square, captures: Option<Piece>) -> ChessMove {
    with_effect(ChessMove::Standard(StandardChessMove::new(from, to, captures.map(Capture))), ChessMoveEffect::NoCheck)
}

fn notation(board: &Board, m: ChessMove, candidates: &Vec<ChessMove>) -> String {
    chess_move_to_algebraic_notation(&m, board, candidates).unwrap()
}

#[test]
fn test_algebraic_notation_for_basic_moves() {
    let mut board = Board::default();
    board.set_turn(Color::White);
    let white = vec![sm(Square::E2, Square::E4, None), sm(Square::G1, Square::F3, None), sm(Square::B1, Square::C3, None)];
    assert_eq!(notation(&board, white[0], &white), "e4");
    assert_eq!(notation(&board, white[1], &white), "Nf3");
    board.set_turn(Color::Black);
    let black = vec![sm(Square::E7, Square::E5, None), sm(Square::G8, Square::F6, None), sm(Square::B8, Square::C6, None)];
    assert_eq!(notation(&board, black[0], &black), "e5");
    assert_eq!(notation(&board, black[1], &black), "Nf6");
}

#[test]
fn test_algebraic_notation_for_pawn_captures() {
    let mut board = notation_board(["k.......", "........", "........", "........", "....p...", "...P....", "........", "K......."]);
    board.set_turn(Color::White);
    board.lose_castle_rights(CastleRights::all());
    let candidates = vec![sm(Square::D3, Square::E4, Some(Piece::Pawn)), sm(Square::D3, Square::D4, None)];
    assert_eq!(notation(&board, candidates[0], &candidates), "dxe4");
}

#[test]
fn test_algebraic_notation_for_castle_moves() {
    let mut board = notation_board(["r...k..r", "........", "........", "........", "........", "........", "........", "R...K..R"]);
    board.set_turn(Color::White);
    let kingside = with_effect(ChessMove::Castle(CastleChessMove::castle_kingside(Color::White)), ChessMoveEffect::NoCheck);
    let queenside = with_effect(ChessMove::Castle(CastleChessMove::castle_queenside(Color::White)), ChessMoveEffect::NoCheck);
    let candidates = vec![kingside, queenside];
    assert_eq!(notation(&board, kingside, &candidates), "O-O");
    assert_eq!(notation(&board, queenside, &candidates), "O-O-O");
    board.set_turn(Color::Black);
    let kingside = with_effect(ChessMove::Castle(CastleChessMove::castle_kingside(Color::Black)), ChessMoveEffect::NoCheck);
    let queenside = with_effect(ChessMove::Castle(CastleChessMove::castle_queenside(Color::Black)), ChessMoveEffect::NoCheck);
    let candidates = vec![kingside, queenside];
    assert_eq!(notation(&board, kingside, &candidates), "O-O");
    assert_eq!(notation(&board, queenside, &candidates), "O-O-O");
}

#[test]
fn test_algebraic_notation_for_castle_moves_with_check() {
    let mut board = notation_board(["...k....", "........", "........", "........", "........", "........", "........", "R...K..."]);
    board.set_turn(Color::White);
    board.lose_castle_rights(
        CastleRights::white_kingside().union(CastleRights::black_kingside()).union(CastleRights::black_queenside()),
    );
    let castle = with_effect(ChessMove::Castle(CastleChessMove::castle_queenside(Color::White)), ChessMoveEffect::Check);
    assert_eq!(notation(&board, castle, &vec![castle]), "O-O-O+");
}

#[test]
fn test_algebraic_notation_for_castle_moves_with_checkmate() {
    let mut board = notation_board(["..rkr...", "..p.p...", "........", "........", "........", "........", "........", "R...K..."]);
    board.set_turn(Color::White);
    board.lose_castle_rights(
        CastleRights::white_kingside().union(CastleRights::black_kingside()).union(CastleRights::black_queenside()),
    );
    let castle = with_effect(ChessMove::Castle(CastleChessMove::castle_queenside(Color::White)), ChessMoveEffect::Checkmate);
    assert_eq!(notation(&board, castle, &vec![castle]), "O-O-O#");
}

#[test]
fn test_algebraic_notation_for_captures() {
    let mut board = notation_board([".......k", "........", "...p....", "........", "..N.....", "........", ".b......", ".......K"]);
    board.set_turn(Color::White);
    board.lose_castle_rights(CastleRights::all());
    let candidates = vec![sm(Square::C4, Square::D6, Some(Piece::Pawn)), sm(Square::C4, Square::B2, Some(Piece::Bishop))];
    assert_eq!(notation(&board, candidates[0], &candidates), "Nxd6");
    assert_eq!(notation(&board, candidates[1], &candidates), "Nxb2");
}

#[test]
fn test_algebraic_notation_for_ambiguous_moves() {
    let mut board = notation_board([".....n.k", "...P....", ".....n..", "........", "........", ".....N..", "R....R..", "K....N.."]);
    board.set_turn(Color::White);
    board.lose_castle_rights(CastleRights::all());
    let white = vec![
        sm(Square::F1, Square::D2, None),
        sm(Square::F3, Square::D2, None),
        sm(Square::A2, Square::B2, None),
        sm(Square::F2, Square::B2, None),
    ];
    assert_eq!(notation(&board, white[0], &white), "N1d2");
    assert_eq!(notation(&board, white[1], &white), "N3d2");
    assert_eq!(notation(&board, white[2], &white), "Rab2");
    assert_eq!(notation(&board, white[3], &white), "Rfb2");
    board.set_turn(Color::Black);
    let black = vec![sm(Square::F8, Square::D7, Some(Piece::Pawn)), sm(Square::F6, Square::D7, Some(Piece::Pawn))];
    assert_eq!(notation(&board, black[0], &black), "N8xd7");
    assert_eq!(notation(&board, black[1], &black), "N6xd7");
}

#[test]
fn test_algebraic_notation_for_rare_ambiguous_moves() {
    let mut board = notation_board([".......k", "........", "........", "........", "........", ".N...N..", "........", "KN...N.."]);
    board.set_turn(Color::White);
    board.lose_castle_rights(CastleRights::all());
    let candidates = vec![
        sm(Square::F1, Square::D2, None),
        sm(Square::F3, Square::D2, None),
        sm(Square::B1, Square::D2, None),
        sm(Square::B3, Square::D2, None),
    ];
    assert_eq!(notation(&board, candidates[0], &candidates), "Nf1d2");
    assert_eq!(notation(&board, candidates[1], &candidates), "Nf3d2");
}

#[test]
fn test_algebraic_notation_for_en_passant() {
    let mut board = notation_board(["k.......", "........", "........", "........", "..p.p...", "........", "...P....", "K......."]);
    board.set_turn(Color::White);
    board.lose_castle_rights(CastleRights::all());
    let exposes_en_passant = sm(Square::D2, Square::D4, None);
    exposes_en_passant.apply(&mut board).unwrap();
    board.toggle_turn();
    let candidates = vec![
        with_effect(ChessMove::EnPassant(EnPassantChessMove::new(Square::C4, Square::D3)), ChessMoveEffect::NoCheck),
        with_effect(ChessMove::EnPassant(EnPassantChessMove::new(Square::E4, Square::D3)), ChessMoveEffect::NoCheck),
    ];
    assert_eq!(notation(&board, candidates[0], &candidates), "cxd3");
    assert_eq!(notation(&board, candidates[1], &candidates), "exd3");
}

fn promo(from: Square, to: Square, captures: Option<Piece>, piece: Piece, effect: ChessMoveEffect) -> ChessMove {
    with_effect(ChessMove::PawnPromotion(PawnPromotionChessMove::new(from, to, captures.map(Capture), piece)), effect)
}

#[test]
fn test_algebraic_notation_for_promotion() {
    let mut board = notation_board(["........", "..P.....", "........", ".......k", "........", "........", "........", "K......."]);
    board.set_turn(Color::White);
    board.lose_castle_rights(CastleRights::all());
    let m = promo(Square::C7, Square::C8, None, Piece::Queen, ChessMoveEffect::NoCheck);
    assert_eq!(notation(&board, m, &vec![m]), "c8=Q");
}

#[test]
fn test_algebraic_notation_for_promotion_with_check() {
    let mut board = notation_board([".......k", "..P.....", "........", "........", "........", "........", "........", "K......."]);
    board.set_turn(Color::White);
    board.lose_castle_rights(CastleRights::all());
    let m = promo(Square::C7, Square::C8, None, Piece::Queen, ChessMoveEffect::Check);
    assert_eq!(notation(&board, m, &vec![m]), "c8=Q+");
}

#[test]
fn test_algebraic_notation_for_promotion_with_check_and_capture() {
    let mut board = notation_board(["...r...k", "..P.....", "........", "........", "........", "........", "........", "K......."]);
    board.set_turn(Color::White);
    board.lose_castle_rights(CastleRights::all());
    let m = promo(Square::C7, Square::D8, Some(Piece::Rook), Piece::Queen, ChessMoveEffect::Check);
    assert_eq!(notation(&board, m, &vec![m]), "cxd8=Q+");
}

#[test]
fn test_algebraic_notation_for_discovered_check() {
    let mut board = notation_board(["........", "........", "........", "........", "..RP...k", "........", "........", "........"]);
    board.set_turn(Color::White);
    board.lose_castle_rights(CastleRights::all());
    let m = with_effect(sm(Square::D4, Square::D5, None), ChessMoveEffect::Check);
    assert_eq!(notation(&board, m, &vec![m]), "d5+");
}

#[test]
fn test_algebraic_notation_for_discovered_check_with_capture() {
    let mut board = notation_board(["........", "........", "........", "....p...", "..RP...k", "........", "........", "........"]);
    board.set_turn(Color::White);
    board.lose_castle_rights(CastleRights::all());
    let m = with_effect(sm(Square::D4, Square::E5, Some(Piece::Pawn)), ChessMoveEffect::Check);
    assert_eq!(notation(&board, m, &vec![m]), "dxe5+");
}

#[test]
fn test_algebraic_notation_for_multiple_queen_endgame() {
    let mut board = notation_board([".......k", "QQ......", "........", "........", "........", "........", "........", "........"]);
    board.set_turn(Color::White);
    board.lose_castle_rights(CastleRights::all());
    let mate = ChessMoveEffect::Checkmate;
    let candidates = vec![
        with_effect(sm(Square::A7, Square::A8, None), mate),
        with_effect(sm(Square::A7, Square::B8, None), mate),
        with_effect(sm(Square::B7, Square::B8, None), mate),
        with_effect(sm(Square::B7, Square::A8, None), mate),
        with_effect(sm(Square::B7, Square::H7, None), mate),
    ];
    assert_eq!(notation(&board, candidates[0], &candidates), "Qaa8#");
    assert_eq!(notation(&board, candidates[1], &candidates), "Qab8#");
    assert_eq!(notation(&board, candidates[2], &candidates), "Qbb8#");
    assert_eq!(notation(&board, candidates[3], &candidates), "Qba8#");
    assert_eq!(notation(&board, candidates[4], &candidates), "Qh7#");
}

#[test]
fn enumerates_every_candidate_with_its_notation() {
    let board = Board::default();
    let candidates = vec![sm(Square::E2, Square::E4, None), sm(Square::G1, Square::F3, None)];
    let listed = enumerate_candidate_moves_with_algebraic_notation(&board, &candidates);
    assert_eq!(listed.len(), 2);
    assert_eq!(listed[0].0, candidates[0]);
    assert_eq!(listed[0].1, "e4");
    assert_eq!(listed[1].1, "Nf3");
}

#[test]
fn castle_and_disambiguation_texts() {
    assert_eq!(algebraic_castle(&CastleChessMove::castle_kingside(Color::Black)), "O-O");
    assert_eq!(algebraic_castle(&CastleChessMove::castle_queenside(Color::White)), "O-O-O");
    let m = sm(Square::F1, Square::D2, None);
    let same_file = vec![sm(Square::F3, Square::D2, None)];
    assert_eq!(get_disambiguating_chars(Piece::Knight, &m, &same_file), "1");
    assert_eq!(get_disambiguating_chars(Piece::Knight, &m, &Vec::new()), "");
}

#[test]
fn knights_on_different_files_and_ranks_name_their_file() {
    let mut board = notation_board([".......k", "........", "........", "........", "........", ".....N..", "........", "KN......"]);
    board.set_turn(Color::White);
    board.lose_castle_rights(CastleRights::all());
    let candidates = vec![sm(Square::B1, Square::D2, None), sm(Square::F3, Square::D2, None)];
    assert_eq!(notation(&board, candidates[0], &candidates), "Nbd2");
    assert_eq!(notation(&board, candidates[1], &candidates), "Nfd2");
    let m = sm(Square::B1, Square::D2, None);
    assert_eq!(get_disambiguating_chars(Piece::Knight, &m, &vec![sm(Square::F3, Square::D2, None)]), "b");
}
