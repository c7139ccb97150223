use chess::chess_search::history_table::HistoryTable;
use chess::square::Square;

#[test]
fn test_history_recording() {
    let mut history = HistoryTable::new();
    let from = Square::E2;
    let to = Square::E4;

    assert_eq!(history.score(from, to), 0);

    history.record_cutoff(from, to, 3);
    assert!(history.score(from, to) > 0);

    let score1 = history.score(from, to);
    history.record_cutoff(from, to, 4);
    let score2 = history.score(from, to);
    assert!(score2 > score1);
}

#[test]
fn test_history_aging() {
    let mut history = HistoryTable::new();
    let from = Square::E2;
    let to = Square::E4;

    history.record_cutoff(from, to, 5);
    let score_before = history.score(from, to);
    assert!(score_before > 0);

    history.age();
    let score_after = history.score(from, to);
    assert_eq!(score_after, score_before / 2);
}

#[test]
fn test_history_clear() {
    let mut history = HistoryTable::new();
    let from = Square::E2;
    let to = Square::E4;

    history.record_cutoff(from, to, 3);
    assert!(history.score(from, to) > 0);

    history.clear();
    assert_eq!(history.score(from, to), 0);
}

#[test]
fn test_history_different_moves() {
    let mut history = HistoryTable::new();

    history.record_cutoff(Square::E2, Square::E4, 3);
    history.record_cutoff(Square::D2, Square::D4, 4);

    assert!(history.score(Square::E2, Square::E4) > 0);
    assert!(history.score(Square::D2, Square::D4) > 0);
    // Depth 4 gives higher bonus than depth 3 (25 vs 16)
    assert!(history.score(Square::D2, Square::D4) > history.score(Square::E2, Square::E4));
}

#[test]
fn test_history_exact_bonus_and_isolation() {
    let mut history = HistoryTable::default();
    history.record_cutoff(Square::E2, Square::E4, 3);
    assert_eq!(history.score(Square::E2, Square::E4), 16);
    assert_eq!(history.score(Square::E4, Square::E2), 0);
    history.record_cutoff(Square::E2, Square::E4, 0);
    assert_eq!(history.score(Square::E2, Square::E4), 17);
    history.age();
    assert_eq!(history.score(Square::E2, Square::E4), 8);
}

#[test]
fn test_history_counter_wraps_around() {
    let mut history = HistoryTable::new();
    // 65536 per cutoff at depth 255; 65536 * 65536 == 2^32 wraps to zero.
    for _ in 0..65536u32 {
        history.record_cutoff(Square::A1, Square::H8, 255);
    }
    assert_eq!(history.score(Square::A1, Square::H8), 0);
}
