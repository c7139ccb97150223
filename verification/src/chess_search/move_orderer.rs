//! Move ordering for the alpha-beta search: captures first, best victim and
//! cheapest attacker first (MVV-LVA), then promotions, then quiet moves by
//! their history score and by the kind of piece that moves.
use vstd::prelude::*;
use core::cmp::Ordering;

use crate::board::{Board, BoardModel};
use crate::chess_move::chess_move::ChessMove;
use crate::evaluate::evaluation_tables::MATERIAL_VALUES;
use crate::piece::{spec_piece_index, Piece};
use crate::square::Square;

use super::history_table::{history_slot, HistoryTable};

verus! {

/// The counter a history table holds for the move `from -> to`.
pub open spec fn history_score_of(history: Seq<u32>, from: Square, to: Square) -> u32 {
    history[history_slot(from, to)]
}

/// The history score of the move `from -> to`.
pub fn get_history_score(history: &HistoryTable, from: Square, to: Square) -> (r: u32)
    requires
        history.wf(),
    ensures
        r == history_score_of(history@, from, to),
{
    history.score(from, to)
}

/// Records a history cutoff for a quiet move.
pub fn record_history_cutoff(history: &mut HistoryTable, from: Square, to: Square, depth: u8)
    requires
        old(history).wf(),
    ensures
        final(history).wf(),
        final(history)@ == old(history)@.update(
            history_slot(from, to),
            super::history_table::counter_after_cutoff(old(history)@[history_slot(from, to)], depth),
        ),
        final(history).spec_score(from, to) == super::history_table::counter_after_cutoff(
            old(history).spec_score(from, to),
            depth,
        ),
        forall|f: Square, t: Square|
            (f != from || t != to) ==> #[trigger] final(history).spec_score(f, t) == old(history).spec_score(f, t),
{
    history.record_cutoff(from, to, depth);
}

/// Clears the history table.
pub fn clear_history(history: &mut HistoryTable)
    requires
        old(history).wf(),
    ensures
        final(history).wf(),
        final(history)@ == Seq::new(super::history_table::HISTORY_SIZE as nat, |i: int| 0u32),
{
    history.clear();
}

/// The kind of piece a move moves: for a standard move the piece on its square
/// of departure, a pawn for promotions and en passant, the king for castling.
pub open spec fn moved_piece_type(mv: ChessMove, m: BoardModel) -> Option<Piece> {
    match mv {
        ChessMove::Standard(s) => match m.piece_at(s.spec_from_square().spec_index() as int) {
            Some((piece, _)) => Some(piece),
            None => None,
        },
        ChessMove::PawnPromotion(_) => Some(Piece::Pawn),
        ChessMove::EnPassant(_) => Some(Piece::Pawn),
        ChessMove::Castle(_) => Some(Piece::King),
    }
}

/// The material value of a piece kind, or 0 for none.
pub open spec fn value_of(piece: Option<Piece>) -> int {
    match piece {
        Some(p) => MATERIAL_VALUES[spec_piece_index(p) as int] as int,
        None => 0,
    }
}

/// The MVV-LVA score of a move: ten times the value of what it captures, minus
/// the value of the piece that captures.
pub open spec fn spec_mvv_lva_score(mv: ChessMove, m: BoardModel) -> int {
    let victim = match mv.spec_captures() {
        Some(c) => value_of(Some(c.0)),
        None => 0,
    };
    victim * 10 - value_of(moved_piece_type(mv, m))
}

/// The order of quiet moves by the kind of piece: rooks, knights, bishops,
/// pawns, then everything else.
pub open spec fn piece_priority(piece: Option<Piece>) -> int {
    match piece {
        Some(Piece::Rook) => 0,
        Some(Piece::Knight) => 1,
        Some(Piece::Bishop) => 2,
        Some(Piece::Pawn) => 3,
        _ => 4,
    }
}

/// The place of a move in the search order (lower comes first): captures by
/// falling MVV-LVA score, then promotions, then quiet moves by falling history
/// score and then by piece priority.
pub open spec fn order_key(mv: ChessMove, m: BoardModel, history: Seq<u32>) -> int {
    if mv.spec_captures() is Some {
        -spec_mvv_lva_score(mv, m)
    } else if mv is PawnPromotion {
        0x10_0000_0000
    } else {
        0x20_0000_0000 + 8 * (0x1_0000_0000 - history_score_of(history, mv.spec_from_square(), mv.spec_to_square()))
            + piece_priority(moved_piece_type(mv, m))
    }
}

/// How two keys compare.
pub open spec fn key_ordering(x: int, y: int) -> Ordering {
    if x < y {
        Ordering::Less
    } else if x == y {
        Ordering::Equal
    } else {
        Ordering::Greater
    }
}

/// Whether a move captures.
pub fn is_capture(chess_move: &ChessMove) -> (r: bool)
    ensures
        r == chess_move.spec_captures() is Some,
{
    chess_move.captures().is_some()
}

/// The kind of piece a move moves.
pub fn get_piece_type(chess_move: &ChessMove, board: &Board) -> (r: Option<Piece>)
    ensures
        r == moved_piece_type(*chess_move, board@),
{
    match chess_move {
        ChessMove::Standard(m) => match board.get(m.from_square()) {
            Some((piece, _)) => Some(piece),
            None => None,
        },
        ChessMove::PawnPromotion(_) => Some(Piece::Pawn),
        ChessMove::EnPassant(_) => Some(Piece::Pawn),
        ChessMove::Castle(_) => Some(Piece::King),
    }
}

/// MVV-LVA (Most Valuable Victim - Least Valuable Attacker) scoring: higher is
/// a better capture, as in a pawn taking a queen.
pub fn mvv_lva_score(chess_move: &ChessMove, board: &Board) -> (r: i32)
    ensures
        r == spec_mvv_lva_score(*chess_move, board@),
{
    let victim_value: i32 = match chess_move.captures() {
        Some(capture) => MATERIAL_VALUES[capture.0.index()] as i32,
        None => 0,
    };
    let attacker_value: i32 = match get_piece_type(chess_move, board) {
        Some(piece) => MATERIAL_VALUES[piece.index()] as i32,
        None => 0,
    };
    victim_value * 10 - attacker_value
}

/// Orders quiet moves by the kind of piece that moves.
pub fn compare_piece_types(a: Option<Piece>, b: Option<Piece>) -> (r: Ordering)
    ensures
        r == key_ordering(piece_priority(a), piece_priority(b)),
{
    let pa = priority(a);
    let pb = priority(b);
    if pa < pb {
        Ordering::Less
    } else if pa == pb {
        Ordering::Equal
    } else {
        Ordering::Greater
    }
}

fn priority(piece: Option<Piece>) -> (r: u8)
    ensures
        r == piece_priority(piece),
{
    match piece {
        Some(Piece::Rook) => 0,
        Some(Piece::Knight) => 1,
        Some(Piece::Bishop) => 2,
        Some(Piece::Pawn) => 3,
        _ => 4,
    }
}

/// Orders two moves that are not captures: promotions first, then by history
/// score (higher first), then by piece priority.
pub fn compare_move_types(a: &ChessMove, b: &ChessMove, board: &Board, history: &HistoryTable) -> (r: Ordering)
    requires
        history.wf(),
        a.spec_captures() is None,
        b.spec_captures() is None,
    ensures
        r == key_ordering(order_key(*a, board@, history@), order_key(*b, board@, history@)),
{
    match (a, b) {
        (ChessMove::PawnPromotion(_), ChessMove::PawnPromotion(_)) => Ordering::Equal,
        (ChessMove::PawnPromotion(_), _) => Ordering::Less,
        (_, ChessMove::PawnPromotion(_)) => Ordering::Greater,
        _ => {
            // Quiet moves: a higher history score comes first.
            let history_a = get_history_score(history, a.from_square(), a.to_square());
            let history_b = get_history_score(history, b.from_square(), b.to_square());
            if history_a == history_b {
                compare_piece_types(get_piece_type(a, board), get_piece_type(b, board))
            } else if history_a > history_b {
                Ordering::Less
            } else {
                Ordering::Greater
            }
        },
    }
}

/// Orders two moves for the search: captures first (by MVV-LVA, best first),
/// then the other moves as `compare_move_types` orders them.
pub fn compare_moves(a: &ChessMove, b: &ChessMove, board: &Board, history: &HistoryTable) -> (r: Ordering)
    requires
        history.wf(),
    ensures
        r == key_ordering(order_key(*a, board@, history@), order_key(*b, board@, history@)),
{
    match (is_capture(a), is_capture(b)) {
        (true, true) => {
            // Both captures: the higher score comes first.
            let score_a = mvv_lva_score(a, board);
            let score_b = mvv_lva_score(b, board);
            if score_b < score_a {
                Ordering::Less
            } else if score_b == score_a {
                Ordering::Equal
            } else {
                Ordering::Greater
            }
        },
        (true, false) => {
            proof {
                assert(MATERIAL_VALUES[0] == 100 && MATERIAL_VALUES[5] == 20000);
            }
            Ordering::Less
        },
        (false, true) => Ordering::Greater,
        (false, false) => compare_move_types(a, b, board, history),
    }
}


/// Whether `a` comes strictly before `b` in the search order.
pub fn comes_before(a: &ChessMove, b: &ChessMove, board: &Board, history: &HistoryTable) -> (r: bool)
    requires
        history.wf(),
    ensures
        r == (order_key(*a, board@, history@) < order_key(*b, board@, history@)),
{
    match compare_moves(a, b, board, history) {
        Ordering::Less => true,
        _ => false,
    }
}

/// Whether the keys of `moves` do not fall anywhere in `lo .. hi`.
pub open spec fn sorted_by_key(moves: Seq<ChessMove>, m: BoardModel, history: Seq<u32>, lo: int, hi: int) -> bool {
    forall|i: int, j: int|
        lo <= i < j < hi ==> order_key(#[trigger] moves[i], m, history) <= order_key(#[trigger] moves[j], m, history)
}

/// `moves` holds the entries of `before`, entry `k` coming from place `perm[k]`,
/// every place used once.
pub open spec fn rearranged(before: Seq<ChessMove>, moves: Seq<ChessMove>, perm: Seq<int>) -> bool {
    &&& perm.len() == moves.len()
    &&& moves.len() == before.len()
    &&& forall|k: int| 0 <= k < moves.len() ==> 0 <= #[trigger] perm[k] < moves.len() && moves[k] == before[perm[k]]
    &&& forall|p: int, q: int| 0 <= p < q < moves.len() ==> #[trigger] perm[p] != #[trigger] perm[q]
}

/// Among the first `n` entries, moves with equal keys keep the order they had.
pub open spec fn keeps_ties_in_order(moves: Seq<ChessMove>, perm: Seq<int>, m: BoardModel, history: Seq<u32>, n: int) -> bool {
    forall|p: int, q: int|
        0 <= p < q < n && order_key(moves[p], m, history) == order_key(moves[q], m, history) ==> #[trigger] perm[p]
            < #[trigger] perm[q]
}

/// Exchanging two entries keeps the same moves.
proof fn lemma_swap_multiset(s: Seq<ChessMove>, i: int, j: int)
    requires
        0 <= i < s.len(),
        0 <= j < s.len(),
    ensures
        s.update(i, s[j]).update(j, s[i]).to_multiset() == s.to_multiset(),
{
    broadcast use vstd::seq_lib::group_to_multiset_ensures;
    broadcast use vstd::multiset::group_multiset_axioms;
    if i == j {
        assert(s.update(i, s[j]).update(j, s[i]) =~= s);
    } else {
        let s1 = s.update(i, s[j]);
        vstd::seq_lib::to_multiset_update(s, i, s[j]);
        vstd::seq_lib::to_multiset_update(s1, j, s[i]);
        assert(s.contains(s[i]));
        assert(s.contains(s[j]));
        assert(s1[j] == s[j]);
        let ms = s.to_multiset();
        assert(ms.count(s[i]) > 0);
        assert(ms.count(s[j]) > 0);
        assert(ms.insert(s[j]).remove(s[i]).insert(s[i]).remove(s[j]) =~= ms);
    }
}

/// Whether a move is tactical: a capture (en passant included) or a
/// promotion. A quiet move is not, even when it gives check.
pub open spec fn spec_is_tactical(mv: ChessMove) -> bool {
    ||| mv.spec_captures() is Some
    ||| mv is PawnPromotion
}

impl ChessMove {
    /// Whether the move is tactical: a capture or a promotion.
    pub fn is_tactical(&self, board: &Board) -> (r: bool)
        ensures
            r == spec_is_tactical(*self),
    {
        let promotes = match self {
            ChessMove::PawnPromotion(_) => true,
            _ => false,
        };
        self.captures().is_some() || promotes
    }
}

/// Chess move orderer: captures by MVV-LVA, then promotions, then quiet moves
/// by history score, then by the kind of piece that moves.
#[derive(Clone, Copy, Debug, Default)]
pub struct ChessMoveOrderer;

impl ChessMoveOrderer {
    /// Sorts the moves by `compare_moves`, keeping moves that compare equal in
    /// their order (a stable insertion sort).
    pub fn order_moves(&self, moves: &mut Vec<ChessMove>, board: &Board, history: &HistoryTable)
        requires
            history.wf(),
        ensures
            final(moves)@.len() == old(moves)@.len(),
            final(moves)@.to_multiset() == old(moves)@.to_multiset(),
            sorted_by_key(final(moves)@, board@, history@, 0, final(moves)@.len() as int),
            exists|perm: Seq<int>|
                {
                    &&& rearranged(old(moves)@, final(moves)@, perm)
                    &&& keeps_ties_in_order(final(moves)@, perm, board@, history@, final(moves)@.len() as int)
                },
    {
        let n = moves.len();
        let ghost mut perm: Seq<int> = Seq::new(n as nat, |k: int| k);
        let mut i: usize = 1;
        while i < n
            invariant
                history.wf(),
                n == moves.len(),
                1 <= i || n == 0,
                i <= n || n == 0,
                moves@.to_multiset() == old(moves)@.to_multiset(),
                sorted_by_key(moves@, board@, history@, 0, if i <= n { i as int } else { n as int }),
                rearranged(old(moves)@, moves@, perm),
                forall|k: int| i <= k < n ==> #[trigger] perm[k] == k,
                forall|k: int| 0 <= k < i && k < n ==> #[trigger] perm[k] < i,
                keeps_ties_in_order(moves@, perm, board@, history@, if i <= n { i as int } else { n as int }),
            decreases n - i,
        {
            let mut j: usize = i;
            while j > 0 && comes_before(&moves[j], &moves[j - 1], board, history)
                invariant
                    history.wf(),
                    n == moves.len(),
                    0 <= j <= i < n,
                    moves@.to_multiset() == old(moves)@.to_multiset(),
                    sorted_by_key(moves@, board@, history@, 0, j as int),
                    sorted_by_key(moves@, board@, history@, j as int + 1, i as int + 1),
                    j < i ==> forall|k: int|
                        0 <= k < j ==> order_key(#[trigger] moves@[k], board@, history@) <= order_key(
                            moves@[j as int + 1],
                            board@,
                            history@,
                        ),
                    forall|k: int|
                        j < k <= i ==> order_key(moves@[j as int], board@, history@) < order_key(
                            #[trigger] moves@[k],
                            board@,
                            history@,
                        ),
                    rearranged(old(moves)@, moves@, perm),
                    forall|k: int| i < k < n ==> #[trigger] perm[k] == k,
                    perm[j as int] == i,
                    forall|k: int| 0 <= k <= i && k != j ==> #[trigger] perm[k] < i,
                    keeps_ties_in_order(moves@, perm, board@, history@, i as int + 1),
                decreases j,
            {
                let a = moves[j - 1];
                let b = moves[j];
                proof { lemma_swap_multiset(moves@, j as int - 1, j as int); }
                let ghost before = moves@;
                moves.set(j - 1, b);
                moves.set(j, a);
                proof {
                    let old_perm = perm;
                    perm = perm.update(j as int - 1, old_perm[j as int]).update(j as int, old_perm[j as int - 1]);
                    assert forall|p: int, q: int| 0 <= p < q < n implies #[trigger] perm[p] != #[trigger] perm[q] by {
                        let pp = if p == j - 1 { j as int } else if p == j { j as int - 1 } else { p };
                        let qq = if q == j - 1 { j as int } else if q == j { j as int - 1 } else { q };
                        assert(perm[p] == old_perm[pp]);
                        assert(perm[q] == old_perm[qq]);
                        if pp < qq {
                            assert(old_perm[pp] != old_perm[qq]);
                        } else {
                            assert(old_perm[qq] != old_perm[pp]);
                        }
                    }
                    assert forall|p: int, q: int|
                        0 <= p < q < i + 1 && order_key(moves@[p], board@, history@) == order_key(
                            moves@[q],
                            board@,
                            history@,
                        ) implies #[trigger] perm[p] < #[trigger] perm[q] by {
                        let pp = if p == j - 1 { j as int } else if p == j { j as int - 1 } else { p };
                        let qq = if q == j - 1 { j as int } else if q == j { j as int - 1 } else { q };
                        assert(moves@[p] == before[pp]);
                        assert(moves@[q] == before[qq]);
                        if p == j - 1 && q == j {
                            assert(false);
                        } else if p == j - 1 {
                            assert(order_key(before[j as int], board@, history@) < order_key(before[q], board@, history@));
                            assert(false);
                        } else if q == j - 1 {
                            assert(old_perm[qq] == i);
                        } else {
                            assert(pp < qq);
                            assert(old_perm[pp] < old_perm[qq]);
                        }
                    }
                }
                j = j - 1;
            }
            i = i + 1;
        }
    }

    /// Brings the first of the best moves at or after `index` to `index`, by
    /// exchanging it with the move there.
    pub fn pick_next(&self, moves: &mut Vec<ChessMove>, index: usize, board: &Board, history: &HistoryTable)
        requires
            history.wf(),
        ensures
            index + 1 >= old(moves)@.len() ==> final(moves)@ == old(moves)@,
            index + 1 < old(moves)@.len() ==> exists|best: int|
                {
                    &&& index <= best < old(moves)@.len()
                    &&& forall|k: int|
                        index <= k < old(moves)@.len() ==> order_key(old(moves)@[best], board@, history@)
                            <= order_key(#[trigger] old(moves)@[k], board@, history@)
                    &&& forall|k: int|
                        index <= k < best ==> order_key(old(moves)@[best], board@, history@) < order_key(
                            #[trigger] old(moves)@[k],
                            board@,
                            history@,
                        )
                    &&& final(moves)@ == old(moves)@.update(index as int, old(moves)@[best]).update(
                        best,
                        old(moves)@[index as int],
                    )
                },
    {
        if moves.len() == 0 || index >= moves.len() - 1 {
            return;
        }
        let mut best_idx: usize = index;
        let mut i: usize = index + 1;
        while i < moves.len()
            invariant
                history.wf(),
                index < best_idx + 1,
                best_idx < i <= moves.len(),
                index + 1 <= i,
                moves@ == old(moves)@,
                forall|k: int|
                    index <= k < i ==> order_key(moves@[best_idx as int], board@, history@) <= order_key(
                        #[trigger] moves@[k],
                        board@,
                        history@,
                    ),
                forall|k: int|
                    index <= k < best_idx ==> order_key(moves@[best_idx as int], board@, history@) < order_key(
                        #[trigger] moves@[k],
                        board@,
                        history@,
                    ),
            decreases moves.len() - i,
        {
            if comes_before(&moves[i], &moves[best_idx], board, history) {
                best_idx = i;
            }
            i = i + 1;
        }
        let ghost best = best_idx as int;
        if best_idx != index {
            let a = moves[index];
            let b = moves[best_idx];
            moves.set(index, b);
            moves.set(best_idx, a);
        }
        proof {
            assert(moves@ =~= old(moves)@.update(index as int, old(moves)@[best]).update(best, old(moves)@[index as int]));
        }
    }

    /// Records a history cutoff for a quiet (not tactical) move.
    pub fn record_cutoff(&self, mv: &ChessMove, board: &Board, depth: u8, history: &mut HistoryTable)
        requires
            old(history).wf(),
        ensures
            final(history).wf(),
            spec_is_tactical(*mv) ==> final(history)@ == old(history)@,
            !spec_is_tactical(*mv) ==> final(history)@ == old(history)@.update(
                history_slot(mv.spec_from_square(), mv.spec_to_square()),
                super::history_table::counter_after_cutoff(
                    old(history)@[history_slot(mv.spec_from_square(), mv.spec_to_square())],
                    depth,
                ),
            ),
    {
        // Tactical moves are ordered first anyway.
        if !mv.is_tactical(board) {
            record_history_cutoff(history, mv.from_square(), mv.to_square(), depth);
        }
    }
}


/// The first move of any sorted arrangement of a list of moves is as good as
/// every move of the list.
pub proof fn lemma_sorted_first_is_best(moves: Seq<ChessMove>, sorted: Seq<ChessMove>, m: BoardModel, history: Seq<u32>)
    requires
        sorted.len() > 0,
        sorted.to_multiset() == moves.to_multiset(),
        sorted_by_key(sorted, m, history, 0, sorted.len() as int),
    ensures
        forall|j: int| 0 <= j < moves.len() ==> order_key(sorted[0], m, history) <= order_key(#[trigger] moves[j], m, history),
        moves.contains(sorted[0]),
{
    broadcast use vstd::seq_lib::group_to_multiset_ensures;
    assert forall|j: int| 0 <= j < moves.len() implies order_key(sorted[0], m, history) <= order_key(
        #[trigger] moves[j],
        m,
        history,
    ) by {
        assert(moves.contains(moves[j]));
        assert(moves.to_multiset().count(moves[j]) > 0);
        assert(sorted.to_multiset().count(moves[j]) > 0);
        assert(sorted.contains(moves[j]));
        let i = choose|i: int| 0 <= i < sorted.len() && sorted[i] == moves[j];
        if i > 0 {
            assert(order_key(sorted[0], m, history) <= order_key(sorted[i], m, history));
        }
    }
    assert(sorted.contains(sorted[0]));
    assert(sorted.to_multiset().count(sorted[0]) > 0);
    assert(moves.to_multiset().count(sorted[0]) > 0);
}

/// The move `pick_next` brings to the front is exactly as good as the first
/// move of the fully sorted list.
pub proof fn lemma_pick_next_agrees_with_sort(
    moves: Seq<ChessMove>,
    sorted: Seq<ChessMove>,
    chosen: ChessMove,
    m: BoardModel,
    history: Seq<u32>,
)
    requires
        sorted.len() > 0,
        sorted.to_multiset() == moves.to_multiset(),
        sorted_by_key(sorted, m, history, 0, sorted.len() as int),
        moves.contains(chosen),
        forall|j: int| 0 <= j < moves.len() ==> order_key(chosen, m, history) <= order_key(#[trigger] moves[j], m, history),
    ensures
        order_key(chosen, m, history) == order_key(sorted[0], m, history),
{
    lemma_sorted_first_is_best(moves, sorted, m, history);
    let i = choose|i: int| 0 <= i < moves.len() && moves[i] == chosen;
    let k = choose|k: int| 0 <= k < moves.len() && moves[k] == sorted[0];
    assert(order_key(chosen, m, history) <= order_key(moves[k], m, history));
    assert(order_key(sorted[0], m, history) <= order_key(moves[i], m, history));
}

} // verus!
