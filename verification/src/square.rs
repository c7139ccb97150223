use vstd::prelude::*;
use vstd::string::StringExecFns;

verus! {
/// A square of the chess board. Squares are numbered rank-major from A1 (0)
/// to H8 (63), so that `index == rank * 8 + file`.
#[derive(Clone, Copy, Debug, PartialEq, Eq, Structural)]
pub enum Square {
    A1, B1, C1, D1, E1, F1, G1, H1,
    A2, B2, C2, D2, E2, F2, G2, H2,
    A3, B3, C3, D3, E3, F3, G3, H3,
    A4, B4, C4, D4, E4, F4, G4, H4,
    A5, B5, C5, D5, E5, F5, G5, H5,
    A6, B6, C6, D6, E6, F6, G6, H6,
    A7, B7, C7, D7, E7, F7, G7, H7,
    A8, B8, C8, D8, E8, F8, G8, H8,
}

impl Square {
    /// The index of the square, `rank * 8 + file`.
    pub open spec fn spec_index(self) -> nat {
        match self {
            Square::A1 => 0,
            Square::B1 => 1,
            Square::C1 => 2,
            Square::D1 => 3,
            Square::E1 => 4,
            Square::F1 => 5,
            Square::G1 => 6,
            Square::H1 => 7,
            Square::A2 => 8,
            Square::B2 => 9,
            Square::C2 => 10,
            Square::D2 => 11,
            Square::E2 => 12,
            Square::F2 => 13,
            Square::G2 => 14,
            Square::H2 => 15,
            Square::A3 => 16,
            Square::B3 => 17,
            Square::C3 => 18,
            Square::D3 => 19,
            Square::E3 => 20,
            Square::F3 => 21,
            Square::G3 => 22,
            Square::H3 => 23,
            Square::A4 => 24,
            Square::B4 => 25,
            Square::C4 => 26,
            Square::D4 => 27,
            Square::E4 => 28,
            Square::F4 => 29,
            Square::G4 => 30,
            Square::H4 => 31,
            Square::A5 => 32,
            Square::B5 => 33,
            Square::C5 => 34,
            Square::D5 => 35,
            Square::E5 => 36,
            Square::F5 => 37,
            Square::G5 => 38,
            Square::H5 => 39,
            Square::A6 => 40,
            Square::B6 => 41,
            Square::C6 => 42,
            Square::D6 => 43,
            Square::E6 => 44,
            Square::F6 => 45,
            Square::G6 => 46,
            Square::H6 => 47,
            Square::A7 => 48,
            Square::B7 => 49,
            Square::C7 => 50,
            Square::D7 => 51,
            Square::E7 => 52,
            Square::F7 => 53,
            Square::G7 => 54,
            Square::H7 => 55,
            Square::A8 => 56,
            Square::B8 => 57,
            Square::C8 => 58,
            Square::D8 => 59,
            Square::E8 => 60,
            Square::F8 => 61,
            Square::G8 => 62,
            Square::H8 => 63,
        }
    }

    /// Returns the index of the square, `rank * 8 + file`.
    pub fn index(&self) -> (r: u8)
        ensures
            r == self.spec_index(),
            r < 64,
    {
        match self {
            Square::A1 => 0,
            Square::B1 => 1,
            Square::C1 => 2,
            Square::D1 => 3,
            Square::E1 => 4,
            Square::F1 => 5,
            Square::G1 => 6,
            Square::H1 => 7,
            Square::A2 => 8,
            Square::B2 => 9,
            Square::C2 => 10,
            Square::D2 => 11,
            Square::E2 => 12,
            Square::F2 => 13,
            Square::G2 => 14,
            Square::H2 => 15,
            Square::A3 => 16,
            Square::B3 => 17,
            Square::C3 => 18,
            Square::D3 => 19,
            Square::E3 => 20,
            Square::F3 => 21,
            Square::G3 => 22,
            Square::H3 => 23,
            Square::A4 => 24,
            Square::B4 => 25,
            Square::C4 => 26,
            Square::D4 => 27,
            Square::E4 => 28,
            Square::F4 => 29,
            Square::G4 => 30,
            Square::H4 => 31,
            Square::A5 => 32,
            Square::B5 => 33,
            Square::C5 => 34,
            Square::D5 => 35,
            Square::E5 => 36,
            Square::F5 => 37,
            Square::G5 => 38,
            Square::H5 => 39,
            Square::A6 => 40,
            Square::B6 => 41,
            Square::C6 => 42,
            Square::D6 => 43,
            Square::E6 => 44,
            Square::F6 => 45,
            Square::G6 => 46,
            Square::H6 => 47,
            Square::A7 => 48,
            Square::B7 => 49,
            Square::C7 => 50,
            Square::D7 => 51,
            Square::E7 => 52,
            Square::F7 => 53,
            Square::G7 => 54,
            Square::H7 => 55,
            Square::A8 => 56,
            Square::B8 => 57,
            Square::C8 => 58,
            Square::D8 => 59,
            Square::E8 => 60,
            Square::F8 => 61,
            Square::G8 => 62,
            Square::H8 => 63,
        }
    }

    /// The square with the given index.
    pub open spec fn spec_from_index(index: nat) -> Square
        recommends index < 64,
    {
        if index == 0 {
            Square::A1
        } else if index == 1 {
            Square::B1
        } else if index == 2 {
            Square::C1
        } else if index == 3 {
            Square::D1
        } else if index == 4 {
            Square::E1
        } else if index == 5 {
            Square::F1
        } else if index == 6 {
            Square::G1
        } else if index == 7 {
            Square::H1
        } else if index == 8 {
            Square::A2
        } else if index == 9 {
            Square::B2
        } else if index == 10 {
            Square::C2
        } else if index == 11 {
            Square::D2
        } else if index == 12 {
            Square::E2
        } else if index == 13 {
            Square::F2
        } else if index == 14 {
            Square::G2
        } else if index == 15 {
            Square::H2
        } else if index == 16 {
            Square::A3
        } else if index == 17 {
            Square::B3
        } else if index == 18 {
            Square::C3
        } else if index == 19 {
            Square::D3
        } else if index == 20 {
            Square::E3
        } else if index == 21 {
            Square::F3
        } else if index == 22 {
            Square::G3
        } else if index == 23 {
            Square::H3
        } else if index == 24 {
            Square::A4
        } else if index == 25 {
            Square::B4
        } else if index == 26 {
            Square::C4
        } else if index == 27 {
            Square::D4
        } else if index == 28 {
            Square::E4
        } else if index == 29 {
            Square::F4
        } else if index == 30 {
            Square::G4
        } else if index == 31 {
            Square::H4
        } else if index == 32 {
            Square::A5
        } else if index == 33 {
            Square::B5
        } else if index == 34 {
            Square::C5
        } else if index == 35 {
            Square::D5
        } else if index == 36 {
            Square::E5
        } else if index == 37 {
            Square::F5
        } else if index == 38 {
            Square::G5
        } else if index == 39 {
            Square::H5
        } else if index == 40 {
            Square::A6
        } else if index == 41 {
            Square::B6
        } else if index == 42 {
            Square::C6
        } else if index == 43 {
            Square::D6
        } else if index == 44 {
            Square::E6
        } else if index == 45 {
            Square::F6
        } else if index == 46 {
            Square::G6
        } else if index == 47 {
            Square::H6
        } else if index == 48 {
            Square::A7
        } else if index == 49 {
            Square::B7
        } else if index == 50 {
            Square::C7
        } else if index == 51 {
            Square::D7
        } else if index == 52 {
            Square::E7
        } else if index == 53 {
            Square::F7
        } else if index == 54 {
            Square::G7
        } else if index == 55 {
            Square::H7
        } else if index == 56 {
            Square::A8
        } else if index == 57 {
            Square::B8
        } else if index == 58 {
            Square::C8
        } else if index == 59 {
            Square::D8
        } else if index == 60 {
            Square::E8
        } else if index == 61 {
            Square::F8
        } else if index == 62 {
            Square::G8
        } else {
            Square::H8
        }
    }

    /// Returns the square with the given index.
    pub fn from_index(index: u8) -> (r: Square)
        requires
            index < 64,
        ensures
            r.spec_index() == index,
            r == Square::spec_from_index(index as nat),
    {
        match index {
            0 => Square::A1,
            1 => Square::B1,
            2 => Square::C1,
            3 => Square::D1,
            4 => Square::E1,
            5 => Square::F1,
            6 => Square::G1,
            7 => Square::H1,
            8 => Square::A2,
            9 => Square::B2,
            10 => Square::C2,
            11 => Square::D2,
            12 => Square::E2,
            13 => Square::F2,
            14 => Square::G2,
            15 => Square::H2,
            16 => Square::A3,
            17 => Square::B3,
            18 => Square::C3,
            19 => Square::D3,
            20 => Square::E3,
            21 => Square::F3,
            22 => Square::G3,
            23 => Square::H3,
            24 => Square::A4,
            25 => Square::B4,
            26 => Square::C4,
            27 => Square::D4,
            28 => Square::E4,
            29 => Square::F4,
            30 => Square::G4,
            31 => Square::H4,
            32 => Square::A5,
            33 => Square::B5,
            34 => Square::C5,
            35 => Square::D5,
            36 => Square::E5,
            37 => Square::F5,
            38 => Square::G5,
            39 => Square::H5,
            40 => Square::A6,
            41 => Square::B6,
            42 => Square::C6,
            43 => Square::D6,
            44 => Square::E6,
            45 => Square::F6,
            46 => Square::G6,
            47 => Square::H6,
            48 => Square::A7,
            49 => Square::B7,
            50 => Square::C7,
            51 => Square::D7,
            52 => Square::E7,
            53 => Square::F7,
            54 => Square::G7,
            55 => Square::H7,
            56 => Square::A8,
            57 => Square::B8,
            58 => Square::C8,
            59 => Square::D8,
            60 => Square::E8,
            61 => Square::F8,
            62 => Square::G8,
            _ => Square::H8,
        }
    }
}


/// Every square's index is below 64.
pub proof fn lemma_index_bound(s: Square)
    ensures
        s.spec_index() < 64,
{
}


/// The letter of file `f` (0 = a .. 7 = h).
pub open spec fn file_char(f: int) -> char {
    if f == 0 {
        'a'
    } else if f == 1 {
        'b'
    } else if f == 2 {
        'c'
    } else if f == 3 {
        'd'
    } else if f == 4 {
        'e'
    } else if f == 5 {
        'f'
    } else if f == 6 {
        'g'
    } else {
        'h'
    }
}

/// The digit of rank `r` (0 = 1 .. 7 = 8).
pub open spec fn rank_char(r: int) -> char {
    if r == 0 {
        '1'
    } else if r == 1 {
        '2'
    } else if r == 2 {
        '3'
    } else if r == 3 {
        '4'
    } else if r == 4 {
        '5'
    } else if r == 5 {
        '6'
    } else if r == 6 {
        '7'
    } else {
        '8'
    }
}

/// The algebraic name of a square: its file letter and rank digit, as in "e4".
pub open spec fn spec_algebraic(s: Square) -> Seq<char> {
    seq![file_char(s.spec_index() as int % 8), rank_char(s.spec_index() as int / 8)]
}

/// The letter of file `file` (0 = "a").
pub fn file_str(file: u8) -> (r: &'static str)
    requires
        file < 8,
    ensures
        r@ == seq![file_char(file as int)],
{
        if file == 0 {
            proof { reveal_strlit("a"); }
            "a"
        } else if file == 1 {
            proof { reveal_strlit("b"); }
            "b"
        } else if file == 2 {
            proof { reveal_strlit("c"); }
            "c"
        } else if file == 3 {
            proof { reveal_strlit("d"); }
            "d"
        } else if file == 4 {
            proof { reveal_strlit("e"); }
            "e"
        } else if file == 5 {
            proof { reveal_strlit("f"); }
            "f"
        } else if file == 6 {
            proof { reveal_strlit("g"); }
            "g"
        } else {
            proof { reveal_strlit("h"); }
            "h"
        }
}

/// The digit of rank `rank` (0 = "1").
pub fn rank_str(rank: u8) -> (r: &'static str)
    requires
        rank < 8,
    ensures
        r@ == seq![rank_char(rank as int)],
{
        if rank == 0 {
            proof { reveal_strlit("1"); }
            "1"
        } else if rank == 1 {
            proof { reveal_strlit("2"); }
            "2"
        } else if rank == 2 {
            proof { reveal_strlit("3"); }
            "3"
        } else if rank == 3 {
            proof { reveal_strlit("4"); }
            "4"
        } else if rank == 4 {
            proof { reveal_strlit("5"); }
            "5"
        } else if rank == 5 {
            proof { reveal_strlit("6"); }
            "6"
        } else if rank == 6 {
            proof { reveal_strlit("7"); }
            "7"
        } else {
            proof { reveal_strlit("8"); }
            "8"
        }
}

impl Square {
    /// The algebraic name of the square, as in "e4".
    pub fn to_algebraic(&self) -> (r: String)
        ensures
            r@ == spec_algebraic(*self),
    {
        let index = self.index();
        let file = file_str(index % 8);
        let rank = rank_str(index / 8);
        let r = String::from_str(file).concat(rank);
        proof { assert(r@ =~= spec_algebraic(*self)); }
        r
    }
}


/// Distinct squares have distinct indices.
pub proof fn lemma_index_injective(a: Square, b: Square)
    ensures
        a.spec_index() == b.spec_index() ==> a == b,
{
}

proof fn lemma_file_char_code(f: int)
    requires
        0 <= f < 8,
    ensures
        file_char(f) as u32 == 97 + f,
{
}

proof fn lemma_rank_char_code(r: int)
    requires
        0 <= r < 8,
    ensures
        rank_char(r) as u32 == 49 + r,
{
}

impl Square {
    /// The square that `text` names in algebraic notation ("e4"), if any:
    /// a file letter from "a" to "h" followed by a rank digit from "1" to "8".
    pub fn from_algebraic(text: &str) -> (r: Option<Square>)
        ensures
            match r {
                Some(sq) => spec_algebraic(sq) == text@,
                None => forall|sq: Square| spec_algebraic(sq) != text@,
            },
    {
        if text.unicode_len() != 2 {
            proof {
                assert forall|sq: Square| spec_algebraic(sq) != text@ by {
                    assert(spec_algebraic(sq).len() == 2);
                }
            }
            return None;
        }
        let file = text.get_char(0);
        let rank = text.get_char(1);
        if 'a' <= file && file <= 'h' && '1' <= rank && rank <= '8' {
            let f: u32 = (file as u32) - 97;
            let rk: u32 = (rank as u32) - 49;
            let sq = Square::from_index((rk * 8 + f) as u8);
            proof {
                lemma_index_bound(sq);
                assert(sq.spec_index() as int % 8 == f);
                assert(sq.spec_index() as int / 8 == rk);
                lemma_file_char_code(f as int);
                lemma_rank_char_code(rk as int);
                assert(spec_algebraic(sq) =~= text@);
            }
            Some(sq)
        } else {
            proof {
                assert forall|sq: Square| spec_algebraic(sq) != text@ by {
                    lemma_index_bound(sq);
                    lemma_file_char_code(sq.spec_index() as int % 8);
                    lemma_rank_char_code(sq.spec_index() as int / 8);
                    if spec_algebraic(sq) == text@ {
                        assert(spec_algebraic(sq)[0] == file);
                        assert(spec_algebraic(sq)[1] == rank);
                    }
                }
            }
            None
        }
    }
}

/// Distinct squares have distinct algebraic names, so `from_algebraic` reads
/// the name of a square back as that square.
pub proof fn lemma_algebraic_names_distinct(sq: Square, other: Square)
    ensures
        spec_algebraic(sq) == spec_algebraic(other) ==> sq == other,
{
    lemma_index_bound(sq);
    lemma_index_bound(other);
    if spec_algebraic(sq) == spec_algebraic(other) {
        lemma_file_char_code(sq.spec_index() as int % 8);
        lemma_rank_char_code(sq.spec_index() as int / 8);
        lemma_file_char_code(other.spec_index() as int % 8);
        lemma_rank_char_code(other.spec_index() as int / 8);
        assert(spec_algebraic(sq)[0] == spec_algebraic(other)[0]);
        assert(spec_algebraic(sq)[1] == spec_algebraic(other)[1]);
        lemma_index_injective(sq, other);
    }
}

/// The square of index `k` has index `k`.
pub proof fn lemma_from_index_inverse(k: nat)
    requires
        k < 64,
    ensures
        Square::spec_from_index(k).spec_index() == k,
{
}

/// The name of a square is its file letter, counting from "a", then its rank
/// digit, counting from "1": two characters, the letter `file` places after
/// "a" and the digit `rank` places after "1".
pub proof fn lemma_square_name_spells_file_and_rank(s: Square)
    ensures
        spec_algebraic(s).len() == 2,
        spec_algebraic(s)[0] as int == 'a' as int + s.spec_index() as int % 8,
        spec_algebraic(s)[1] as int == '1' as int + s.spec_index() as int / 8,
{
    lemma_index_bound(s);
    lemma_file_char_code(s.spec_index() as int % 8);
    lemma_rank_char_code(s.spec_index() as int / 8);
}

} // verus!
