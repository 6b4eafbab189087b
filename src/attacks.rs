//! The squares that each kind of piece attacks from a square.

use vstd::prelude::*;

use crate::bitboard::{Bitboard, bit, group_bits, lemma_bit_ops, lemma_bit_one};
use crate::color::Color;
use crate::square::{File, Rank, Square, abs, file_of, group_index, on_board, rank_of, sq_at};

verus! {

broadcast use {group_index, group_bits};

/// Whether `t` is the square `df` files and `dr` ranks away from `s`.
pub open spec fn offset_of(s: int, df: int, dr: int, t: int) -> bool {
    on_board(file_of(s) + df, rank_of(s) + dr) && t == sq_at(file_of(s) + df, rank_of(s) + dr)
}

/// Whether a knight on `s` attacks `t`.
pub open spec fn knight_reaches(s: int, t: int) -> bool {
    let df = abs(file_of(t) - file_of(s));
    let dr = abs(rank_of(t) - rank_of(s));
    0 <= t < 64 && ((df == 1 && dr == 2) || (df == 2 && dr == 1))
}

/// Whether a king on `s` attacks `t`.
pub open spec fn king_reaches(s: int, t: int) -> bool {
    0 <= t < 64 && t != s && abs(file_of(t) - file_of(s)) <= 1 && abs(rank_of(t) - rank_of(s))
        <= 1
}

/// Whether a pawn of `color` on `s` attacks `t`: one file aside and one rank forward.
pub open spec fn pawn_reaches(color: Color, s: int, t: int) -> bool {
    0 <= t < 64 && abs(file_of(t) - file_of(s)) == 1 && rank_of(t) - rank_of(s) == if color
        == Color::White {
        1int
    } else {
        -1int
    }
}

/// Whether the `k`-th step from `s` in direction `(df, dr)` is on the board.
pub open spec fn ray_on(s: int, df: int, dr: int, k: int) -> bool {
    on_board(file_of(s) + k * df, rank_of(s) + k * dr)
}

/// The square of the `k`-th step from `s` in direction `(df, dr)`.
pub open spec fn ray_sq(s: int, df: int, dr: int, k: int) -> int {
    sq_at(file_of(s) + k * df, rank_of(s) + k * dr)
}

/// Whether the steps before the `k`-th from `s` in direction `(df, dr)` are
/// all on the board and empty in `occ`.
pub open spec fn ray_clear(s: int, df: int, dr: int, occ: Bitboard, k: int) -> bool {
    forall|j: int| 1 <= j < k ==> #[trigger] ray_on(s, df, dr, j) && !occ.has(ray_sq(s, df, dr, j))
}

/// Whether a piece on `s` that slides in direction `(df, dr)` attacks `t`
/// when the squares of `occ` are occupied: `t` is a step on the way, and no
/// step before it is occupied.
pub open spec fn ray_reaches(s: int, df: int, dr: int, occ: Bitboard, t: int) -> bool {
    exists|k: int|
        1 <= k && #[trigger] ray_on(s, df, dr, k) && t == ray_sq(s, df, dr, k) && ray_clear(
            s,
            df,
            dr,
            occ,
            k,
        )
}

/// Whether a rook on `s` attacks `t` when the squares of `occ` are occupied.
pub open spec fn rook_reaches(s: int, occ: Bitboard, t: int) -> bool {
    ray_reaches(s, 1, 0, occ, t) || ray_reaches(s, -1, 0, occ, t) || ray_reaches(s, 0, 1, occ, t)
        || ray_reaches(s, 0, -1, occ, t)
}

/// Whether a bishop on `s` attacks `t` when the squares of `occ` are occupied.
pub open spec fn bishop_reaches(s: int, occ: Bitboard, t: int) -> bool {
    ray_reaches(s, 1, 1, occ, t) || ray_reaches(s, -1, 1, occ, t) || ray_reaches(s, 1, -1, occ, t)
        || ray_reaches(s, -1, -1, occ, t)
}

/// The square `df` files and `dr` ranks away from `square`, as a set of at most one square.
fn offset_bits(square: Square, df: i8, dr: i8) -> (r: Bitboard)
    requires
        -2 <= df <= 2,
        -2 <= dr <= 2,
    ensures
        forall|t: int| r.has(t) <==> offset_of(square.idx(), df as int, dr as int, t),
{
    let i = square.index();
    let f = (i % 8) as i8 + df;
    let k = (i / 8) as i8 + dr;
    if 0 <= f && f < 8 && 0 <= k && k < 8 {
        let b = 1u64 << ((k * 8 + f) as u64);
        assert forall|t: int| Bitboard(b).has(t) <==> offset_of(i as int, df as int, dr as int, t)
        by {
            if 0 <= t < 64 {
                assert(bit(b, t as u64) == (t == k * 8 + f));
            }
        }
        Bitboard(b)
    } else {
        Bitboard(0)
    }
}

proof fn lemma_next_step(k: int, d: int)
    requires
        -1 <= d <= 1,
    ensures
        (k + 1) * d == k * d + d,
        d == 1 ==> k * d == k,
        d == -1 ==> k * d == -k,
        d == 0 ==> k * d == 0,
{
    assert((k + 1) * d == k * d + d) by (nonlinear_arith);
    assert(d == 1 ==> k * d == k) by (nonlinear_arith);
    assert(d == -1 ==> k * d == -k) by (nonlinear_arith);
    assert(d == 0 ==> k * d == 0) by (nonlinear_arith);
}

/// Whether `t` is one of the first `k - 1` steps from `s` in direction `(df, dr)`.
spec fn ray_prefix(s: int, df: int, dr: int, k: int, t: int) -> bool {
    exists|j: int| 1 <= j < k && #[trigger] ray_on(s, df, dr, j) && t == ray_sq(s, df, dr, j)
}

proof fn lemma_ray_off(s: int, df: int, dr: int, occ: Bitboard, k: int, bits: Bitboard)
    requires
        1 <= k,
        ray_clear(s, df, dr, occ, k),
        !ray_on(s, df, dr, k),
        forall|t: int| bits.has(t) <==> ray_prefix(s, df, dr, k, t),
    ensures
        forall|t: int| bits.has(t) <==> ray_reaches(s, df, dr, occ, t),
{
    assert forall|t: int| bits.has(t) <==> ray_reaches(s, df, dr, occ, t) by {
        if ray_reaches(s, df, dr, occ, t) {
            let k2 = choose|k2: int|
                1 <= k2 && #[trigger] ray_on(s, df, dr, k2) && t == ray_sq(s, df, dr, k2)
                    && ray_clear(s, df, dr, occ, k2);
            if k2 > k {
                assert(ray_on(s, df, dr, k));
            }
            assert(ray_prefix(s, df, dr, k, t));
        }
        if bits.has(t) {
            let j = choose|j: int|
                1 <= j < k && #[trigger] ray_on(s, df, dr, j) && t == ray_sq(s, df, dr, j);
            assert(ray_clear(s, df, dr, occ, j));
        }
    }
}

proof fn lemma_ray_blocked(s: int, df: int, dr: int, occ: Bitboard, k: int, bits: Bitboard)
    requires
        1 <= k,
        ray_clear(s, df, dr, occ, k),
        ray_on(s, df, dr, k),
        occ.has(ray_sq(s, df, dr, k)),
        forall|t: int| bits.has(t) <==> ray_prefix(s, df, dr, k, t) || t == ray_sq(s, df, dr, k),
    ensures
        forall|t: int| bits.has(t) <==> ray_reaches(s, df, dr, occ, t),
{
    assert forall|t: int| bits.has(t) <==> ray_reaches(s, df, dr, occ, t) by {
        if ray_reaches(s, df, dr, occ, t) {
            let k2 = choose|k2: int|
                1 <= k2 && #[trigger] ray_on(s, df, dr, k2) && t == ray_sq(s, df, dr, k2)
                    && ray_clear(s, df, dr, occ, k2);
            if k2 > k {
                assert(ray_on(s, df, dr, k));
            }
            if k2 < k {
                assert(ray_prefix(s, df, dr, k, t));
            }
        }
        if bits.has(t) {
            if t == ray_sq(s, df, dr, k) {
                assert(ray_on(s, df, dr, k));
            } else {
                let j = choose|j: int|
                    1 <= j < k && #[trigger] ray_on(s, df, dr, j) && t == ray_sq(s, df, dr, j);
                assert(ray_clear(s, df, dr, occ, j));
            }
        }
    }
}

proof fn lemma_ray_step(s: int, df: int, dr: int, occ: Bitboard, k: int, bits: Bitboard)
    requires
        1 <= k,
        ray_clear(s, df, dr, occ, k),
        ray_on(s, df, dr, k),
        !occ.has(ray_sq(s, df, dr, k)),
        forall|t: int| bits.has(t) <==> ray_prefix(s, df, dr, k, t) || t == ray_sq(s, df, dr, k),
    ensures
        ray_clear(s, df, dr, occ, k + 1),
        forall|t: int| bits.has(t) <==> ray_prefix(s, df, dr, k + 1, t),
{
    assert forall|t: int| bits.has(t) <==> ray_prefix(s, df, dr, k + 1, t) by {
        if bits.has(t) && t == ray_sq(s, df, dr, k) {
            assert(ray_on(s, df, dr, k));
        }
        if ray_prefix(s, df, dr, k + 1, t) {
            let j = choose|j: int|
                1 <= j < k + 1 && #[trigger] ray_on(s, df, dr, j) && t == ray_sq(s, df, dr, j);
            if j < k {
                assert(ray_prefix(s, df, dr, k, t));
            }
        }
    }
}

proof fn lemma_ray_bound(s: int, df: int, dr: int, k: int)
    requires
        0 <= s < 64,
        1 <= k,
        -1 <= df <= 1,
        -1 <= dr <= 1,
        df != 0 || dr != 0,
        ray_on(s, df, dr, k),
    ensures
        k < 8,
{
    lemma_next_step(k, df);
    lemma_next_step(k, dr);
}

/// The squares that a piece on `square` sliding in direction `(df, dr)` attacks.
fn ray(square: Square, df: i8, dr: i8, occ: Bitboard) -> (r: Bitboard)
    requires
        -1 <= df <= 1,
        -1 <= dr <= 1,
        df != 0 || dr != 0,
    ensures
        forall|t: int| r.has(t) <==> ray_reaches(square.idx(), df as int, dr as int, occ, t),
{
    let ghost s = square.idx();
    let i = square.index();
    let f0 = (i % 8) as i8;
    let r0 = (i / 8) as i8;
    let mut k: i8 = 1;
    let mut f: i8 = f0 + df;
    let mut kr: i8 = r0 + dr;
    let mut bits = Bitboard(0);
    proof {
        lemma_next_step(0, df as int);
        lemma_next_step(0, dr as int);
        assert forall|t: int| bits.has(t) <==> ray_prefix(s, df as int, dr as int, 1, t) by {}
    }
    loop
        invariant
            1 <= k <= 8,
            s == square.idx(),
            0 <= s < 64,
            f0 == file_of(s),
            r0 == rank_of(s),
            -1 <= df <= 1,
            -1 <= dr <= 1,
            df != 0 || dr != 0,
            f == f0 + k * df,
            kr == r0 + k * dr,
            ray_clear(s, df as int, dr as int, occ, k as int),
            forall|t: int| bits.has(t) <==> ray_prefix(s, df as int, dr as int, k as int, t),
        decreases 8 - k,
    {
        if !(0 <= f && f < 8 && 0 <= kr && kr < 8) {
            proof {
                lemma_ray_off(s, df as int, dr as int, occ, k as int, bits);
            }
            return bits;
        }
        let idx = (kr * 8 + f) as u8;
        let next = Square::from_index(idx);
        let step = Bitboard::from_square(next);
        bits = bits.union(step);
        if occ.contains(next) {
            proof {
                lemma_ray_blocked(s, df as int, dr as int, occ, k as int, bits);
            }
            return bits;
        }
        proof {
            lemma_ray_step(s, df as int, dr as int, occ, k as int, bits);
            lemma_ray_bound(s, df as int, dr as int, k as int);
            lemma_next_step(k as int, df as int);
            lemma_next_step(k as int, dr as int);
        }
        f = f + df;
        kr = kr + dr;
        k = k + 1;
    }
}

/// The square `df` files and `dr` ranks away from `s` is `t` exactly when the
/// file and rank of `t` differ from those of `s` by `df` and `dr`.
proof fn lemma_offset(s: int, df: int, dr: int, t: int)
    requires
        0 <= s < 64,
    ensures
        offset_of(s, df, dr, t) <==> (0 <= t < 64 && file_of(t) - file_of(s) == df && rank_of(t)
            - rank_of(s) == dr),
{
}

proof fn lemma_knight_offsets(s: int, t: int)
    requires
        0 <= s < 64,
    ensures
        knight_reaches(s, t) <==> offset_of(s, 1, 2, t) || offset_of(s, 2, 1, t) || offset_of(
            s,
            2,
            -1,
            t,
        ) || offset_of(s, 1, -2, t) || offset_of(s, -1, -2, t) || offset_of(s, -2, -1, t)
            || offset_of(s, -2, 1, t) || offset_of(s, -1, 2, t),
{
    lemma_offset(s, 1, 2, t);
    lemma_offset(s, 2, 1, t);
    lemma_offset(s, 2, -1, t);
    lemma_offset(s, 1, -2, t);
    lemma_offset(s, -1, -2, t);
    lemma_offset(s, -2, -1, t);
    lemma_offset(s, -2, 1, t);
    lemma_offset(s, -1, 2, t);
}

proof fn lemma_king_offsets(s: int, t: int)
    requires
        0 <= s < 64,
    ensures
        king_reaches(s, t) <==> offset_of(s, 1, 1, t) || offset_of(s, 1, 0, t) || offset_of(
            s,
            1,
            -1,
            t,
        ) || offset_of(s, 0, -1, t) || offset_of(s, -1, -1, t) || offset_of(s, -1, 0, t)
            || offset_of(s, -1, 1, t) || offset_of(s, 0, 1, t),
{
    lemma_offset(s, 1, 1, t);
    lemma_offset(s, 1, 0, t);
    lemma_offset(s, 1, -1, t);
    lemma_offset(s, 0, -1, t);
    lemma_offset(s, -1, -1, t);
    lemma_offset(s, -1, 0, t);
    lemma_offset(s, -1, 1, t);
    lemma_offset(s, 0, 1, t);
}

proof fn lemma_pawn_offsets(color: Color, s: int, t: int, dr: int)
    requires
        0 <= s < 64,
        dr == if color == Color::White {
            1int
        } else {
            -1int
        },
    ensures
        pawn_reaches(color, s, t) <==> offset_of(s, -1, dr, t) || offset_of(s, 1, dr, t),
{
    lemma_offset(s, -1, dr, t);
    lemma_offset(s, 1, dr, t);
}

impl Square {
    /// Returns the squares that a pawn of `color` on `self` attacks.
    pub fn pawn_attacks(self, color: Color) -> (r: Bitboard)
        ensures
            forall|t: int| r.has(t) <==> pawn_reaches(color, self.idx(), t),
    {
        let dr: i8 = match color {
            Color::White => 1,
            Color::Black => -1,
        };
        let a = offset_bits(self, -1, dr);
        let b = offset_bits(self, 1, dr);
        let r = a.union(b);
        assert forall|t: int| r.has(t) <==> pawn_reaches(color, self.idx(), t) by {
            lemma_pawn_offsets(color, self.idx(), t, dr as int);
        }
        r
    }

    /// Returns the squares that a knight on `self` attacks.
    pub fn knight_attacks(self) -> (r: Bitboard)
        ensures
            forall|t: int| r.has(t) <==> knight_reaches(self.idx(), t),
    {
        let a = offset_bits(self, 1, 2).union(offset_bits(self, 2, 1));
        let b = offset_bits(self, 2, -1).union(offset_bits(self, 1, -2));
        let c = offset_bits(self, -1, -2).union(offset_bits(self, -2, -1));
        let d = offset_bits(self, -2, 1).union(offset_bits(self, -1, 2));
        let r = a.union(b).union(c.union(d));
        assert forall|t: int| r.has(t) <==> knight_reaches(self.idx(), t) by {
            lemma_knight_offsets(self.idx(), t);
        }
        r
    }

    /// Returns the squares that a king on `self` attacks.
    pub fn king_attacks(self) -> (r: Bitboard)
        ensures
            forall|t: int| r.has(t) <==> king_reaches(self.idx(), t),
    {
        let a = offset_bits(self, 1, 1).union(offset_bits(self, 1, 0));
        let b = offset_bits(self, 1, -1).union(offset_bits(self, 0, -1));
        let c = offset_bits(self, -1, -1).union(offset_bits(self, -1, 0));
        let d = offset_bits(self, -1, 1).union(offset_bits(self, 0, 1));
        let r = a.union(b).union(c.union(d));
        assert forall|t: int| r.has(t) <==> king_reaches(self.idx(), t) by {
            lemma_king_offsets(self.idx(), t);
        }
        r
    }

    /// Returns the squares that a rook on `self` attacks when the squares of
    /// `occupied` are occupied; whether `occupied` holds `self` does not matter.
    pub fn rook_attacks(self, occupied: Bitboard) -> (r: Bitboard)
        ensures
            forall|t: int| r.has(t) <==> rook_reaches(self.idx(), occupied, t),
    {
        let a = ray(self, 1, 0, occupied).union(ray(self, -1, 0, occupied));
        let b = ray(self, 0, 1, occupied).union(ray(self, 0, -1, occupied));
        a.union(b)
    }

    /// Returns the squares that a bishop on `self` attacks when the squares of
    /// `occupied` are occupied; whether `occupied` holds `self` does not matter.
    pub fn bishop_attacks(self, occupied: Bitboard) -> (r: Bitboard)
        ensures
            forall|t: int| r.has(t) <==> bishop_reaches(self.idx(), occupied, t),
    {
        let a = ray(self, 1, 1, occupied).union(ray(self, -1, 1, occupied));
        let b = ray(self, 1, -1, occupied).union(ray(self, -1, -1, occupied));
        a.union(b)
    }

    /// Returns the squares that a queen on `self` attacks when the squares of
    /// `occupied` are occupied: those of a rook and of a bishop on `self`.
    pub fn queen_attacks(self, occupied: Bitboard) -> (r: Bitboard)
        ensures
            forall|t: int|
                r.has(t) <==> rook_reaches(self.idx(), occupied, t) || bishop_reaches(
                    self.idx(),
                    occupied,
                    t,
                ),
    {
        self.rook_attacks(occupied).union(self.bishop_attacks(occupied))
    }
}

/// A slide from `s` to `t` in direction `(df, dr)` is a slide from `t` to
/// `s` in the opposite direction, past the same squares.
proof fn lemma_ray_reverse(s: int, df: int, dr: int, occ: Bitboard, t: int)
    requires
        0 <= s < 64,
        -1 <= df <= 1,
        -1 <= dr <= 1,
        ray_reaches(s, df, dr, occ, t),
    ensures
        ray_reaches(t, -df, -dr, occ, s),
{
    let k = choose|k: int|
        1 <= k && #[trigger] ray_on(s, df, dr, k) && t == ray_sq(s, df, dr, k) && ray_clear(
            s,
            df,
            dr,
            occ,
            k,
        );
    let (fs, rs) = (file_of(s), rank_of(s));
    let (ft, rt) = (fs + k * df, rs + k * dr);
    assert(file_of(t) == ft && rank_of(t) == rt);
    assert(ft + k * (-df) == fs && rt + k * (-dr) == rs) by (nonlinear_arith)
        requires
            ft == fs + k * df,
            rt == rs + k * dr,
    ;
    assert(s == sq_at(fs, rs));
    assert(ray_on(t, -df, -dr, k) && s == ray_sq(t, -df, -dr, k));
    assert forall|j: int| 1 <= j < k implies #[trigger] ray_on(t, -df, -dr, j) && !occ.has(
        ray_sq(t, -df, -dr, j),
    ) by {
        assert(ray_on(s, df, dr, k - j));
        assert(ft + j * (-df) == fs + (k - j) * df && rt + j * (-dr) == rs + (k - j) * dr)
            by (nonlinear_arith)
            requires
                ft == fs + k * df,
                rt == rs + k * dr,
        ;
    }
}

/// A rook on `s` attacks `t` exactly when a rook on `t` attacks `s`.
pub proof fn lemma_rook_symmetric(s: int, occ: Bitboard, t: int)
    requires
        0 <= s < 64,
        0 <= t < 64,
    ensures
        rook_reaches(s, occ, t) == rook_reaches(t, occ, s),
{
    if ray_reaches(s, 1, 0, occ, t) {
        lemma_ray_reverse(s, 1, 0, occ, t);
    }
    if ray_reaches(s, -1, 0, occ, t) {
        lemma_ray_reverse(s, -1, 0, occ, t);
    }
    if ray_reaches(s, 0, 1, occ, t) {
        lemma_ray_reverse(s, 0, 1, occ, t);
    }
    if ray_reaches(s, 0, -1, occ, t) {
        lemma_ray_reverse(s, 0, -1, occ, t);
    }
    if ray_reaches(t, 1, 0, occ, s) {
        lemma_ray_reverse(t, 1, 0, occ, s);
    }
    if ray_reaches(t, -1, 0, occ, s) {
        lemma_ray_reverse(t, -1, 0, occ, s);
    }
    if ray_reaches(t, 0, 1, occ, s) {
        lemma_ray_reverse(t, 0, 1, occ, s);
    }
    if ray_reaches(t, 0, -1, occ, s) {
        lemma_ray_reverse(t, 0, -1, occ, s);
    }
}

/// A bishop on `s` attacks `t` exactly when a bishop on `t` attacks `s`.
pub proof fn lemma_bishop_symmetric(s: int, occ: Bitboard, t: int)
    requires
        0 <= s < 64,
        0 <= t < 64,
    ensures
        bishop_reaches(s, occ, t) == bishop_reaches(t, occ, s),
{
    if ray_reaches(s, 1, 1, occ, t) {
        lemma_ray_reverse(s, 1, 1, occ, t);
    }
    if ray_reaches(s, -1, 1, occ, t) {
        lemma_ray_reverse(s, -1, 1, occ, t);
    }
    if ray_reaches(s, 1, -1, occ, t) {
        lemma_ray_reverse(s, 1, -1, occ, t);
    }
    if ray_reaches(s, -1, -1, occ, t) {
        lemma_ray_reverse(s, -1, -1, occ, t);
    }
    if ray_reaches(t, 1, 1, occ, s) {
        lemma_ray_reverse(t, 1, 1, occ, s);
    }
    if ray_reaches(t, -1, 1, occ, s) {
        lemma_ray_reverse(t, -1, 1, occ, s);
    }
    if ray_reaches(t, 1, -1, occ, s) {
        lemma_ray_reverse(t, 1, -1, occ, s);
    }
    if ray_reaches(t, -1, -1, occ, s) {
        lemma_ray_reverse(t, -1, -1, occ, s);
    }
}

} // verus!
