//! A chess move packed in sixteen bits.

use vstd::prelude::*;

use crate::piece::Promotion;
use crate::square::Square;

verus! {

/// The kind of a move.
#[derive(Copy, Clone, Debug, Hash, PartialEq, Eq, Structural)]
pub enum MoveKind {
    /// A normal move.
    Normal,
    /// A castling move.
    Castle,
    /// A promotion move.
    Promotion,
    /// An en passant capture.
    EnPassant,
}

impl MoveKind {
    /// The two-bit code of the kind.
    pub open spec fn idx(self) -> u16 {
        match self {
            MoveKind::Normal => 0,
            MoveKind::Castle => 1,
            MoveKind::Promotion => 2,
            MoveKind::EnPassant => 3,
        }
    }
}

impl Promotion {
    /// The two-bit code of the promotion.
    pub open spec fn idx(self) -> u16 {
        match self {
            Promotion::Knight => 0,
            Promotion::Bishop => 1,
            Promotion::Rook => 2,
            Promotion::Queen => 3,
        }
    }
}

/// A move from one square to another, with a promotion and a kind: six bits
/// for the start square, six for the end square, two for the promotion and two
/// for the kind. The promotion bits are set on every move, and read only where
/// the kind uses them.
#[derive(Copy, Clone, Debug, Hash, PartialEq, Eq, Structural)]
pub struct Move(u16);

impl Move {
    /// The sixteen bits of the move.
    pub closed spec fn bits(self) -> u16 {
        self.0
    }

    /// The index of the start square.
    pub open spec fn spec_from(self) -> int {
        (self.bits() & 0x3F) as int
    }

    /// The index of the end square.
    pub open spec fn spec_to(self) -> int {
        ((self.bits() >> 6) & 0x3F) as int
    }

    /// The code of the promotion.
    pub open spec fn spec_promotion(self) -> u16 {
        (self.bits() >> 12) & 0x3
    }

    /// The code of the kind.
    pub open spec fn spec_kind(self) -> u16 {
        (self.bits() >> 14) & 0x3
    }

    /// Returns the move from `from` to `to` with promotion `prom` and kind `kind`.
    pub fn new(from: Square, to: Square, prom: Promotion, kind: MoveKind) -> (r: Move)
        ensures
            r.spec_from() == from.idx(),
            r.spec_to() == to.idx(),
            r.spec_promotion() == prom.idx(),
            r.spec_kind() == kind.idx(),
    {
        let f = from.index() as u16;
        let t = to.index() as u16;
        let p: u16 = match prom {
            Promotion::Knight => 0,
            Promotion::Bishop => 1,
            Promotion::Rook => 2,
            Promotion::Queen => 3,
        };
        let k: u16 = match kind {
            MoveKind::Normal => 0,
            MoveKind::Castle => 1,
            MoveKind::Promotion => 2,
            MoveKind::EnPassant => 3,
        };
        let bits = f | (t << 6) | (p << 12) | (k << 14);
        proof {
            assert(f < 64 && t < 64 && p < 4 && k < 4 ==> (bits & 0x3F == f && (bits >> 6) & 0x3F
                == t && (bits >> 12) & 0x3 == p && (bits >> 14) & 0x3 == k)) by (bit_vector)
                requires
                    bits == f | (t << 6) | (p << 12) | (k << 14),
            ;
        }
        Move(bits)
    }

    /// Returns the start square of `self`.
    pub fn from(&self) -> (r: Square)
        ensures
            r.idx() == self.spec_from(),
    {
        proof {
            let b = self.0;
            assert(b & 0x3F < 64) by (bit_vector);
        }
        Square::from_index((self.0 & 0x3F) as u8)
    }

    /// Returns the end square of `self`.
    pub fn to(&self) -> (r: Square)
        ensures
            r.idx() == self.spec_to(),
    {
        proof {
            let b = self.0;
            assert((b >> 6) & 0x3F < 64) by (bit_vector);
        }
        Square::from_index(((self.0 >> 6) & 0x3F) as u8)
    }

    /// Returns the promotion of `self`.
    pub fn promotion(&self) -> (r: Promotion)
        ensures
            r.idx() == self.spec_promotion(),
    {
        proof {
            let b = self.0;
            assert((b >> 12) & 0x3 < 4) by (bit_vector);
        }
        match (self.0 >> 12) & 0x3 {
            0 => Promotion::Knight,
            1 => Promotion::Bishop,
            2 => Promotion::Rook,
            _ => Promotion::Queen,
        }
    }

    /// Returns the kind of `self`.
    pub fn kind(&self) -> (r: MoveKind)
        ensures
            r.idx() == self.spec_kind(),
    {
        proof {
            let b = self.0;
            assert((b >> 14) & 0x3 < 4) by (bit_vector);
        }
        match (self.0 >> 14) & 0x3 {
            0 => MoveKind::Normal,
            1 => MoveKind::Castle,
            2 => MoveKind::Promotion,
            _ => MoveKind::EnPassant,
        }
    }
}

/// The most moves a [`MoveVec`] holds.
pub const VEC_CAP: usize = 255;

/// A list of at most 255 moves, held inline: no legal chess position has
/// more moves than that.
pub struct MoveVec {
    buf: [u16; 255],
    len: u8,
}

impl MoveVec {
    /// The number of moves in the list.
    pub closed spec fn spec_len(&self) -> nat {
        self.len as nat
    }

    /// The whole buffer of the list, in use or not.
    pub closed spec fn spec_buf(&self) -> Seq<u16> {
        self.buf@
    }

    /// Returns an empty list.
    pub fn new() -> (r: MoveVec)
        ensures
            r.spec_len() == 0,
    {
        MoveVec { buf: [0u16; 255], len: 0 }
    }

    /// Returns the number of moves in `self`.
    pub fn len(&self) -> (r: usize)
        ensures
            r == self.spec_len(),
            r <= VEC_CAP,
    {
        self.len as usize
    }
}

impl Clone for MoveVec {
    fn clone(&self) -> (r: MoveVec)
        ensures
            r == *self,
    {
        MoveVec { buf: self.buf, len: self.len }
    }
}

impl PartialEq for MoveVec {
    /// Two lists are equal when their lengths and their whole buffers are.
    fn eq(&self, other: &MoveVec) -> (r: bool) {
        if self.len != other.len {
            return false;
        }
        let mut i: usize = 0;
        while i < VEC_CAP
            invariant
                i <= VEC_CAP,
                forall|j: int| 0 <= j < i ==> #[trigger] self.buf@[j] == other.buf@[j],
            decreases VEC_CAP - i,
        {
            if self.buf[i] != other.buf[i] {
                return false;
            }
            i = i + 1;
        }
        assert(self.buf@ =~= other.buf@);
        true
    }
}

impl vstd::std_specs::cmp::PartialEqSpecImpl for MoveVec {
    open spec fn obeys_eq_spec() -> bool {
        true
    }

    open spec fn eq_spec(&self, other: &MoveVec) -> bool {
        self.spec_len() == other.spec_len() && self.spec_buf() == other.spec_buf()
    }
}

impl Eq for MoveVec {

}

impl Default for MoveVec {
    fn default() -> (r: MoveVec)
        ensures
            r.spec_len() == 0,
    {
        MoveVec::new()
    }
}

} // verus!
