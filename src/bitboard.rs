use vstd::prelude::*;

use crate::square::Square;

verus! {

/// Whether bit `i` of `x` is set.
pub open spec fn bit_set(x: u64, i: u64) -> bool {
    i < 64 && (x >> i) & 1u64 == 1u64
}

/// The indices of the set bits of `x` from `i` upward, in increasing order.
pub open spec fn set_bits_from(x: u64, i: int) -> Seq<int>
    decreases 64 - i,
{
    if i < 0 || i >= 64 {
        Seq::empty()
    } else if bit_set(x, i as u64) {
        seq![i].add(set_bits_from(x, i + 1))
    } else {
        set_bits_from(x, i + 1)
    }
}

/// The indices of the set bits of `x`, in increasing order.
pub open spec fn set_bits(x: u64) -> Seq<int> {
    set_bits_from(x, 0)
}

/// The word with only bit `i` set.
pub open spec fn bit_of(i: u64) -> u64 {
    1u64 << i
}

proof fn lemma_set_bits_from_ext(x: u64, y: u64, i: int)
    requires
        0 <= i <= 64,
        forall|j: u64| i <= j < 64 ==> bit_set(x, j) == bit_set(y, j),
    ensures
        set_bits_from(x, i) == set_bits_from(y, i),
    decreases 64 - i,
{
    if i < 64 {
        lemma_set_bits_from_ext(x, y, i + 1);
        assert(bit_set(x, i as u64) == bit_set(y, i as u64));
    }
}

proof fn lemma_set_bits_skip(x: u64, i: int, t: int)
    requires
        0 <= i <= t <= 64,
        forall|j: u64| i <= j < t ==> !bit_set(x, j),
    ensures
        set_bits_from(x, i) == set_bits_from(x, t),
    decreases t - i,
{
    if i < t {
        assert(!bit_set(x, i as u64));
        lemma_set_bits_skip(x, i + 1, t);
    }
}

/// The set bits from `i` upward are exactly the set bits of index at least `i`,
/// listed once each in strictly increasing order.
pub proof fn lemma_set_bits_from_shape(x: u64, i: int)
    requires
        0 <= i <= 64,
    ensures
        set_bits_from(x, i).len() <= 64 - i,
        forall|k: int| 0 <= k < set_bits_from(x, i).len() ==> i <= #[trigger] set_bits_from(x, i)[k] < 64,
        forall|k: int| 0 <= k < set_bits_from(x, i).len() ==> bit_set(x, #[trigger] set_bits_from(x, i)[k] as u64),
        forall|k: int, l: int| 0 <= k < l < set_bits_from(x, i).len()
            ==> #[trigger] set_bits_from(x, i)[k] < #[trigger] set_bits_from(x, i)[l],
        forall|j: u64| i <= j < 64 && bit_set(x, j) ==> set_bits_from(x, i).contains(j as int),
    decreases 64 - i,
{
    if i < 64 {
        lemma_set_bits_from_shape(x, i + 1);
        let rest = set_bits_from(x, i + 1);
        if bit_set(x, i as u64) {
            let s = seq![i].add(rest);
            assert(set_bits_from(x, i) == s);
            assert forall|k: int| 0 <= k < s.len() implies i <= #[trigger] s[k] < 64 && bit_set(x, s[k] as u64) by {
                if k > 0 {
                    assert(s[k] == rest[k - 1]);
                }
            }
            assert forall|k: int, l: int| 0 <= k < l < s.len() implies #[trigger] s[k] < #[trigger] s[l] by {
                assert(s[l] == rest[l - 1]);
                if k > 0 {
                    assert(s[k] == rest[k - 1]);
                }
            }
            assert forall|j: u64| i <= j < 64 && bit_set(x, j) implies s.contains(j as int) by {
                if j == i {
                    assert(s[0] == i);
                } else {
                    let k = choose|k: int| 0 <= k < rest.len() && rest[k] == j as int;
                    assert(s[k + 1] == j as int);
                }
            }
        } else {
            assert forall|j: u64| i <= j < 64 && bit_set(x, j) implies rest.contains(j as int) by {
                assert(j != i);
            }
        }
    }
}

/// Clearing the lowest set bit of a non-zero word removes the first entry of its set bits,
/// and that entry is the number of trailing zeros.
pub proof fn lemma_clear_lowest(x: u64)
    requires
        x != 0,
    ensures
        set_bits(x).len() > 0,
        set_bits(x)[0] == x.trailing_zeros() as int,
        set_bits(x & ((x - 1) as u64)) == set_bits(x).drop_first(),
{
    let t = x.trailing_zeros() as u64;
    vstd::std_specs::bits::axiom_u64_trailing_zeros(x);
    let y = x & ((x - 1) as u64);
    assert(t < 64);
    assert forall|j: u64| 0 <= j < t implies !bit_set(x, j) by {
        assert((x >> j) & 1u64 == 0u64);
    }
    assert(bit_set(x, t));
    assert forall|j: u64| j < 64 implies bit_set(y, j) == (bit_set(x, j) && j != t) by {
        let tt = t;
        assert(((x & ((x - 1) as u64)) >> j) & 1u64 == (if j == tt { 0u64 } else { (x >> j) & 1u64 }))
            by (bit_vector)
            requires
                tt < 64,
                j < 64,
                (x >> tt) & 1u64 == 1u64,
                x << ((64 - tt) as u64) == 0,
        ;
    }
    lemma_set_bits_skip(x, 0, t as int);
    lemma_set_bits_skip(y, 0, t as int + 1);
    lemma_set_bits_from_ext(x, y, t as int + 1);
    assert(set_bits_from(x, t as int) == seq![t as int].add(set_bits_from(x, t as int + 1)));
    assert(set_bits(x).drop_first() =~= set_bits_from(x, t as int + 1));
}

/// Setting bit `s` of `x` sets that bit and leaves the others.
proof fn lemma_bit_add(x: u64, s: u64)
    requires
        s < 64,
    ensures
        forall|i: u64| #[trigger] bit_set(x | bit_of(s), i) == (bit_set(x, i) || i == s),
{
    assert forall|i: u64| #[trigger] bit_set(x | bit_of(s), i) == (bit_set(x, i) || i == s) by {
        assert(i < 64 ==> (((x | (1u64 << s)) >> i) & 1u64 == 1u64) == (((x >> i) & 1u64 == 1u64) || i == s))
            by (bit_vector)
            requires
                s < 64,
        ;
    }
}

/// Clearing bit `s` of `x` clears that bit and leaves the others.
proof fn lemma_bit_remove(x: u64, s: u64)
    requires
        s < 64,
    ensures
        forall|i: u64| #[trigger] bit_set(x & !bit_of(s), i) == (bit_set(x, i) && i != s),
{
    assert forall|i: u64| #[trigger] bit_set(x & !bit_of(s), i) == (bit_set(x, i) && i != s) by {
        assert(i < 64 ==> (((x & !(1u64 << s)) >> i) & 1u64 == 1u64) == (((x >> i) & 1u64 == 1u64) && i != s))
            by (bit_vector)
            requires
                s < 64,
        ;
    }
}

/// Two words with the same set bits are the same word.
pub proof fn lemma_bits_ext(x: u64, y: u64)
    requires
        forall|i: u64| i < 64 ==> #[trigger] bit_set(x, i) == bit_set(y, i),
    ensures
        x == y,
{
    assert(x == y) by (bit_vector)
        requires
            bit_set(x, 0u64) == bit_set(y, 0u64),
            bit_set(x, 1u64) == bit_set(y, 1u64),
            bit_set(x, 2u64) == bit_set(y, 2u64),
            bit_set(x, 3u64) == bit_set(y, 3u64),
            bit_set(x, 4u64) == bit_set(y, 4u64),
            bit_set(x, 5u64) == bit_set(y, 5u64),
            bit_set(x, 6u64) == bit_set(y, 6u64),
            bit_set(x, 7u64) == bit_set(y, 7u64),
            bit_set(x, 8u64) == bit_set(y, 8u64),
            bit_set(x, 9u64) == bit_set(y, 9u64),
            bit_set(x, 10u64) == bit_set(y, 10u64),
            bit_set(x, 11u64) == bit_set(y, 11u64),
            bit_set(x, 12u64) == bit_set(y, 12u64),
            bit_set(x, 13u64) == bit_set(y, 13u64),
            bit_set(x, 14u64) == bit_set(y, 14u64),
            bit_set(x, 15u64) == bit_set(y, 15u64),
            bit_set(x, 16u64) == bit_set(y, 16u64),
            bit_set(x, 17u64) == bit_set(y, 17u64),
            bit_set(x, 18u64) == bit_set(y, 18u64),
            bit_set(x, 19u64) == bit_set(y, 19u64),
            bit_set(x, 20u64) == bit_set(y, 20u64),
            bit_set(x, 21u64) == bit_set(y, 21u64),
            bit_set(x, 22u64) == bit_set(y, 22u64),
            bit_set(x, 23u64) == bit_set(y, 23u64),
            bit_set(x, 24u64) == bit_set(y, 24u64),
            bit_set(x, 25u64) == bit_set(y, 25u64),
            bit_set(x, 26u64) == bit_set(y, 26u64),
            bit_set(x, 27u64) == bit_set(y, 27u64),
            bit_set(x, 28u64) == bit_set(y, 28u64),
            bit_set(x, 29u64) == bit_set(y, 29u64),
            bit_set(x, 30u64) == bit_set(y, 30u64),
            bit_set(x, 31u64) == bit_set(y, 31u64),
            bit_set(x, 32u64) == bit_set(y, 32u64),
            bit_set(x, 33u64) == bit_set(y, 33u64),
            bit_set(x, 34u64) == bit_set(y, 34u64),
            bit_set(x, 35u64) == bit_set(y, 35u64),
            bit_set(x, 36u64) == bit_set(y, 36u64),
            bit_set(x, 37u64) == bit_set(y, 37u64),
            bit_set(x, 38u64) == bit_set(y, 38u64),
            bit_set(x, 39u64) == bit_set(y, 39u64),
            bit_set(x, 40u64) == bit_set(y, 40u64),
            bit_set(x, 41u64) == bit_set(y, 41u64),
            bit_set(x, 42u64) == bit_set(y, 42u64),
            bit_set(x, 43u64) == bit_set(y, 43u64),
            bit_set(x, 44u64) == bit_set(y, 44u64),
            bit_set(x, 45u64) == bit_set(y, 45u64),
            bit_set(x, 46u64) == bit_set(y, 46u64),
            bit_set(x, 47u64) == bit_set(y, 47u64),
            bit_set(x, 48u64) == bit_set(y, 48u64),
            bit_set(x, 49u64) == bit_set(y, 49u64),
            bit_set(x, 50u64) == bit_set(y, 50u64),
            bit_set(x, 51u64) == bit_set(y, 51u64),
            bit_set(x, 52u64) == bit_set(y, 52u64),
            bit_set(x, 53u64) == bit_set(y, 53u64),
            bit_set(x, 54u64) == bit_set(y, 54u64),
            bit_set(x, 55u64) == bit_set(y, 55u64),
            bit_set(x, 56u64) == bit_set(y, 56u64),
            bit_set(x, 57u64) == bit_set(y, 57u64),
            bit_set(x, 58u64) == bit_set(y, 58u64),
            bit_set(x, 59u64) == bit_set(y, 59u64),
            bit_set(x, 60u64) == bit_set(y, 60u64),
            bit_set(x, 61u64) == bit_set(y, 61u64),
            bit_set(x, 62u64) == bit_set(y, 62u64),
            bit_set(x, 63u64) == bit_set(y, 63u64),
    ;
}

/// The word with no bit set has no set bits.
proof fn lemma_zero_bits()
    ensures
        forall|i: u64| !#[trigger] bit_set(0, i),
{
    assert forall|i: u64| !#[trigger] bit_set(0, i) by {
        assert((0u64 >> i) & 1u64 == 0u64) by (bit_vector);
    }
}

proof fn lemma_count_add(x: u64, s: u64, i: int)
    requires
        s < 64,
        0 <= i <= 64,
    ensures
        set_bits_from(x | bit_of(s), i).len() == set_bits_from(x, i).len() + (if i <= s && !bit_set(x, s) {
            1int
        } else {
            0int
        }),
    decreases 64 - i,
{
    lemma_bit_add(x, s);
    if i < 64 {
        lemma_count_add(x, s, i + 1);
        assert(bit_set(x | bit_of(s), i as u64) == (bit_set(x, i as u64) || i == s));
    }
}

/// A set of squares held as a 64-bit word: bit `i` set means square `i` is in the set.
#[derive(Clone, Copy, Debug, PartialEq, Eq, Structural)]
pub struct Bitboard(pub u64);

impl Bitboard {
    /// Whether the set holds square `s`.
    pub open spec fn contains(self, s: Square) -> bool {
        bit_set(self.0, s.spec_index() as u64)
    }

    /// The squares of the set, as ordinals in increasing order.
    pub open spec fn squares_spec(self) -> Seq<int> {
        set_bits(self.0)
    }

    /// The bitboard of the raw word `bb`.
    pub fn new(bb: u64) -> (r: Bitboard)
        ensures
            r.0 == bb,
    {
        Bitboard(bb)
    }

    /// The empty set.
    pub fn empty() -> (r: Bitboard)
        ensures
            r.0 == 0,
            forall|i: u64| !#[trigger] bit_set(r.0, i),
            forall|s: Square| !#[trigger] r.contains(s),
    {
        proof {
            lemma_zero_bits();
        }
        Bitboard(0)
    }

    /// The number of squares in the set.
    pub fn pop_count(&self) -> (r: i32)
        ensures
            r == self.squares_spec().len(),
    {
        let mut x = self.0;
        let mut n: i32 = 0;
        proof {
            lemma_set_bits_from_shape(x, 0);
        }
        while x != 0
            invariant
                n + set_bits(x).len() == set_bits(self.0).len(),
                set_bits(self.0).len() <= 64,
                n >= 0,
            decreases set_bits(x).len(),
        {
            proof {
                lemma_clear_lowest(x);
            }
            x = x & (x - 1);
            n = n + 1;
        }
        proof {
            lemma_zero_bits();
            lemma_set_bits_skip(0, 0, 64);
        }
        n
    }

    /// Whether the set is empty.
    pub fn is_empty(&self) -> (r: bool)
        ensures
            r == (self.0 == 0),
            r == (self.squares_spec().len() == 0),
    {
        proof {
            if self.0 != 0 {
                lemma_clear_lowest(self.0);
            } else {
                lemma_zero_bits();
                lemma_set_bits_skip(0, 0, 64);
            }
        }
        self.0 == 0
    }

    /// Whether the set holds at least one square.
    pub fn is_not_empty(&self) -> (r: bool)
        ensures
            r == (self.0 != 0),
            r == (self.squares_spec().len() > 0),
    {
        !self.is_empty()
    }

    /// Whether the set holds `square`.
    pub fn has(&self, square: Square) -> (r: bool)
        requires
            square.spec_index() < 64,
        ensures
            r == self.contains(square),
    {
        let s = square.index() as u64;
        let m = square.bitboard();
        let x = self.0;
        assert(((x & (1u64 << s)) != 0) == ((x >> s) & 1u64 == 1u64)) by (bit_vector)
            requires
                s < 64,
        ;
        (x & m.0) != 0
    }

    /// Whether the set holds any of `squares`.
    pub fn has_any(&self, squares: &[Square]) -> (r: bool)
        requires
            forall|k: int| 0 <= k < squares@.len() ==> (#[trigger] squares@[k]).spec_index() < 64,
        ensures
            r == exists|k: int| 0 <= k < squares@.len() && self.contains(#[trigger] squares@[k]),
    {
        let mut k: usize = 0;
        while k < squares.len()
            invariant
                k <= squares@.len(),
                forall|j: int| 0 <= j < squares@.len() ==> (#[trigger] squares@[j]).spec_index() < 64,
                forall|j: int| 0 <= j < k ==> !self.contains(#[trigger] squares@[j]),
            decreases squares@.len() - k,
        {
            if self.has(squares[k]) {
                return true;
            }
            k = k + 1;
        }
        false
    }

    /// Puts `square` into the set.
    pub fn add(&mut self, square: Square)
        requires
            square.spec_index() < 64,
        ensures
            final(self).0 == old(self).0 | bit_of(square.spec_index() as u64),
            forall|j: u64| #[trigger] bit_set(final(self).0, j)
                == (bit_set(old(self).0, j) || j == square.spec_index() as u64),
            forall|s: Square| #[trigger] final(self).contains(s)
                == (old(self).contains(s) || s == square),
    {
        proof {
            lemma_bit_add(self.0, square.spec_index() as u64);
            assert forall|s: Square| #[trigger] (Bitboard(self.0 | bit_of(square.spec_index() as u64))).contains(s)
                == (self.contains(s) || s == square) by {
                crate::square::lemma_index_injective(s, square);
            }
        }
        *self = self.bitor(square.bitboard());
    }

    /// Takes `square` out of the set.
    pub fn remove(&mut self, square: Square)
        requires
            square.spec_index() < 64,
        ensures
            final(self).0 == old(self).0 & !bit_of(square.spec_index() as u64),
            forall|j: u64| #[trigger] bit_set(final(self).0, j)
                == (bit_set(old(self).0, j) && j != square.spec_index() as u64),
            forall|s: Square| #[trigger] final(self).contains(s)
                == (old(self).contains(s) && s != square),
    {
        proof {
            lemma_bit_remove(self.0, square.spec_index() as u64);
            assert forall|s: Square| #[trigger] (Bitboard(self.0 & !bit_of(square.spec_index() as u64))).contains(s)
                == (self.contains(s) && s != square) by {
                crate::square::lemma_index_injective(s, square);
            }
        }
        *self = self.bitand(square.bitboard().not());
    }

    /// The squares in both sets.
    pub fn bitand(self, rhs: Bitboard) -> (r: Bitboard)
        ensures
            r.0 == self.0 & rhs.0,
    {
        Bitboard(self.0 & rhs.0)
    }

    /// The squares in either set.
    pub fn bitor(self, rhs: Bitboard) -> (r: Bitboard)
        ensures
            r.0 == self.0 | rhs.0,
    {
        Bitboard(self.0 | rhs.0)
    }

    /// The squares in exactly one of the sets.
    pub fn bitxor(self, rhs: Bitboard) -> (r: Bitboard)
        ensures
            r.0 == self.0 ^ rhs.0,
    {
        Bitboard(self.0 ^ rhs.0)
    }

    /// The squares not in the set.
    pub fn not(self) -> (r: Bitboard)
        ensures
            r.0 == !self.0,
    {
        Bitboard(!self.0)
    }

    /// Every square moved `rhs` ordinals up; those that leave the board are dropped.
    pub fn shl(self, rhs: i32) -> (r: Bitboard)
        requires
            0 <= rhs < 64,
        ensures
            r.0 == self.0 << (rhs as u64),
    {
        Bitboard(self.0 << (rhs as u64))
    }

    /// Every square moved `rhs` ordinals down; those that leave the board are dropped.
    pub fn shr(self, rhs: i32) -> (r: Bitboard)
        requires
            0 <= rhs < 64,
        ensures
            r.0 == self.0 >> (rhs as u64),
    {
        Bitboard(self.0 >> (rhs as u64))
    }

    /// Keeps only the squares that are also in `rhs`.
    pub fn bitand_assign(&mut self, rhs: Bitboard)
        ensures
            final(self).0 == old(self).0 & rhs.0,
    {
        self.0 = self.0 & rhs.0;
    }

    /// Adds the squares of `rhs`.
    pub fn bitor_assign(&mut self, rhs: Bitboard)
        ensures
            final(self).0 == old(self).0 | rhs.0,
    {
        self.0 = self.0 | rhs.0;
    }

    /// Toggles the squares of `rhs`.
    pub fn bitxor_assign(&mut self, rhs: Bitboard)
        ensures
            final(self).0 == old(self).0 ^ rhs.0,
    {
        self.0 = self.0 ^ rhs.0;
    }

    /// A one-shot walk over the squares of the set, lowest ordinal first.
    pub fn into_iter(self) -> (r: BitBoardIter)
        ensures
            r.remaining() == self.squares_spec(),
    {
        BitBoardIter(self)
    }

    /// The squares of the set in increasing order.
    pub fn squares(self) -> (r: Vec<Square>)
        ensures
            r@.len() == self.squares_spec().len(),
            forall|k: int| 0 <= k < r@.len()
                ==> #[trigger] r@[k] == Square::spec_from_index(self.squares_spec()[k]),
    {
        let mut it = self.into_iter();
        let mut out: Vec<Square> = Vec::new();
        while it.len() > 0
            invariant
                self.squares_spec() == out@.map_values(|s: Square| s.spec_index() as int)
                    + it.remaining(),
                forall|k: int| 0 <= k < out@.len() ==> (#[trigger] out@[k]).spec_index() < 64,
            decreases it.remaining().len(),
        {
            let ghost old_it = it;
            match it.next() {
                Some(s) => {
                    out.push(s);
                    proof {
                        lemma_set_bits_from_shape(old_it.0.0, 0);
                        crate::square::lemma_from_index(old_it.remaining()[0]);
                    }
                    assert(self.squares_spec() =~= out@.map_values(|s: Square| s.spec_index() as int)
                        + it.remaining());
                },
                None => {},
            }
        }
        proof {
            assert forall|k: int| 0 <= k < out@.len()
                implies #[trigger] out@[k] == Square::spec_from_index(self.squares_spec()[k]) by {
                assert(self.squares_spec()[k] == out@.map_values(|s: Square| s.spec_index() as int)[k]);
                crate::square::lemma_index_from(out@[k]);
            }
        }
        out
    }
}

/// Adding a square to a set puts it in and grows the count by one, or by none when the
/// square was there already; removing a square takes it out.
pub proof fn lemma_add_remove(b: Bitboard, s: Square)
    requires
        s.spec_index() < 64,
    ensures
        Bitboard(b.0 | bit_of(s.spec_index() as u64)).contains(s),
        Bitboard(b.0 | bit_of(s.spec_index() as u64)).squares_spec().len() == b.squares_spec().len()
            + if b.contains(s) {
            0int
        } else {
            1int
        },
        !Bitboard(b.0 & !bit_of(s.spec_index() as u64)).contains(s),
{
    let i = s.spec_index() as u64;
    lemma_bit_add(b.0, i);
    lemma_bit_remove(b.0, i);
    lemma_count_add(b.0, i, 0);
}

/// Walking a set hands out each of its squares exactly once, in strictly increasing order;
/// the walk is as long as the set's count.
pub proof fn lemma_walk_order(b: Bitboard)
    ensures
        forall|k: int, l: int| 0 <= k < l < b.squares_spec().len()
            ==> #[trigger] b.squares_spec()[k] < #[trigger] b.squares_spec()[l],
        forall|k: int| 0 <= k < b.squares_spec().len() ==> 0 <= #[trigger] b.squares_spec()[k] < 64
            && b.contains(Square::spec_from_index(b.squares_spec()[k])),
        forall|s: Square| s.spec_index() < 64 && #[trigger] b.contains(s)
            ==> b.squares_spec().contains(s.spec_index() as int),
{
    lemma_set_bits_from_shape(b.0, 0);
    assert forall|k: int| 0 <= k < b.squares_spec().len() implies 0 <= #[trigger] b.squares_spec()[k] < 64
        && b.contains(Square::spec_from_index(b.squares_spec()[k])) by {
        crate::square::lemma_from_index(b.squares_spec()[k]);
    }
    assert forall|s: Square| s.spec_index() < 64 && #[trigger] b.contains(s)
        implies b.squares_spec().contains(s.spec_index() as int) by {
        assert(bit_set(b.0, s.spec_index() as u64));
    }
}

/// A one-shot walk over the squares of a bitboard, lowest ordinal first; each square is
/// dropped from its own copy of the set as it is handed out.
pub struct BitBoardIter(Bitboard);

impl BitBoardIter {
    /// The ordinals still to come, in the order they will come.
    pub closed spec fn remaining(self) -> Seq<int> {
        set_bits(self.0.0)
    }

    /// Hands out the lowest square left, or `None` once the set is spent.
    pub fn next(&mut self) -> (r: Option<Square>)
        ensures
            old(self).remaining().len() == 0 ==> r is None && final(self).remaining() == old(self).remaining(),
            old(self).remaining().len() > 0 ==> {
                &&& r == Some(Square::spec_from_index(old(self).remaining()[0]))
                &&& final(self).remaining() == old(self).remaining().drop_first()
            },
    {
        let x = self.0.0;
        if x == 0 {
            proof {
                lemma_zero_bits();
                lemma_set_bits_skip(0, 0, 64);
            }
            None
        } else {
            proof {
                lemma_clear_lowest(x);
                vstd::std_specs::bits::axiom_u64_trailing_zeros(x);
            }
            let sq = x.trailing_zeros() as u8;
            self.0.0 = x & (x - 1);
            Some(Square::new(sq))
        }
    }

    /// How many squares are left.
    pub fn len(&self) -> (r: usize)
        ensures
            r == self.remaining().len(),
    {
        self.0.pop_count() as usize
    }
}

impl Default for Bitboard {
    /// The empty set.
    fn default() -> (r: Bitboard)
        ensures
            r.0 == 0,
    {
        Bitboard(0)
    }
}

} // verus!
