use vstd::prelude::*;

use crate::text::{no_space, push_char};

verus! {

/// One of the four castling privileges.
#[derive(Clone, Copy, Debug, PartialEq, Eq, Structural)]
pub enum CastlingRight {
    WhiteKingside,
    BlackKingside,
    WhiteQueenside,
    BlackQueenside,
}

impl CastlingRight {
    /// The flag of the right within a set of rights.
    pub open spec fn spec_flag(self) -> u8 {
        match self {
            CastlingRight::WhiteKingside => 1,
            CastlingRight::BlackKingside => 2,
            CastlingRight::WhiteQueenside => 4,
            CastlingRight::BlackQueenside => 8,
        }
    }

    /// The flag of the right within a set of rights.
    #[verifier::when_used_as_spec(spec_flag)]
    pub fn flag(self) -> (r: u8)
        ensures
            r == self.spec_flag(),
    {
        match self {
            CastlingRight::WhiteKingside => 1,
            CastlingRight::BlackKingside => 2,
            CastlingRight::WhiteQueenside => 4,
            CastlingRight::BlackQueenside => 8,
        }
    }

    /// The FEN letter of the right.
    pub fn char(&self) -> (r: char)
        ensures
            r == right_char(*self),
    {
        match self {
            CastlingRight::WhiteKingside => 'K',
            CastlingRight::BlackKingside => 'k',
            CastlingRight::WhiteQueenside => 'Q',
            CastlingRight::BlackQueenside => 'q',
        }
    }
}

/// The FEN letter of a castling right.
pub open spec fn right_char(r: CastlingRight) -> char {
    match r {
        CastlingRight::WhiteKingside => 'K',
        CastlingRight::BlackKingside => 'k',
        CastlingRight::WhiteQueenside => 'Q',
        CastlingRight::BlackQueenside => 'q',
    }
}

/// A set of castling rights, one flag per right.
#[derive(Clone, Copy, Debug, PartialEq, Eq, Structural)]
pub struct CastlingRights {
    raw: u8,
}

impl CastlingRights {
    /// The set holds no flag outside the four rights.
    pub closed spec fn wf(self) -> bool {
        self.raw < 16
    }

    /// Whether the set holds right `r`.
    pub closed spec fn holds(self, r: CastlingRight) -> bool {
        self.raw & r.spec_flag() != 0
    }

    /// The empty set.
    pub closed spec fn spec_none() -> CastlingRights {
        CastlingRights { raw: 0 }
    }

    /// The set with right `r` put in.
    pub closed spec fn spec_add(self, r: CastlingRight) -> CastlingRights {
        CastlingRights { raw: self.raw | r.spec_flag() }
    }

    /// Whether the set is empty.
    pub open spec fn is_none(self) -> bool {
        !self.holds(CastlingRight::WhiteKingside) && !self.holds(CastlingRight::BlackKingside)
            && !self.holds(CastlingRight::WhiteQueenside) && !self.holds(CastlingRight::BlackQueenside)
    }

    /// No rights.
    pub fn none() -> (r: CastlingRights)
        ensures
            r == CastlingRights::spec_none(),
            r.wf(),
            forall|c: CastlingRight| !#[trigger] r.holds(c),
    {
        assert(forall|f: u8| #[trigger] (0u8 & f) == 0) by (bit_vector);
        CastlingRights { raw: 0 }
    }

    /// All four rights.
    pub fn all() -> (r: CastlingRights)
        ensures
            r.wf(),
            forall|c: CastlingRight| #[trigger] r.holds(c),
    {
        let raw = CastlingRight::WhiteKingside.flag() | CastlingRight::BlackKingside.flag()
            | CastlingRight::WhiteQueenside.flag() | CastlingRight::BlackQueenside.flag();
        assert(raw == 15) by (bit_vector)
            requires
                raw == 1u8 | 2u8 | 4u8 | 8u8,
        ;
        assert(15u8 & 1u8 != 0 && 15u8 & 2u8 != 0 && 15u8 & 4u8 != 0 && 15u8 & 8u8 != 0) by (bit_vector);
        CastlingRights { raw }
    }

    /// Whether the set holds `castling_right`.
    pub fn can_castle(&self, castling_right: CastlingRight) -> (r: bool)
        ensures
            r == self.holds(castling_right),
    {
        self.raw & castling_right.flag() != 0
    }

    /// Puts `castling_right` into the set.
    pub fn add(&mut self, castling_right: CastlingRight)
        requires
            old(self).wf(),
        ensures
            *final(self) == old(self).spec_add(castling_right),
            final(self).wf(),
            forall|c: CastlingRight| #[trigger] final(self).holds(c)
                == (old(self).holds(c) || c == castling_right),
    {
        let x = self.raw;
        let f = castling_right.flag();
        assert(x | f < 16 && forall|g: u8| (g == 1 || g == 2 || g == 4 || g == 8) ==> (
            #[trigger] ((x | f) & g) != 0) == ((x & g) != 0 || g == f)) by (bit_vector)
            requires
                x < 16,
                f == 1 || f == 2 || f == 4 || f == 8,
        ;
        self.raw = x | f;
    }

    /// Takes `castling_right` out of the set.
    pub fn remove(&mut self, castling_right: CastlingRight)
        requires
            old(self).wf(),
        ensures
            final(self).wf(),
            forall|c: CastlingRight| #[trigger] final(self).holds(c)
                == (old(self).holds(c) && c != castling_right),
    {
        let x = self.raw;
        let f = castling_right.flag();
        assert(x & !f < 16 && forall|g: u8| (g == 1 || g == 2 || g == 4 || g == 8) ==> (
            #[trigger] ((x & !f) & g) != 0) == ((x & g) != 0 && g != f)) by (bit_vector)
            requires
                x < 16,
                f == 1 || f == 2 || f == 4 || f == 8,
        ;
        self.raw = x & !f;
    }

    /// The FEN text of the set: the letters of the rights held, in the order `K k Q q`,
    /// or `-` when none is held.
    pub fn to_string(&self) -> (r: String)
        ensures
            r@ == castling_text(*self),
    {
        let mut s = String::new();
        if !self.can_castle(CastlingRight::WhiteKingside) && !self.can_castle(CastlingRight::BlackKingside)
            && !self.can_castle(CastlingRight::WhiteQueenside)
            && !self.can_castle(CastlingRight::BlackQueenside) {
            push_char(&mut s, '-');
            return s;
        }
        let rights = [
            CastlingRight::WhiteKingside,
            CastlingRight::BlackKingside,
            CastlingRight::WhiteQueenside,
            CastlingRight::BlackQueenside,
        ];
        let mut k: usize = 0;
        while k < 4
            invariant
                k <= 4,
                rights@ == castling_order(),
                s@ == castling_letters(*self, k as int),
            decreases 4 - k,
        {
            let right = rights[k];
            if self.can_castle(right) {
                push_char(&mut s, right.char());
            }
            k = k + 1;
        }
        s
    }
}

/// The four rights in their FEN order.
pub open spec fn castling_order() -> Seq<CastlingRight> {
    seq![
        CastlingRight::WhiteKingside,
        CastlingRight::BlackKingside,
        CastlingRight::WhiteQueenside,
        CastlingRight::BlackQueenside,
    ]
}

/// The letters of the rights among the first `k` of the FEN order that `c` holds.
pub open spec fn castling_letters(c: CastlingRights, k: int) -> Seq<char>
    decreases k,
{
    if k <= 0 {
        Seq::empty()
    } else {
        let r = castling_order()[k - 1];
        let prev = castling_letters(c, k - 1);
        if c.holds(r) {
            prev.push(right_char(r))
        } else {
            prev
        }
    }
}

/// The FEN text of a set of rights.
pub open spec fn castling_text(c: CastlingRights) -> Seq<char> {
    if c.is_none() {
        seq!['-']
    } else {
        castling_letters(c, 4)
    }
}

/// Putting right `r` into a set grants `r` and keeps every other right as it was; the
/// empty set grants none; both keep a set well-formed.
pub proof fn lemma_add_holds(c: CastlingRights, r: CastlingRight, r2: CastlingRight)
    ensures
        c.spec_add(r).holds(r2) == (c.holds(r2) || r2 == r),
        c.wf() ==> c.spec_add(r).wf(),
        !CastlingRights::spec_none().holds(r2),
        CastlingRights::spec_none().wf(),
{
    let x = c.raw;
    let f = r.spec_flag();
    let g = r2.spec_flag();
    assert(((x | f) & g != 0) == (x & g != 0 || g == f) && (x < 16 ==> x | f < 16) && 0u8 & g == 0)
        by (bit_vector)
        requires
            f == 1 || f == 2 || f == 4 || f == 8,
            g == 1 || g == 2 || g == 4 || g == 8,
    ;
}

/// Two well-formed sets that grant the same rights are the same set.
pub proof fn lemma_rights_ext(a: CastlingRights, b: CastlingRights)
    requires
        a.wf(),
        b.wf(),
        forall|r: CastlingRight| #[trigger] a.holds(r) == b.holds(r),
    ensures
        a == b,
{
    let x = a.raw;
    let y = b.raw;
    assert(a.holds(CastlingRight::WhiteKingside) == b.holds(CastlingRight::WhiteKingside));
    assert(a.holds(CastlingRight::BlackKingside) == b.holds(CastlingRight::BlackKingside));
    assert(a.holds(CastlingRight::WhiteQueenside) == b.holds(CastlingRight::WhiteQueenside));
    assert(a.holds(CastlingRight::BlackQueenside) == b.holds(CastlingRight::BlackQueenside));
    assert(x == y) by (bit_vector)
        requires
            x < 16,
            y < 16,
            (x & 1u8 != 0) == (y & 1u8 != 0),
            (x & 2u8 != 0) == (y & 2u8 != 0),
            (x & 4u8 != 0) == (y & 4u8 != 0),
            (x & 8u8 != 0) == (y & 8u8 != 0),
    ;
}

/// The right that a letter of a FEN castling field names, if any.
pub open spec fn right_of_letter(c: char) -> Option<CastlingRight> {
    if c == 'K' {
        Some(CastlingRight::WhiteKingside)
    } else if c == 'k' {
        Some(CastlingRight::BlackKingside)
    } else if c == 'Q' {
        Some(CastlingRight::WhiteQueenside)
    } else if c == 'q' {
        Some(CastlingRight::BlackQueenside)
    } else {
        None
    }
}

/// The rights that a FEN castling field grants: each of `K k Q q` adds its right, and
/// every other character adds none.
pub open spec fn rights_of_letters(t: Seq<char>) -> CastlingRights
    decreases t.len(),
{
    if t.len() == 0 {
        CastlingRights::spec_none()
    } else {
        let prev = rights_of_letters(t.drop_last());
        match right_of_letter(t.last()) {
            Some(r) => prev.spec_add(r),
            None => prev,
        }
    }
}

/// The characters of a FEN castling field that name no right and are not `-`.
pub open spec fn ignored_letters(t: Seq<char>) -> Seq<char>
    decreases t.len(),
{
    if t.len() == 0 {
        Seq::empty()
    } else {
        let prev = ignored_letters(t.drop_last());
        if right_of_letter(t.last()) is None && t.last() != '-' {
            prev.push(t.last())
        } else {
            prev
        }
    }
}

/// The flags of the first `k` rights of the FEN order.
spec fn prefix_mask(k: int) -> u8 {
    if k <= 0 {
        0
    } else if k == 1 {
        1
    } else if k == 2 {
        3
    } else if k == 3 {
        7
    } else {
        15
    }
}

proof fn lemma_mask_step(x: u8, mp: u8, f: u8, mn: u8)
    by (bit_vector)
    requires
        mn == mp | f,
        f == 1 || f == 2 || f == 4 || f == 8,
    ensures
        x & f != 0 ==> (x & mp) | f == x & mn,
        x & f == 0 ==> x & mp == x & mn,
{
}

proof fn lemma_letters_prefix(c: CastlingRights, k: int)
    requires
        c.wf(),
        0 <= k <= 4,
    ensures
        rights_of_letters(castling_letters(c, k)).raw == c.raw & prefix_mask(k),
        no_space(castling_letters(c, k)),
    decreases k,
{
    let x = c.raw;
    if k == 0 {
        assert(x & 0u8 == 0) by (bit_vector);
    } else {
        lemma_letters_prefix(c, k - 1);
        let r = castling_order()[k - 1];
        assert(0u8 | 1u8 == 1u8 && 1u8 | 2u8 == 3u8 && 3u8 | 4u8 == 7u8 && 7u8 | 8u8 == 15u8) by (bit_vector);
        lemma_mask_step(x, prefix_mask(k - 1), r.spec_flag(), prefix_mask(k));
        let prev = castling_letters(c, k - 1);
        if c.holds(r) {
            assert(castling_letters(c, k).drop_last() == prev);
        }
    }
}

/// Every castling field grants a well-formed set.
pub proof fn lemma_rights_of_letters_wf(t: Seq<char>)
    ensures
        rights_of_letters(t).wf(),
    decreases t.len(),
{
    if t.len() > 0 {
        lemma_rights_of_letters_wf(t.drop_last());
        let x = rights_of_letters(t.drop_last()).raw;
        assert(forall|f: u8| (f == 1 || f == 2 || f == 4 || f == 8) ==> #[trigger] (x | f) < 16) by (bit_vector)
            requires
                x < 16,
        ;
    }
}

/// Reading back the FEN text of a well-formed set gives the set.
pub proof fn lemma_castling_text_round_trip(c: CastlingRights)
    requires
        c.wf(),
    ensures
        rights_of_letters(castling_text(c)) == c,
        no_space(castling_text(c)),
{
    let x = c.raw;
    if c.is_none() {
        assert(x == 0) by (bit_vector)
            requires
                x < 16,
                x & 1u8 == 0,
                x & 2u8 == 0,
                x & 4u8 == 0,
                x & 8u8 == 0,
        ;
        assert(castling_text(c) == seq!['-']);
        assert(seq!['-'].drop_last() =~= Seq::<char>::empty());
        assert(seq!['-'].last() == '-');
        assert(rights_of_letters(seq!['-']) == rights_of_letters(Seq::<char>::empty()));
        assert(c == CastlingRights::spec_none());
    } else {
        lemma_letters_prefix(c, 4);
        assert(x & 15u8 == x) by (bit_vector)
            requires
                x < 16,
        ;
        assert(castling_text(c) == castling_letters(c, 4));
        assert(rights_of_letters(castling_letters(c, 4)).raw == x);
    }
}

impl Default for CastlingRights {
    /// No rights.
    fn default() -> (r: CastlingRights)
        ensures
            r == CastlingRights::spec_none(),
            r.wf(),
    {
        CastlingRights::none()
    }
}

} // verus!
