use vstd::prelude::*;

use crate::bitboard::{bit_set, Bitboard};
use crate::castling_rights::{
    castling_text, ignored_letters, rights_of_letters, CastlingRights,
};
use crate::color::{color_char, Color};
use crate::piece::{piece_char, piece_of_char, Piece};
use crate::square::{algebraic_text, parse_algebraic, Square};

pub use crate::square::BOARD_SIZE;
use crate::text::{
    chars_of, decimal_text, digit_char, digit_value, is_digit, parse_count, parse_count_chars,
    push_char, push_decimal, split_on_spaces, split_spaces, string_of,
};

verus! {

broadcast use vstd::array::group_array_axioms;

/// What a position holds, as the contracts see it: the piece on each of the 64 squares,
/// the side to move, the en-passant target (`NoSquare` when there is none), the castling
/// rights and the two move counters.
pub struct BoardView {
    pub pieces: Seq<Piece>,
    pub current_color: Color,
    pub en_passant_square: Square,
    pub castling_rights: CastlingRights,
    pub half_moves: usize,
    pub full_moves: usize,
}

/// 64 empty squares.
pub open spec fn empty_pieces() -> Seq<Piece> {
    Seq::new(64, |i: int| Piece::NoPiece)
}

/// The view of the board that FEN parsing starts from: no pieces, White to move, no
/// en-passant target, no castling rights, counters 0 and 1.
pub open spec fn start_view() -> BoardView {
    BoardView {
        pieces: empty_pieces(),
        current_color: Color::White,
        en_passant_square: Square::NoSquare,
        castling_rights: CastlingRights::spec_none(),
        half_moves: 0,
        full_moves: 1,
    }
}

/// `v` with piece `p` on square `i`.
pub open spec fn with_piece(v: BoardView, i: int, p: Piece) -> BoardView {
    BoardView { pieces: v.pieces.update(i, p), ..v }
}

/// The square that FEN placement reaches after `k` squares: FEN lists rank 8 first, from
/// file a to file h, and square 0 is a1.
pub open spec fn cursor_square(k: int) -> int {
    k % 8 + 8 * (7 - k / 8)
}

/// One character of a FEN placement field applied to the cursor and the pieces so far:
/// `/` changes nothing, a digit skips that many squares (never past the end of the board),
/// a piece letter puts its piece at the cursor and moves on; any other character, or a
/// piece past the last square, fails.
pub open spec fn place_step(st: Option<(int, Seq<Piece>)>, ch: char) -> Option<(int, Seq<Piece>)> {
    match st {
        None => None,
        Some((k, ps)) => {
            if ch == '/' {
                Some((k, ps))
            } else if is_digit(ch) {
                Some((if k + digit_value(ch) > 64 { 64 } else { k + digit_value(ch) }, ps))
            } else {
                match piece_of_char(ch) {
                    None => None,
                    Some(p) => if k >= 64 {
                        None
                    } else {
                        Some((k + 1, ps.update(cursor_square(k), p)))
                    },
                }
            }
        },
    }
}

/// The characters of `t` applied one after the other from `st`.
pub open spec fn place_run(st: Option<(int, Seq<Piece>)>, t: Seq<char>) -> Option<(int, Seq<Piece>)>
    decreases t.len(),
{
    if t.len() == 0 {
        st
    } else {
        place_step(place_run(st, t.drop_last()), t.last())
    }
}

/// The pieces that a FEN placement field puts on an empty board, or `None` when it fails.
pub open spec fn placement_of(t: Seq<char>) -> Option<Seq<Piece>> {
    match place_run(Some((0, empty_pieces())), t) {
        Some((_, ps)) => Some(ps),
        None => None,
    }
}

/// The side that a FEN active-color field names: exactly `w` or `b`.
pub open spec fn color_of_text(t: Seq<char>) -> Option<Color> {
    if t == seq!['w'] {
        Some(Color::White)
    } else if t == seq!['b'] {
        Some(Color::Black)
    } else {
        None
    }
}

/// The position that FEN text describes, or `Err` when it has fewer than four fields, its
/// placement fails, or its active color is neither `w` nor `b`. The castling field grants
/// the rights its letters name; the en-passant field is read as algebraic text (the
/// sentinel when it is not); a missing or malformed half-move count is 0 and a missing or
/// malformed full-move number is 1.
pub open spec fn fen_board(s: Seq<char>) -> Result<BoardView, ()> {
    let f = split_spaces(s);
    if f.len() < 4 {
        Err(())
    } else {
        match (placement_of(f[0]), color_of_text(f[1])) {
            (Some(ps), Some(c)) => Ok(
                BoardView {
                    pieces: ps,
                    current_color: c,
                    en_passant_square: parse_algebraic(f[3]),
                    castling_rights: rights_of_letters(f[2]),
                    half_moves: if f.len() > 4 {
                        match parse_count(f[4]) {
                            Some(n) => n,
                            None => 0,
                        }
                    } else {
                        0
                    },
                    full_moves: if f.len() > 5 {
                        match parse_count(f[5]) {
                            Some(n) => n,
                            None => 1,
                        }
                    } else {
                        1
                    },
                },
            ),
            _ => Err(()),
        }
    }
}

/// The characters of FEN text's castling field that were ignored.
pub open spec fn fen_ignored(s: Seq<char>) -> Seq<char> {
    ignored_letters(split_spaces(s)[2])
}

/// The digit of an empty run, when there is one.
pub open spec fn run_text(run: int) -> Seq<char> {
    if run > 0 {
        seq![digit_char(run)]
    } else {
        Seq::empty()
    }
}

/// The FEN text of files `f` to h of `rank`, after an empty run of `run` squares.
pub open spec fn row_text(ps: Seq<Piece>, rank: int, f: int, run: int) -> Seq<char>
    decreases 8 - f,
{
    if f >= 8 {
        run_text(run)
    } else {
        match piece_char(ps[f + 8 * rank]) {
            None => row_text(ps, rank, f + 1, run + 1),
            Some(c) => run_text(run) + seq![c] + row_text(ps, rank, f + 1, 0),
        }
    }
}

/// The FEN text of ranks `r` down to 1 (rank 1 is 0), separated by `/`.
pub open spec fn ranks_text(ps: Seq<Piece>, r: int) -> Seq<char>
    decreases r,
{
    if r <= 0 {
        row_text(ps, 0, 0, 0)
    } else {
        row_text(ps, r, 0, 0) + seq!['/'] + ranks_text(ps, r - 1)
    }
}

/// The FEN placement field of the pieces: rank 8 first, each empty run as one digit.
pub open spec fn placement_text(ps: Seq<Piece>) -> Seq<char> {
    ranks_text(ps, 7)
}

/// The FEN en-passant field: the algebraic text of the target, or `-`.
pub open spec fn en_passant_text(s: Square) -> Seq<char> {
    if s == Square::NoSquare {
        seq!['-']
    } else {
        algebraic_text(s)
    }
}

/// The FEN text of a position: placement, active color, castling, en passant, half-move
/// count and full-move number, separated by single spaces.
pub open spec fn fen_text(v: BoardView) -> Seq<char> {
    placement_text(v.pieces) + seq![' ', color_char(v.current_color), ' '] + castling_text(
        v.castling_rights,
    ) + seq![' '] + en_passant_text(v.en_passant_square) + seq![' '] + decimal_text(
        v.half_moves as nat,
    ) + seq![' '] + decimal_text(v.full_moves as nat)
}

/// A position: the piece on each square, kept together with one bitboard per piece and
/// one per color that always agree with it.
#[derive(Clone, Copy, Debug, PartialEq, Eq)]
pub struct Board {
    current_color: Color,
    pieces: [Piece; 64],
    piece_bitboards: [Bitboard; 12],
    color_bitboards: [Bitboard; 2],
    en_passant_square: Square,
    castling_rights: CastlingRights,
    half_moves: usize,
    full_moves: usize,
}

impl View for Board {
    type V = BoardView;

    closed spec fn view(&self) -> BoardView {
        BoardView {
            pieces: self.pieces@,
            current_color: self.current_color,
            en_passant_square: self.en_passant_square,
            castling_rights: self.castling_rights,
            half_moves: self.half_moves,
            full_moves: self.full_moves,
        }
    }
}

impl Board {
    /// The bitboards agree with the pieces: square `i` is in the bitboard of piece `p`
    /// exactly when `p` stands on it, and in the bitboard of color `c` exactly when a
    /// piece of color `c` stands on it.
    pub closed spec fn wf(&self) -> bool {
        &&& self.castling_rights.wf()
        &&& forall|p: int, i: u64|
            0 <= p < 12 && i < 64 ==> #[trigger] bit_set(self.piece_bitboards@[p].0, i) == (
            self.pieces@[i as int].spec_index() == p)
        &&& forall|c: int, i: u64|
            0 <= c < 2 && i < 64 ==> #[trigger] bit_set(self.color_bitboards@[c].0, i) == (
            self.pieces@[i as int] != Piece::NoPiece && self.pieces@[i as int].spec_index() % 2 == c)
    }

    /// Puts `piece` on `square`, replacing what stood there, and keeps every bitboard in
    /// step; `NoPiece` empties the square.
    pub fn add_piece(&mut self, piece: Piece, square: Square)
        requires
            old(self).wf(),
            square.spec_index() < 64,
        ensures
            final(self).wf(),
            final(self)@ == with_piece(old(self)@, square.spec_index() as int, piece),
    {
        let i = square.index() as usize;
        let old_piece = self.pieces[i];
        if old_piece != Piece::NoPiece {
            let pi = old_piece.index() as usize;
            let mut bb = self.piece_bitboards[pi];
            bb.remove(square);
            self.piece_bitboards[pi] = bb;
            let ci = old_piece.get_color().index() as usize;
            let mut cb = self.color_bitboards[ci];
            cb.remove(square);
            self.color_bitboards[ci] = cb;
        }
        if piece != Piece::NoPiece {
            let pi = piece.index() as usize;
            let mut bb = self.piece_bitboards[pi];
            bb.add(square);
            self.piece_bitboards[pi] = bb;
            let ci = piece.get_color().index() as usize;
            let mut cb = self.color_bitboards[ci];
            cb.add(square);
            self.color_bitboards[ci] = cb;
        }
        self.pieces[i] = piece;
        assert(self@ =~= with_piece(old(self)@, square.spec_index() as int, piece));
    }

    /// The piece on `square`.
    pub fn piece_at(&self, square: Square) -> (r: Piece)
        requires
            square.spec_index() < 64,
        ensures
            r == self@.pieces[square.spec_index() as int],
    {
        self.pieces[square.index() as usize]
    }

    /// The squares that hold `piece`.
    pub fn piece_bitboard(&self, piece: Piece) -> (r: Bitboard)
        requires
            self.wf(),
            piece != Piece::NoPiece,
        ensures
            forall|i: u64| i < 64 ==> #[trigger] bit_set(r.0, i) == (self@.pieces[i as int] == piece),
    {
        proof {
            assert forall|i: u64| i < 64 implies #[trigger] bit_set(self.piece_bitboards@[piece.spec_index() as int].0, i)
                == (self@.pieces[i as int] == piece) by {
                crate::piece::lemma_piece_index_injective(self@.pieces[i as int], piece);
            }
        }
        self.piece_bitboards[piece.index() as usize]
    }

    /// The squares that hold a piece of `color`.
    pub fn color_bitboard(&self, color: Color) -> (r: Bitboard)
        requires
            self.wf(),
        ensures
            forall|i: u64| i < 64 ==> #[trigger] bit_set(r.0, i) == (self@.pieces[i as int]
                != Piece::NoPiece && self@.pieces[i as int].spec_color() == Some(color)),
    {
        self.color_bitboards[color.index() as usize]
    }

    /// The side to move.
    pub fn current_color(&self) -> (r: Color)
        ensures
            r == self@.current_color,
    {
        self.current_color
    }

    /// The en-passant target, `NoSquare` when there is none.
    pub fn en_passant_square(&self) -> (r: Square)
        ensures
            r == self@.en_passant_square,
    {
        self.en_passant_square
    }

    /// The castling rights.
    pub fn castling_rights(&self) -> (r: CastlingRights)
        ensures
            r == self@.castling_rights,
            self.wf() ==> r.wf(),
    {
        self.castling_rights
    }

    /// The number of half-moves since the last capture or pawn move.
    pub fn half_moves(&self) -> (r: usize)
        ensures
            r == self@.half_moves,
    {
        self.half_moves
    }

    /// The full-move number.
    pub fn full_moves(&self) -> (r: usize)
        ensures
            r == self@.full_moves,
    {
        self.full_moves
    }
}

/// The digit of an empty run of one to eight squares.
fn char_of_run(run: u8) -> (c: char)
    requires
        0 < run <= 8,
    ensures
        c == digit_char(run as int),
        run_text(run as int) == seq![c],
{
    ((48 + run) as u8) as char
}

/// Running characters one after the other: the run over `a + b` is the run over `b` from
/// where the run over `a` ended.
pub proof fn lemma_place_run_concat(st: Option<(int, Seq<Piece>)>, a: Seq<char>, b: Seq<char>)
    ensures
        place_run(st, a + b) == place_run(place_run(st, a), b),
    decreases b.len(),
{
    if b.len() == 0 {
        assert(a + b =~= a);
    } else {
        assert((a + b).drop_last() =~= a + b.drop_last());
        lemma_place_run_concat(st, a, b.drop_last());
    }
}

/// A failed run stays failed.
pub proof fn lemma_place_run_failed(t: Seq<char>)
    ensures
        place_run(None, t) is None,
    decreases t.len(),
{
    if t.len() > 0 {
        lemma_place_run_failed(t.drop_last());
    }
}

/// A placement whose run fails on some prefix fails as a whole.
proof fn lemma_placement_fails_at(t: Seq<char>, i: int)
    requires
        0 <= i < t.len(),
        place_run(Some((0, empty_pieces())), t.take(i + 1)) is None,
    ensures
        placement_of(t) is None,
{
    lemma_place_run_failed(t.skip(i + 1));
    lemma_place_run_concat(Some((0, empty_pieces())), t.take(i + 1), t.skip(i + 1));
    assert(t.take(i + 1) + t.skip(i + 1) =~= t);
}

impl Board {
    /// Parses FEN text (see `fen_board` for what each field does), and also returns the
    /// characters of the castling field that name no right and were ignored.
    pub fn from_fen_with_warnings(fen: &str) -> (r: Result<(Board, Vec<char>), ()>)
        ensures
            fen_board(fen@) is Err <==> r is Err,
            r is Ok ==> r->Ok_0.0.wf() && r->Ok_0.0@ == fen_board(fen@)->Ok_0
                && r->Ok_0.1@ == fen_ignored(fen@),
    {
        let chars = chars_of(fen);
        let fields = split_on_spaces(&chars);
        let ghost f = split_spaces(fen@);
        if fields.len() < 4 {
            return Err(());
        }
        let mut board = Board::default();
        // Piece placement: FEN starts at a8 while square 0 is a1, so the cursor's rank is
        // counted from the top.
        let placement = &fields[0];
        let mut k: usize = 0;
        let mut i: usize = 0;
        while i < placement.len()
            invariant
                f == split_spaces(fen@),
                f.len() >= 4,
                placement@ == f[0],
                i <= placement@.len(),
                k <= 64,
                board.wf(),
                place_run(Some((0, empty_pieces())), placement@.take(i as int)) == Some(
                    (k as int, board@.pieces),
                ),
                board@ == (BoardView { pieces: board@.pieces, ..start_view() }),
            decreases placement@.len() - i,
        {
            let ch = placement[i];
            assert(placement@.take(i as int + 1).drop_last() =~= placement@.take(i as int));
            assert(placement@.take(i as int + 1).last() == ch);
            if ch == '/' {
            } else if ch >= '0' && ch <= '9' {
                let d = (ch as u32 - '0' as u32) as usize;
                k = if k + d > 64 {
                    64
                } else {
                    k + d
                };
            } else {
                match Piece::from_char(ch) {
                    None => {
                        proof {
                            assert(place_run(Some((0, empty_pieces())), placement@.take(i as int + 1)) is None);
                            lemma_placement_fails_at(placement@, i as int);
                        }
                        return Err(());
                    },
                    Some(piece) => {
                        if k >= 64 {
                            proof {
                                assert(place_run(Some((0, empty_pieces())), placement@.take(i as int + 1)) is None);
                                lemma_placement_fails_at(placement@, i as int);
                            }
                            return Err(());
                        }
                        let square = Square::from_file_and_rank((k % 8) as u8, (7 - k / 8) as u8);
                        board.add_piece(piece, square);
                        k = k + 1;
                    },
                }
            }
            i = i + 1;
        }
        assert(placement@.take(placement@.len() as int) =~= placement@);
        let color_field = &fields[1];
        if color_field.len() == 1 && color_field[0] == 'w' {
            assert(color_field@ =~= seq!['w']);
            board.current_color = Color::White;
        } else if color_field.len() == 1 && color_field[0] == 'b' {
            assert(color_field@ =~= seq!['b']);
            board.current_color = Color::Black;
        } else {
            assert(color_field@ != seq!['w'] && color_field@ != seq!['b']) by {
                if color_field@.len() == 1 {
                    assert(seq!['w'][0] == 'w' && seq!['b'][0] == 'b');
                }
            }
            return Err(());
        }
        let castling = &fields[2];
        let mut ignored: Vec<char> = Vec::new();
        let mut j: usize = 0;
        while j < castling.len()
            invariant
                f == split_spaces(fen@),
                f.len() >= 4,
                castling@ == f[2],
                j <= castling@.len(),
                board.wf(),
                board.castling_rights == rights_of_letters(castling@.take(j as int)),
                ignored@ == ignored_letters(castling@.take(j as int)),
                board.pieces@ == placement_of(f[0])->0,
                board.current_color == color_of_text(f[1])->0,
                board.en_passant_square == Square::NoSquare,
                board.half_moves == 0,
                board.full_moves == 1,
            decreases castling@.len() - j,
        {
            let ch = castling[j];
            let ghost pre = castling@.take(j as int);
            assert(castling@.take(j as int + 1) =~= pre.push(ch));
            assert(castling@.take(j as int + 1).drop_last() =~= pre);
            if ch == 'K' {
                board.castling_rights.add(crate::castling_rights::CastlingRight::WhiteKingside);
            } else if ch == 'k' {
                board.castling_rights.add(crate::castling_rights::CastlingRight::BlackKingside);
            } else if ch == 'Q' {
                board.castling_rights.add(crate::castling_rights::CastlingRight::WhiteQueenside);
            } else if ch == 'q' {
                board.castling_rights.add(crate::castling_rights::CastlingRight::BlackQueenside);
            } else if ch != '-' {
                ignored.push(ch);
            }
            j = j + 1;
        }
        assert(castling@.take(castling@.len() as int) =~= castling@);
        let ep = string_of(&fields[3]);
        board.en_passant_square = Square::from_algebraic_notation(ep.as_str());
        if fields.len() > 4 {
            match parse_count_chars(&fields[4]) {
                Some(n) => board.half_moves = n,
                None => {},
            }
        }
        if fields.len() > 5 {
            match parse_count_chars(&fields[5]) {
                Some(n) => board.full_moves = n,
                None => {},
            }
        }
        assert(board@ == fen_board(fen@)->Ok_0);
        Ok((board, ignored))
    }

    /// The FEN text of the position (see `fen_text`).
    pub fn fen(&self) -> (r: String)
        ensures
            r@ == fen_text(self@),
    {
        let mut fen = String::new();
        let ghost ps = self@.pieces;
        let mut rank: usize = 8;
        while rank > 0
            invariant
                ps == self@.pieces,
                ps.len() == 64,
                rank <= 8,
                rank > 0 ==> fen@ + ranks_text(ps, rank - 1) == placement_text(ps),
                rank == 0 ==> fen@ == placement_text(ps),
            decreases rank,
        {
            let r = rank - 1;
            let ghost before = fen@;
            let mut empty: u8 = 0;
            let mut file: usize = 0;
            while file < 8
                invariant
                    ps == self@.pieces,
                    ps.len() == 64,
                    r < 8,
                    file <= 8,
                    empty <= file,
                    fen@ + row_text(ps, r as int, file as int, empty as int) == before + row_text(
                        ps,
                        r as int,
                        0,
                        0,
                    ),
                decreases 8 - file,
            {
                let piece = self.pieces[file + 8 * r];
                match piece.char() {
                    Some(c) => {
                        let ghost pre = fen@;
                        if empty > 0 {
                            push_char(&mut fen, char_of_run(empty));
                        }
                        push_char(&mut fen, c);
                        assert(fen@ =~= pre + run_text(empty as int) + seq![c]);
                        assert(fen@ + row_text(ps, r as int, file as int + 1, 0) =~= pre + row_text(
                            ps,
                            r as int,
                            file as int,
                            empty as int,
                        ));
                        empty = 0;
                    },
                    None => {
                        empty = empty + 1;
                    },
                }
                file = file + 1;
            }
            let ghost pre = fen@;
            if empty > 0 {
                push_char(&mut fen, char_of_run(empty));
            }
            assert(fen@ =~= pre + run_text(empty as int));
            if r > 0 {
                push_char(&mut fen, '/');
                assert(fen@ + ranks_text(ps, r - 1) =~= before + ranks_text(ps, r as int));
            } else {
                assert(fen@ =~= before + ranks_text(ps, r as int));
            }
            rank = r;
        }
        push_char(&mut fen, ' ');
        push_char(&mut fen, self.current_color.char());
        push_char(&mut fen, ' ');
        let castling = self.castling_rights.to_string();
        fen.append(castling.as_str());
        push_char(&mut fen, ' ');
        if self.en_passant_square != Square::NoSquare {
            match self.en_passant_square.to_algebraic_notation() {
                Some(t) => fen.append(t.as_str()),
                None => {},
            }
        } else {
            push_char(&mut fen, '-');
        }
        push_char(&mut fen, ' ');
        push_decimal(&mut fen, self.half_moves);
        push_char(&mut fen, ' ');
        push_decimal(&mut fen, self.full_moves);
        assert(fen@ =~= fen_text(self@));
        fen
    }

    /// Parses FEN text; see `fen_board` for what each field does.
    pub fn from_fen(fen: &str) -> (r: Result<Board, ()>)
        ensures
            fen_board(fen@) is Err <==> r is Err,
            r is Ok ==> r->Ok_0.wf() && r->Ok_0@ == fen_board(fen@)->Ok_0,
    {
        match Board::from_fen_with_warnings(fen) {
            Ok((board, _)) => Ok(board),
            Err(()) => Err(()),
        }
    }
}

/// A well-formed board has 64 squares and well-formed castling rights.
pub proof fn lemma_wf_view(b: Board)
    requires
        b.wf(),
    ensures
        b@.pieces.len() == 64,
        b@.castling_rights.wf(),
{
}

/// Two well-formed boards with the same view are the same board: the bitboards follow
/// from the pieces.
pub proof fn lemma_view_ext(a: Board, b: Board)
    requires
        a.wf(),
        b.wf(),
        a@ == b@,
    ensures
        a == b,
{
    assert(a.pieces =~= b.pieces);
    assert forall|p: int| 0 <= p < 12 implies a.piece_bitboards@[p] == b.piece_bitboards@[p] by {
        assert forall|i: u64| i < 64 implies #[trigger] bit_set(a.piece_bitboards@[p].0, i)
            == bit_set(b.piece_bitboards@[p].0, i) by {}
        crate::bitboard::lemma_bits_ext(a.piece_bitboards@[p].0, b.piece_bitboards@[p].0);
    }
    assert forall|c: int| 0 <= c < 2 implies a.color_bitboards@[c] == b.color_bitboards@[c] by {
        assert forall|i: u64| i < 64 implies #[trigger] bit_set(a.color_bitboards@[c].0, i)
            == bit_set(b.color_bitboards@[c].0, i) by {}
        crate::bitboard::lemma_bits_ext(a.color_bitboards@[c].0, b.color_bitboards@[c].0);
    }
    assert(a.piece_bitboards =~= b.piece_bitboards);
    assert(a.color_bitboards =~= b.color_bitboards);
}

impl Default for Board {
    /// The board with no pieces, White to move, no en-passant target, no castling rights,
    /// and counters 0 and 1.
    fn default() -> (r: Board)
        ensures
            r.wf(),
            r@ == start_view(),
    {
        let e = Bitboard::empty();
        let pieces: [Piece; 64] = vstd::array::array_fill_for_copy_types(Piece::NoPiece);
        let piece_bitboards: [Bitboard; 12] = vstd::array::array_fill_for_copy_types(e);
        let color_bitboards: [Bitboard; 2] = vstd::array::array_fill_for_copy_types(e);
        let b = Board {
            current_color: Color::White,
            pieces,
            piece_bitboards,
            color_bitboards,
            en_passant_square: Square::NoSquare,
            castling_rights: CastlingRights::none(),
            half_moves: 0,
            full_moves: 1,
        };
        assert(b@.pieces =~= empty_pieces());
        b
    }
}

} // verus!
