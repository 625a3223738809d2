use vstd::prelude::*;

use crate::board::{
    color_of_text, cursor_square, empty_pieces, en_passant_text, fen_board, fen_text, place_run, place_step,
    placement_of, placement_text, ranks_text, row_text, run_text, BoardView,
    lemma_place_run_concat,
};
use crate::castling_rights::{castling_text, lemma_castling_text_round_trip, lemma_rights_of_letters_wf};
use crate::color::{color_char, Color};
use crate::piece::{piece_char, piece_of_char, Piece, lemma_piece_char_round_trip};
use crate::square::{lemma_algebraic_text_parses, parse_algebraic, Square};
use crate::text::{
    decimal_text, digit_char, digit_value, lemma_decimal_round_trip, lemma_split_concat,
    lemma_split_no_space, no_space, parse_count, split_spaces,
};

verus! {

/// How many squares FEN placement passes before reaching square `s`.
spec fn cursor_of_square(s: int) -> int {
    8 * (7 - s / 8) + s % 8
}

/// The pieces of `ps` on the squares that placement reaches before `k` squares; the rest
/// empty.
spec fn overlay(ps: Seq<Piece>, k: int) -> Seq<Piece> {
    Seq::new(64, |s: int| if cursor_of_square(s) < k { ps[s] } else { Piece::NoPiece })
}

proof fn lemma_place_run_one(st: Option<(int, Seq<Piece>)>, c: char)
    ensures
        place_run(st, seq![c]) == place_step(st, c),
{
    assert(seq![c].drop_last() =~= Seq::<char>::empty());
    assert(place_run(st, Seq::<char>::empty()) == st);
    assert(seq![c].last() == c);
}

proof fn lemma_row(ps: Seq<Piece>, r: int, f: int, run: int)
    requires
        ps.len() == 64,
        0 <= r < 8,
        0 <= run <= f <= 8,
        forall|q: int| 8 * r + f - run <= q < 8 * r + f ==> #[trigger] ps[q] == Piece::NoPiece,
    ensures
        place_run(Some((8 * (7 - r) + f - run, overlay(ps, 8 * (7 - r) + f - run))), row_text(ps, r, f, run))
            == Some((8 * (7 - r) + 8, overlay(ps, 8 * (7 - r) + 8))),
        no_space(row_text(ps, r, f, run)),
    decreases 8 - f,
{
    let base = 8 * (7 - r);
    if f >= 8 {
        lemma_run_prefix(ps, r, 8, run);
    } else {
        let sq = f + 8 * r;
        let st = Some((base + f - run, overlay(ps, base + f - run)));
        match piece_char(ps[sq]) {
            None => {
                assert(ps[sq] == Piece::NoPiece);
                lemma_row(ps, r, f + 1, run + 1);
            },
            Some(c) => {
                assert(ps[sq] != Piece::NoPiece);
                lemma_piece_char_round_trip(ps[sq], c);
                let rest = row_text(ps, r, f + 1, 0);
                // the empty run before the piece
                lemma_place_run_concat(st, run_text(run), seq![c] + rest);
                assert(run_text(run) + (seq![c] + rest) =~= run_text(run) + seq![c] + rest);
                lemma_run_prefix(ps, r, f, run);
                let st2 = Some((base + f, overlay(ps, base + f)));
                lemma_place_run_concat(st2, seq![c], rest);
                lemma_place_run_one(st2, c);
                assert((base + f) % 8 == f && (base + f) / 8 == 7 - r);
                assert(overlay(ps, base + f).update(sq, ps[sq]) =~= overlay(ps, base + f + 1)) by {
                    assert forall|s: int| 0 <= s < 64 implies #[trigger] overlay(ps, base + f).update(sq, ps[sq])[s]
                        == overlay(ps, base + f + 1)[s] by {
                        if cursor_of_square(s) == base + f {
                            assert(s / 8 == r);
                            assert(s == sq);
                        }
                    }
                }
                lemma_row(ps, r, f + 1, 0);
                assert(c != ' ') by {
                    assert(piece_of_char(' ') is None);
                }
                assert forall|i: int| 0 <= i < row_text(ps, r, f, run).len()
                    implies #[trigger] row_text(ps, r, f, run)[i] != ' ' by {
                    let a = run_text(run);
                    let t = a + seq![c] + rest;
                    assert(row_text(ps, r, f, run) == t);
                    if i < a.len() {
                        assert(t[i] == a[i]);
                    } else if i == a.len() {
                        assert(t[i] == c);
                    } else {
                        assert(t[i] == rest[i - a.len() - 1]);
                    }
                }
            },
        }
    }
}

/// An empty run of `run` squares ending at file `f` moves the cursor to `f` and places
/// nothing.
proof fn lemma_run_prefix(ps: Seq<Piece>, r: int, f: int, run: int)
    requires
        ps.len() == 64,
        0 <= r < 8,
        0 <= run <= f <= 8,
        forall|q: int| 8 * r + f - run <= q < 8 * r + f ==> #[trigger] ps[q] == Piece::NoPiece,
    ensures
        place_run(Some((8 * (7 - r) + f - run, overlay(ps, 8 * (7 - r) + f - run))), run_text(run))
            == Some((8 * (7 - r) + f, overlay(ps, 8 * (7 - r) + f))),
        no_space(run_text(run)),
{
    let base = 8 * (7 - r);
    assert(overlay(ps, base + f - run) =~= overlay(ps, base + f)) by {
        assert forall|s: int| 0 <= s < 64 implies #[trigger] overlay(ps, base + f - run)[s] == overlay(ps, base + f)[s] by {
            let c = cursor_of_square(s);
            if base + f - run <= c < base + f {
                assert(s / 8 == r);
                assert(ps[(s % 8) + 8 * r] == Piece::NoPiece);
                assert(s == s % 8 + 8 * r);
            }
        }
    }
    if run > 0 {
        lemma_place_run_one(Some((base + f - run, overlay(ps, base + f - run))), digit_char(run));
        assert(digit_value(digit_char(run)) == run);
    } else {
        assert(run_text(run) =~= Seq::<char>::empty());
    }
}

proof fn lemma_ranks(ps: Seq<Piece>, r: int)
    requires
        ps.len() == 64,
        0 <= r < 8,
    ensures
        place_run(Some((8 * (7 - r), overlay(ps, 8 * (7 - r)))), ranks_text(ps, r))
            == Some((64int, overlay(ps, 64))),
        no_space(ranks_text(ps, r)),
    decreases r,
{
    lemma_row(ps, r, 0, 0);
    if r > 0 {
        let row = row_text(ps, r, 0, 0);
        let rest = ranks_text(ps, r - 1);
        let st = Some((8 * (7 - r), overlay(ps, 8 * (7 - r))));
        let st2 = Some((8 * (7 - r) + 8, overlay(ps, 8 * (7 - r) + 8)));
        lemma_place_run_concat(st, row + seq!['/'], rest);
        lemma_place_run_concat(st, row, seq!['/']);
        lemma_place_run_one(st2, '/');
        lemma_ranks(ps, r - 1);
        assert(8 * (7 - r) + 8 == 8 * (7 - (r - 1)));
        let t = row + seq!['/'] + rest;
        assert forall|i: int| 0 <= i < t.len() implies #[trigger] t[i] != ' ' by {
            if i < row.len() {
                assert(t[i] == row[i]);
            } else if i == row.len() {
                assert(t[i] == '/');
            } else {
                assert(t[i] == rest[i - row.len() - 1]);
            }
        }
    }
}

/// The FEN placement field of 64 pieces places exactly those pieces, and holds no space.
pub proof fn lemma_placement_round_trip(ps: Seq<Piece>)
    requires
        ps.len() == 64,
    ensures
        placement_of(placement_text(ps)) == Some(ps),
        no_space(placement_text(ps)),
{
    lemma_ranks(ps, 7);
    assert(overlay(ps, 0) =~= empty_pieces());
    assert(overlay(ps, 64) =~= ps) by {
        assert forall|s: int| 0 <= s < 64 implies #[trigger] cursor_of_square(s) < 64 by {}
    }
}

/// Every placement that succeeds gives 64 squares.
pub proof fn lemma_placement_len(st: Option<(int, Seq<Piece>)>, t: Seq<char>)
    requires
        st matches Some((k, ps)) && 0 <= k <= 64 && ps.len() == 64,
    ensures
        place_run(st, t) matches Some((k, ps)) ==> 0 <= k <= 64 && ps.len() == 64,
    decreases t.len(),
{
    if t.len() > 0 {
        lemma_placement_len(st, t.drop_last());
        let prev = place_run(st, t.drop_last());
        assert(place_run(st, t) == place_step(prev, t.last()));
        if let Some((k, ps)) = prev {
            assert(0 <= k < 64 ==> 0 <= cursor_square(k) < 64);
        }
    }
}

/// The fields of a position's FEN text, split at the spaces.
proof fn lemma_fen_fields(v: BoardView)
    requires
        v.pieces.len() == 64,
        v.castling_rights.wf(),
    ensures
        split_spaces(fen_text(v)) == seq![
            placement_text(v.pieces),
            seq![color_char(v.current_color)],
            castling_text(v.castling_rights),
            en_passant_text(v.en_passant_square),
            decimal_text(v.half_moves as nat),
            decimal_text(v.full_moves as nat),
        ],
{
    let p = placement_text(v.pieces);
    let c = seq![color_char(v.current_color)];
    let k = castling_text(v.castling_rights);
    let e = en_passant_text(v.en_passant_square);
    let h = decimal_text(v.half_moves as nat);
    let f = decimal_text(v.full_moves as nat);
    lemma_placement_round_trip(v.pieces);
    lemma_castling_text_round_trip(v.castling_rights);
    lemma_decimal_round_trip(v.half_moves as nat);
    lemma_decimal_round_trip(v.full_moves as nat);
    if v.en_passant_square != Square::NoSquare {
        lemma_algebraic_text_parses(v.en_passant_square);
    }
    assert(no_space(e));
    assert(no_space(c));
    let sp = seq![' '];
    let t5 = h + sp + f;
    let t4 = e + sp + t5;
    let t3 = k + sp + t4;
    let t2 = c + sp + t3;
    let t1 = p + sp + t2;
    assert(fen_text(v) =~= t1);
    lemma_split_no_space(p);
    lemma_split_no_space(c);
    lemma_split_no_space(k);
    lemma_split_no_space(e);
    lemma_split_no_space(h);
    lemma_split_no_space(f);
    lemma_split_concat(h, f);
    lemma_split_concat(e, t5);
    lemma_split_concat(k, t4);
    lemma_split_concat(c, t3);
    lemma_split_concat(p, t2);
    assert(split_spaces(t1) =~= seq![p, c, k, e, h, f]);
}

/// A position with 64 squares and well-formed castling rights reads back from its own
/// FEN text unchanged.
pub proof fn lemma_fen_text_parses(v: BoardView)
    requires
        v.pieces.len() == 64,
        v.castling_rights.wf(),
    ensures
        fen_board(fen_text(v)) == Ok::<BoardView, ()>(v),
{
    let c = seq![color_char(v.current_color)];
    let h = decimal_text(v.half_moves as nat);
    let f = decimal_text(v.full_moves as nat);
    lemma_fen_fields(v);
    lemma_placement_round_trip(v.pieces);
    lemma_castling_text_round_trip(v.castling_rights);
    lemma_decimal_round_trip(v.half_moves as nat);
    lemma_decimal_round_trip(v.full_moves as nat);
    if v.en_passant_square != Square::NoSquare {
        lemma_algebraic_text_parses(v.en_passant_square);
    } else {
        assert(parse_algebraic(seq!['-']) == Square::NoSquare);
    }
    match v.current_color {
        Color::White => assert(c =~= seq!['w']),
        Color::Black => {
            assert(c =~= seq!['b']);
            assert(seq!['b'] != seq!['w']) by {
                assert(seq!['b'][0] != seq!['w'][0]);
            }
        },
    }
    assert(color_of_text(c) == Some(v.current_color));
    assert(parse_count(h) == Some(v.half_moves));
    assert(parse_count(f) == Some(v.full_moves));
}

/// Parsing FEN text, writing the position out and parsing that again gives the same
/// position, so writing it out again gives the same text.
pub proof fn lemma_fen_round_trip(s: Seq<char>)
    ensures
        fen_board(s) is Ok ==> fen_board(fen_text(fen_board(s)->Ok_0)) == fen_board(s),
        fen_board(s) is Ok ==> fen_text(fen_board(fen_text(fen_board(s)->Ok_0))->Ok_0) == fen_text(
            fen_board(s)->Ok_0,
        ),
{
    if fen_board(s) is Ok {
        let v = fen_board(s)->Ok_0;
        let fs = split_spaces(s);
        lemma_placement_len(Some((0, empty_pieces())), fs[0]);
        lemma_rights_of_letters_wf(fs[2]);
        lemma_fen_text_parses(v);
    }
}

} // verus!
