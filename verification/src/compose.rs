//! Side-by-side composition of glyphs: several five-row glyphs joined row by
//! row with one blank column between neighbours.
//!
//! The joining itself is done by the `cattocol` crate; the wrappers below
//! state what its line-interleaving iterators produce for well-formed glyph
//! texts.
use crate::lines::block_of;
use crate::lines::lemma_lines_of_block;
use crate::lines::lines_of;
use crate::lines::no_cr;
use crate::lines::wf_glyph;
use crate::lines::wf_row;
use vstd::prelude::*;

verus! {

/// Row `r` of a side-by-side composition: the glyphs' rows `r`, joined with
/// one blank column between neighbours.
pub open spec fn joined_row(gs: Seq<Seq<Seq<char>>>, r: int) -> Seq<char>
    decreases gs.len(),
{
    if gs.len() == 0 {
        Seq::empty()
    } else if gs.len() == 1 {
        gs[0][r]
    } else {
        gs[0][r] + seq![' '] + joined_row(gs.drop_first(), r)
    }
}

/// The five rows of a side-by-side composition.
pub open spec fn composed_rows(gs: Seq<Seq<Seq<char>>>) -> Seq<Seq<char>> {
    Seq::new(5, |r: int| joined_row(gs, r))
}

/// The composed text: five joined rows, each followed by a line break.
pub open spec fn compose(gs: Seq<Seq<Seq<char>>>) -> Seq<char> {
    block_of(composed_rows(gs))
}

/// A text that is exactly five well-formed rows, each followed by a line
/// break or ending the text, with no carriage return anywhere.
pub open spec fn is_glyph_text(s: Seq<char>) -> bool {
    no_cr(s) && wf_glyph(lines_of(s))
}

/// Composing a single glyph adds no separator: the result is the glyph's own
/// five-row text unchanged.
pub proof fn lemma_compose_single(g: Seq<Seq<char>>)
    requires
        g.len() == 5,
    ensures
        compose(seq![g]) == block_of(g),
{
    assert(composed_rows(seq![g]) =~= g);
}

/// Row-wise joining works left to right with no dependency between slots: a
/// composition splits at any point into the join of its two parts.
pub proof fn lemma_joined_row_append(gs1: Seq<Seq<Seq<char>>>, gs2: Seq<Seq<Seq<char>>>, r: int)
    requires
        gs1.len() > 0,
        gs2.len() > 0,
    ensures
        joined_row(gs1 + gs2, r) == joined_row(gs1, r) + seq![' '] + joined_row(gs2, r),
    decreases gs1.len(),
{
    if gs1.len() == 1 {
        assert((gs1 + gs2).drop_first() =~= gs2);
        assert(joined_row(gs1 + gs2, r) =~= joined_row(gs1, r) + seq![' '] + joined_row(gs2, r));
    } else {
        lemma_joined_row_append(gs1.drop_first(), gs2, r);
        assert((gs1 + gs2).drop_first() =~= gs1.drop_first() + gs2);
        assert(joined_row(gs1 + gs2, r) =~= joined_row(gs1, r) + seq![' '] + joined_row(gs2, r));
    }
}

/// A joined row of well-formed glyphs is itself a well-formed row.
proof fn lemma_joined_row_wf(gs: Seq<Seq<Seq<char>>>, r: int)
    requires
        gs.len() > 0,
        0 <= r < 5,
        forall|i: int| 0 <= i < gs.len() ==> wf_glyph(#[trigger] gs[i]),
    ensures
        wf_row(joined_row(gs, r)),
    decreases gs.len(),
{
    if gs.len() == 1 {
        assert(wf_row(gs[0][r]));
    } else {
        assert(forall|i: int|
            0 <= i < gs.drop_first().len() ==> wf_glyph(#[trigger] gs.drop_first()[i]));
        lemma_joined_row_wf(gs.drop_first(), r);
        assert(wf_row(gs[0][r]));
    }
}

/// A joined row of glyphs whose rows all have width `w` has width
/// `(w + 1) * gs.len() - 1`: the glyph rows plus one separator column
/// between neighbours.
proof fn lemma_joined_row_width(gs: Seq<Seq<Seq<char>>>, r: int, w: int)
    requires
        gs.len() > 0,
        0 <= r < 5,
        forall|i: int, k: int|
            0 <= i < gs.len() && 0 <= k < 5 ==> #[trigger] gs[i][k].len() == w,
    ensures
        joined_row(gs, r).len() == (w + 1) * gs.len() - 1,
    decreases gs.len(),
{
    if gs.len() == 1 {
        assert(gs[0][r].len() == w);
    } else {
        assert(forall|i: int, k: int|
            0 <= i < gs.drop_first().len() && 0 <= k < 5 ==> #[trigger] gs.drop_first()[i][k].len()
                == w);
        lemma_joined_row_width(gs.drop_first(), r, w);
        assert((w + 1) * gs.len() == (w + 1) * (gs.len() - 1) + (w + 1)) by (nonlinear_arith);
    }
}

/// What the composition of well-formed glyphs looks like: five well-formed
/// lines, each closed by a line break, free of carriage returns; and when
/// every glyph row has width `w`, every line has the width of `n` glyphs
/// and `n - 1` separator columns.
pub proof fn lemma_compose_lines(gs: Seq<Seq<Seq<char>>>)
    requires
        gs.len() > 0,
        forall|i: int| 0 <= i < gs.len() ==> wf_glyph(#[trigger] gs[i]),
    ensures
        lines_of(compose(gs)) == composed_rows(gs),
        forall|r: int| 0 <= r < 5 ==> wf_row(#[trigger] composed_rows(gs)[r]),
        no_cr(compose(gs)),
        compose(gs).len() > 0,
        compose(gs).last() == '\n',
{
    assert forall|r: int| 0 <= r < 5 implies wf_row(#[trigger] composed_rows(gs)[r]) by {
        lemma_joined_row_wf(gs, r);
    }
    lemma_lines_of_block(composed_rows(gs));
}

/// As `lemma_compose_lines`, with every line's width pinned down for glyphs
/// of uniform row width `w`.
pub proof fn lemma_compose_width(gs: Seq<Seq<Seq<char>>>, w: int)
    requires
        gs.len() > 0,
        forall|i: int| 0 <= i < gs.len() ==> wf_glyph(#[trigger] gs[i]),
        forall|i: int, k: int|
            0 <= i < gs.len() && 0 <= k < 5 ==> #[trigger] gs[i][k].len() == w,
    ensures
        forall|r: int|
            0 <= r < 5 ==> #[trigger] composed_rows(gs)[r].len() == (w + 1) * gs.len() - 1,
{
    assert forall|r: int|
        0 <= r < 5 implies #[trigger] composed_rows(gs)[r].len() == (w + 1) * gs.len() - 1 by {
        lemma_joined_row_width(gs, r, w);
    }
}

/// Relies on `cattocol::by_lines`: for two texts of equal line count with
/// non-empty lines, it yields, per line of the first text, that line, one
/// space, the second text's line, and a line break, in order.
#[verifier::external_body]
pub(crate) fn join_two(a: &str, b: &str) -> (r: String)
    requires
        is_glyph_text(a@),
        is_glyph_text(b@),
    ensures
        r@ == compose(seq![lines_of(a@), lines_of(b@)]),
{
    cattocol::by_lines(a, b).collect()
}

/// Relies on `cattocol::by_three_lines`: as `by_lines`, but interleaving the
/// lines of three texts with one space between neighbours.
#[verifier::external_body]
pub(crate) fn join_three(a: &str, b: &str, c: &str) -> (r: String)
    requires
        is_glyph_text(a@),
        is_glyph_text(b@),
        is_glyph_text(c@),
    ensures
        r@ == compose(seq![lines_of(a@), lines_of(b@), lines_of(c@)]),
{
    cattocol::by_three_lines(a, b, c).collect()
}

/// The text fragments that a four-way line interleaving yields: for each of
/// the five rows, the four glyphs' rows separated by single spaces, then a
/// line break.
pub open spec fn fragment_rows(
    ga: Seq<Seq<char>>,
    gb: Seq<Seq<char>>,
    gc: Seq<Seq<char>>,
    gd: Seq<Seq<char>>,
    r: int,
) -> Seq<Seq<char>>
    decreases 5 - r,
{
    if r < 0 || r >= 5 {
        Seq::empty()
    } else {
        seq![ga[r], seq![' '], gb[r], seq![' '], gc[r], seq![' '], gd[r], seq!['\n']]
            + fragment_rows(ga, gb, gc, gd, r + 1)
    }
}

/// The full fragment sequence of a four-glyph composition.
pub open spec fn fragments4(
    ga: Seq<Seq<char>>,
    gb: Seq<Seq<char>>,
    gc: Seq<Seq<char>>,
    gd: Seq<Seq<char>>,
) -> Seq<Seq<char>> {
    fragment_rows(ga, gb, gc, gd, 0)
}

/// Relies on `cattocol::by_four_lines`: for four texts of equal line count
/// with non-empty lines, it yields, per line of the first text, the four
/// texts' lines separated by single spaces, then a line break, as eight
/// separate fragments per line, in order.
#[verifier::external_body]
pub(crate) fn join_four_fragments(a: &str, b: &str, c: &str, d: &str) -> (r: Vec<String>)
    requires
        is_glyph_text(a@),
        is_glyph_text(b@),
        is_glyph_text(c@),
        is_glyph_text(d@),
    ensures
        r.deep_view() == fragments4(lines_of(a@), lines_of(b@), lines_of(c@), lines_of(d@)),
{
    cattocol::by_four_lines(a, b, c, d).map(|f| f.to_string()).collect()
}

/// The concatenation of a sequence of text fragments, in order.
pub open spec fn concat_frags(fs: Seq<Seq<char>>) -> Seq<char>
    decreases fs.len(),
{
    if fs.len() == 0 {
        Seq::empty()
    } else {
        concat_frags(fs.drop_last()) + fs.last()
    }
}

proof fn lemma_concat_frags_append(fs1: Seq<Seq<char>>, fs2: Seq<Seq<char>>)
    ensures
        concat_frags(fs1 + fs2) == concat_frags(fs1) + concat_frags(fs2),
    decreases fs2.len(),
{
    if fs2.len() == 0 {
        assert(fs1 + fs2 =~= fs1);
        assert(concat_frags(fs1 + fs2) =~= concat_frags(fs1) + concat_frags(fs2));
    } else {
        lemma_concat_frags_append(fs1, fs2.drop_last());
        assert((fs1 + fs2).drop_last() =~= fs1 + fs2.drop_last());
        assert((fs1 + fs2).last() == fs2.last());
        assert(concat_frags(fs1 + fs2) =~= concat_frags(fs1) + concat_frags(fs2));
    }
}

/// Fully consumed, the fragment sequence of four glyphs concatenates to the
/// same text that eager composition produces.
pub proof fn lemma_fragments_concat(
    ga: Seq<Seq<char>>,
    gb: Seq<Seq<char>>,
    gc: Seq<Seq<char>>,
    gd: Seq<Seq<char>>,
)
    requires
        ga.len() == 5,
        gb.len() == 5,
        gc.len() == 5,
        gd.len() == 5,
    ensures
        concat_frags(fragments4(ga, gb, gc, gd)) == compose(seq![ga, gb, gc, gd]),
{
    let gs = seq![ga, gb, gc, gd];
    assert forall|r: int| 0 <= r < 5 implies #[trigger] joined_row(gs, r) == ga[r] + seq![' ']
        + gb[r] + seq![' '] + gc[r] + seq![' '] + gd[r] by {
        let g1 = seq![gb, gc, gd];
        let g2 = seq![gc, gd];
        let g3 = seq![gd];
        assert(gs.drop_first() =~= g1);
        assert(g1.drop_first() =~= g2);
        assert(g2.drop_first() =~= g3);
        assert(joined_row(g3, r) == gd[r]);
        assert(joined_row(g2, r) =~= gc[r] + seq![' '] + gd[r]);
        assert(joined_row(g1, r) =~= gb[r] + seq![' '] + gc[r] + seq![' '] + gd[r]);
        assert(joined_row(gs, r) =~= ga[r] + seq![' '] + gb[r] + seq![' '] + gc[r] + seq![' ']
            + gd[r]);
    }
    lemma_fragment_rows_concat(ga, gb, gc, gd, gs, 0);
    assert(composed_rows(gs).skip(0) =~= composed_rows(gs));
}

proof fn lemma_fragment_rows_concat(
    ga: Seq<Seq<char>>,
    gb: Seq<Seq<char>>,
    gc: Seq<Seq<char>>,
    gd: Seq<Seq<char>>,
    gs: Seq<Seq<Seq<char>>>,
    r: int,
)
    requires
        0 <= r <= 5,
        gs == seq![ga, gb, gc, gd],
        forall|i: int| 0 <= i < 5 ==> #[trigger] joined_row(gs, i) == ga[i] + seq![' '] + gb[i]
            + seq![' '] + gc[i] + seq![' '] + gd[i],
    ensures
        concat_frags(fragment_rows(ga, gb, gc, gd, r)) == block_of(composed_rows(gs).skip(r)),
    decreases 5 - r,
{
    let rows = composed_rows(gs);
    if r == 5 {
        assert(rows.skip(5) =~= Seq::<Seq<char>>::empty());
        assert(concat_frags(fragment_rows(ga, gb, gc, gd, 5)) =~= block_of(rows.skip(5)));
    } else {
        lemma_fragment_rows_concat(ga, gb, gc, gd, gs, r + 1);
        let head = seq![ga[r], seq![' '], gb[r], seq![' '], gc[r], seq![' '], gd[r], seq!['\n']];
        let tail = fragment_rows(ga, gb, gc, gd, r + 1);
        lemma_concat_frags_append(head, tail);
        assert(concat_frags(head) =~= ga[r] + seq![' '] + gb[r] + seq![' '] + gc[r] + seq![' ']
            + gd[r] + seq!['\n']) by {
            let h0 = seq![ga[r]];
            let h1 = seq![ga[r], seq![' ']];
            let h2 = seq![ga[r], seq![' '], gb[r]];
            let h3 = seq![ga[r], seq![' '], gb[r], seq![' ']];
            let h4 = seq![ga[r], seq![' '], gb[r], seq![' '], gc[r]];
            let h5 = seq![ga[r], seq![' '], gb[r], seq![' '], gc[r], seq![' ']];
            let h6 = seq![ga[r], seq![' '], gb[r], seq![' '], gc[r], seq![' '], gd[r]];
            assert(h0.drop_last() =~= Seq::<Seq<char>>::empty());
            assert(concat_frags(Seq::<Seq<char>>::empty()) =~= Seq::<char>::empty());
            assert(concat_frags(h0) =~= ga[r]);
            assert(h1.drop_last() =~= h0);
            assert(concat_frags(h1) =~= ga[r] + seq![' ']);
            assert(h2.drop_last() =~= h1);
            assert(concat_frags(h2) =~= ga[r] + seq![' '] + gb[r]);
            assert(h3.drop_last() =~= h2);
            assert(concat_frags(h3) =~= ga[r] + seq![' '] + gb[r] + seq![' ']);
            assert(h4.drop_last() =~= h3);
            assert(concat_frags(h4) =~= ga[r] + seq![' '] + gb[r] + seq![' '] + gc[r]);
            assert(h5.drop_last() =~= h4);
            assert(concat_frags(h5) =~= ga[r] + seq![' '] + gb[r] + seq![' '] + gc[r] + seq![' ']);
            assert(h6.drop_last() =~= h5);
            assert(concat_frags(h6) =~= ga[r] + seq![' '] + gb[r] + seq![' '] + gc[r] + seq![' ']
                + gd[r]);
            assert(head.drop_last() =~= h6);
        }
        assert(rows.skip(r)[0] == rows[r]);
        assert(rows.skip(r).drop_first() =~= rows.skip(r + 1));
        assert(block_of(rows.skip(r)) == rows[r] + seq!['\n'] + block_of(rows.skip(r + 1)));
        assert(concat_frags(fragment_rows(ga, gb, gc, gd, r)) =~= block_of(rows.skip(r)));
    }
}

/// Composes four glyph texts: the line interleaver's fragments, concatenated.
pub(crate) fn compose_four(a: &str, b: &str, c: &str, d: &str) -> (r: String)
    requires
        is_glyph_text(a@),
        is_glyph_text(b@),
        is_glyph_text(c@),
        is_glyph_text(d@),
    ensures
        r@ == compose(seq![lines_of(a@), lines_of(b@), lines_of(c@), lines_of(d@)]),
{
    let frags = join_four_fragments(a, b, c, d);
    let ghost fs = frags.deep_view();
    let mut out = String::new();
    let mut i: usize = 0;
    while i < frags.len()
        invariant
            i <= frags.len(),
            fs == frags.deep_view(),
            out@ == concat_frags(fs.take(i as int)),
        decreases frags.len() - i,
    {
        out.append(frags[i].as_str());
        proof {
            assert(fs.take(i + 1 as int).drop_last() =~= fs.take(i as int));
            assert(fs.take(i + 1 as int).last() == fs[i as int]);
        }
        i = i + 1;
    }
    proof {
        assert(fs.take(fs.len() as int) =~= fs);
        lemma_fragments_concat(lines_of(a@), lines_of(b@), lines_of(c@), lines_of(d@));
    }
    out
}

} // verus!
