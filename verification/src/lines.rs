//! The text model: glyphs as sequences of rows, and the correspondence
//! between a multi-line text and the rows it is made of.
use vstd::prelude::*;

verus! {

/// A glyph row is non-empty and free of line breaks and carriage returns.
pub open spec fn wf_row(r: Seq<char>) -> bool {
    &&& r.len() > 0
    &&& forall|i: int| 0 <= i < r.len() ==> r[i] != '\n' && r[i] != '\r'
}

/// A well-formed glyph: exactly five well-formed rows.
pub open spec fn wf_glyph(g: Seq<Seq<char>>) -> bool {
    &&& g.len() == 5
    &&& forall|i: int| 0 <= i < g.len() ==> wf_row(#[trigger] g[i])
}

/// The text of a sequence of rows: every row followed by a line break.
pub open spec fn block_of(g: Seq<Seq<char>>) -> Seq<char>
    decreases g.len(),
{
    if g.len() == 0 {
        Seq::empty()
    } else {
        g[0] + seq!['\n'] + block_of(g.drop_first())
    }
}

/// The text holds no carriage return.
pub open spec fn no_cr(s: Seq<char>) -> bool {
    forall|i: int| 0 <= i < s.len() ==> s[i] != '\r'
}

/// The longest prefix of `s` that holds no line break.
pub open spec fn line_prefix(s: Seq<char>) -> Seq<char>
    decreases s.len(),
{
    if s.len() == 0 || s[0] == '\n' {
        Seq::empty()
    } else {
        seq![s[0]] + line_prefix(s.drop_first())
    }
}

/// The lines of a text, split at each line break; a final segment without a
/// terminating line break still counts, a trailing empty segment does not.
pub open spec fn lines_of(s: Seq<char>) -> Seq<Seq<char>>
    decreases s.len(),
    when s.len() >= 0
    via lines_of_decreases
{
    if s.len() == 0 {
        Seq::empty()
    } else {
        let l = line_prefix(s);
        if l.len() == s.len() {
            seq![l]
        } else {
            seq![l] + lines_of(s.skip(l.len() + 1 as int))
        }
    }
}

#[via_fn]
proof fn lines_of_decreases(s: Seq<char>) {
    lemma_line_prefix(s);
}

/// What the longest break-free prefix looks like.
proof fn lemma_line_prefix(s: Seq<char>)
    ensures
        line_prefix(s).len() <= s.len(),
        line_prefix(s) == s.take(line_prefix(s).len() as int),
        forall|i: int| 0 <= i < line_prefix(s).len() ==> #[trigger] line_prefix(s)[i] == s[i] && s[i] != '\n',
        line_prefix(s).len() < s.len() ==> s[line_prefix(s).len() as int] == '\n',
    decreases s.len(),
{
    if s.len() == 0 || s[0] == '\n' {
        assert(line_prefix(s) =~= s.take(0));
    } else {
        let rest = s.drop_first();
        lemma_line_prefix(rest);
        let l = line_prefix(s);
        assert(l == seq![s[0]] + line_prefix(rest));
        assert(l =~= s.take(l.len() as int));
    }
}

/// Splitting the text of well-formed rows gives those rows back.
pub(crate) proof fn lemma_lines_of_block(g: Seq<Seq<char>>)
    requires
        forall|i: int| 0 <= i < g.len() ==> wf_row(#[trigger] g[i]),
    ensures
        lines_of(block_of(g)) == g,
        no_cr(block_of(g)),
        g.len() > 0 ==> block_of(g).len() > 0 && block_of(g).last() == '\n',
    decreases g.len(),
{
    if g.len() == 0 {
        assert(lines_of(block_of(g)) =~= g);
    } else {
        let r = g[0];
        let rest = g.drop_first();
        let s = block_of(g);
        lemma_lines_of_block(rest);
        assert(s == r + seq!['\n'] + block_of(rest));
        lemma_line_prefix_row(r, block_of(rest));
        assert(line_prefix(s).len() == r.len() < s.len());
        assert(s.skip(r.len() + 1 as int) =~= block_of(rest));
        assert(lines_of(s) == seq![r] + lines_of(block_of(rest)));
        assert(lines_of(s) =~= g);
        assert(no_cr(s));
        assert(s.last() == '\n') by {
            if rest.len() == 0 {
                assert(block_of(rest) =~= Seq::<char>::empty());
                assert(s =~= r + seq!['\n']);
            }
        }
    }
}

/// The break-free prefix of a row followed by a line break is the row itself.
proof fn lemma_line_prefix_row(r: Seq<char>, tail: Seq<char>)
    requires
        forall|i: int| 0 <= i < r.len() ==> r[i] != '\n',
    ensures
        line_prefix(r + seq!['\n'] + tail) == r,
    decreases r.len(),
{
    let s = r + seq!['\n'] + tail;
    if r.len() == 0 {
        assert(s[0] == '\n');
        assert(line_prefix(s) =~= r);
    } else {
        lemma_line_prefix_row(r.drop_first(), tail);
        assert(s.drop_first() =~= r.drop_first() + seq!['\n'] + tail);
        assert(line_prefix(s) == seq![s[0]] + line_prefix(s.drop_first()));
        assert(line_prefix(s) =~= r);
    }
}

/// Unfolds the text of exactly five rows.
proof fn lemma_block5(a: Seq<char>, b: Seq<char>, c: Seq<char>, d: Seq<char>, e: Seq<char>)
    ensures
        block_of(seq![a, b, c, d, e]) == a + seq!['\n'] + b + seq!['\n'] + c + seq!['\n'] + d
            + seq!['\n'] + e + seq!['\n'],
{
    let g4 = seq![e];
    let g3 = seq![d, e];
    let g2 = seq![c, d, e];
    let g1 = seq![b, c, d, e];
    let g0 = seq![a, b, c, d, e];
    assert(g4.drop_first() =~= Seq::<Seq<char>>::empty());
    assert(block_of(g4.drop_first()) =~= Seq::<char>::empty());
    assert(g3.drop_first() =~= g4);
    assert(g2.drop_first() =~= g3);
    assert(g1.drop_first() =~= g2);
    assert(g0.drop_first() =~= g1);
    assert(block_of(g4) =~= e + seq!['\n']);
    assert(block_of(g3) =~= d + seq!['\n'] + e + seq!['\n']);
    assert(block_of(g2) =~= c + seq!['\n'] + d + seq!['\n'] + e + seq!['\n']);
    assert(block_of(g1) =~= b + seq!['\n'] + c + seq!['\n'] + d + seq!['\n'] + e + seq!['\n']);
    assert(block_of(g0) =~= a + seq!['\n'] + b + seq!['\n'] + c + seq!['\n'] + d + seq!['\n'] + e
        + seq!['\n']);
}

/// Appends one row and its line break to a text under construction.
fn push_row(s: &mut String, row: &str)
    ensures
        final(s)@ == old(s)@ + row@ + seq!['\n'],
{
    s.append(row);
    s.append("\n");
    proof {
        reveal_strlit("\n");
        assert(s@ =~= old(s)@ + row@ + seq!['\n']);
    }
}

/// Builds the text of a five-row glyph from its rows.
pub(crate) fn build5(r0: &str, r1: &str, r2: &str, r3: &str, r4: &str) -> (g: String)
    ensures
        g@ == block_of(seq![r0@, r1@, r2@, r3@, r4@]),
{
    let mut s = String::new();
    push_row(&mut s, r0);
    push_row(&mut s, r1);
    push_row(&mut s, r2);
    push_row(&mut s, r3);
    push_row(&mut s, r4);
    proof {
        lemma_block5(r0@, r1@, r2@, r3@, r4@);
        assert(s@ =~= block_of(seq![r0@, r1@, r2@, r3@, r4@]));
    }
    s
}

} // verus!
