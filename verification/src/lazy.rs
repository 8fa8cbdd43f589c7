//! The lazy four-slot readout: the same resolution as the eager four-slot
//! formatter, handed out as a finite, single-use sequence of text fragments
//! in row-by-row composed order instead of one eagerly joined string.
use crate::compose::concat_frags;
use crate::compose::join_four_fragments;
use crate::compose::fragments4;
use crate::compose::lemma_fragments_concat;
use crate::fixed::padded_syms;
use crate::fixed::rendered_basic;
use crate::fixed::resolve_slots;
use crate::fixed::slot_rows;
use crate::fixed::valid_input;
use crate::glyphs::basic_glyph;
use crate::glyphs::basic_rows;
use crate::glyphs::lemma_basic_rows_wf;
use crate::lines::lemma_lines_of_block;
use crate::lines::lines_of;
use vstd::prelude::*;

verus! {

/// The fragments of a four-slot readout: for each of the five rows, the
/// four slot glyphs' rows separated by single spaces, then a line break.
pub open spec fn slot_fragments(s: Seq<char>) -> Seq<Seq<char>> {
    fragments4(slot_rows(s, 4)[0], slot_rows(s, 4)[1], slot_rows(s, 4)[2], slot_rows(s, 4)[3])
}

/// A finite, single-use sequence of text fragments; consumed front to back.
pub struct SevSegFragments {
    frags: Vec<String>,
}

impl SevSegFragments {
    /// The fragments not yet handed out.
    pub closed spec fn remaining(&self) -> Seq<Seq<char>> {
        self.frags.deep_view()
    }

    /// Hands out the next fragment, front to back, until none are left.
    pub fn next(&mut self) -> (r: Option<String>)
        ensures
            r is None <==> old(self).remaining().len() == 0,
            old(self).remaining().len() == 0 ==> final(self).remaining() == old(self).remaining(),
            old(self).remaining().len() > 0 ==> final(self).remaining() == old(
                self,
            ).remaining().drop_first() && (r matches Some(f) && f@ == old(self).remaining()[0]),
    {
        if self.frags.len() == 0 {
            None
        } else {
            let f = self.frags.remove(0);
            proof {
                assert(self.frags.deep_view() =~= old(self).frags.deep_view().drop_first());
            }
            Some(f)
        }
    }

    /// Concatenates every remaining fragment, consuming the sequence.
    pub fn collect_text(self) -> (r: String)
        ensures
            r@ == concat_frags(self.remaining()),
    {
        let ghost fs = self.remaining();
        let mut out = String::new();
        let mut i: usize = 0;
        while i < self.frags.len()
            invariant
                i <= self.frags.len(),
                fs == self.frags.deep_view(),
                out@ == concat_frags(fs.take(i as int)),
            decreases self.frags.len() - i,
        {
            out.append(self.frags[i].as_str());
            proof {
                assert(fs.take(i + 1 as int).drop_last() =~= fs.take(i as int));
                assert(fs.take(i + 1 as int).last() == fs[i as int]);
            }
            i = i + 1;
        }
        proof {
            assert(fs.take(fs.len() as int) =~= fs);
        }
        out
    }
}

/// Four-slot seven-segment readout of up to four digits or dashes, handed
/// out as a fragment sequence; concatenated in full it equals the eager
/// four-slot rendering of the same input.
pub fn sevseg_four_iter(string: &str) -> (r: Option<SevSegFragments>)
    ensures
        r is Some <==> valid_input(string@, 4),
        r matches Some(it) ==> it.remaining() == slot_fragments(string@),
{
    let slots = match resolve_slots(string, 4) {
        None => {
            return None;
        },
        Some(s) => s,
    };
    let g0 = basic_glyph(slots[0]);
    let g1 = basic_glyph(slots[1]);
    let g2 = basic_glyph(slots[2]);
    let g3 = basic_glyph(slots[3]);
    proof {
        crate::fixed::lemma_padded_syms_range(string@, 4);
        lemma_basic_rows_wf(padded_syms(string@, 4)[0]);
        lemma_basic_rows_wf(padded_syms(string@, 4)[1]);
        lemma_basic_rows_wf(padded_syms(string@, 4)[2]);
        lemma_basic_rows_wf(padded_syms(string@, 4)[3]);
        lemma_lines_of_block(basic_rows(padded_syms(string@, 4)[0]));
        lemma_lines_of_block(basic_rows(padded_syms(string@, 4)[1]));
        lemma_lines_of_block(basic_rows(padded_syms(string@, 4)[2]));
        lemma_lines_of_block(basic_rows(padded_syms(string@, 4)[3]));
    }
    let frags = join_four_fragments(g0.as_str(), g1.as_str(), g2.as_str(), g3.as_str());
    proof {
        assert(lines_of(g0@) == slot_rows(string@, 4)[0]);
        assert(lines_of(g1@) == slot_rows(string@, 4)[1]);
        assert(lines_of(g2@) == slot_rows(string@, 4)[2]);
        assert(lines_of(g3@) == slot_rows(string@, 4)[3]);
    }
    Some(SevSegFragments { frags })
}

/// Fully consumed, the fragment sequence of a valid four-slot input
/// concatenates to exactly the eager four-slot rendering.
pub proof fn lemma_slot_fragments_concat(s: Seq<char>)
    requires
        valid_input(s, 4),
    ensures
        concat_frags(slot_fragments(s)) == rendered_basic(s, 4),
{
    crate::fixed::lemma_padded_syms_range(s, 4);
    lemma_basic_rows_wf(padded_syms(s, 4)[0]);
    lemma_basic_rows_wf(padded_syms(s, 4)[1]);
    lemma_basic_rows_wf(padded_syms(s, 4)[2]);
    lemma_basic_rows_wf(padded_syms(s, 4)[3]);
    lemma_fragments_concat(
        slot_rows(s, 4)[0],
        slot_rows(s, 4)[1],
        slot_rows(s, 4)[2],
        slot_rows(s, 4)[3],
    );
    assert(seq![slot_rows(s, 4)[0], slot_rows(s, 4)[1], slot_rows(s, 4)[2], slot_rows(s, 4)[3]]
        =~= slot_rows(s, 4));
}

} // verus!
