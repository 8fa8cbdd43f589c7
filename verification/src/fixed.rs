//! The fixed-width formatters: a digit string of one to four characters,
//! rendered into a readout of exactly one to four slots, left-padded with
//! zero glyphs when the input is shorter than the readout.
use crate::compose::compose;
use crate::compose::is_glyph_text;
use crate::compose::join_three;
use crate::compose::join_two;
use crate::compose::lemma_compose_single;
use crate::glyphs::basic_glyph;
use crate::glyphs::basic_rows;
use crate::glyphs::lemma_basic_rows_wf;
use crate::lines::block_of;
use crate::lines::lemma_lines_of_block;
use crate::lines::lines_of;
use vstd::prelude::*;

verus! {

/// The numeric value of a digit character, or a negative sentinel.
pub open spec fn digit_char_val(c: char) -> int {
    if c == '0' {
        0
    } else if c == '1' {
        1
    } else if c == '2' {
        2
    } else if c == '3' {
        3
    } else if c == '4' {
        4
    } else if c == '5' {
        5
    } else if c == '6' {
        6
    } else if c == '7' {
        7
    } else if c == '8' {
        8
    } else if c == '9' {
        9
    } else {
        -1
    }
}

/// Whether `c` is one of the decimal digit characters.
pub open spec fn is_digit_char(c: char) -> bool {
    digit_char_val(c) >= 0
}

/// The symbol value a fixed-width formatter assigns to one character:
/// a digit's numeric value, or the placeholder value for a dash.
pub open spec fn sym_val(c: char) -> int {
    if c == '-' {
        10
    } else {
        digit_char_val(c)
    }
}

/// Whether `c` is accepted by the fixed-width formatters.
pub open spec fn is_sym_char(c: char) -> bool {
    c == '-' || is_digit_char(c)
}

/// A valid fixed-width input: one to `n` characters, all digits or dashes.
pub open spec fn valid_input(s: Seq<char>, n: int) -> bool {
    &&& 1 <= s.len() <= n
    &&& forall|i: int| 0 <= i < s.len() ==> is_sym_char(#[trigger] s[i])
}

/// The `n` symbol values of a readout: the input's symbols fill the
/// rightmost slots, the remaining leftmost slots hold the value zero.
pub open spec fn padded_syms(s: Seq<char>, n: int) -> Seq<int> {
    Seq::new(n as nat, |i: int| if i < n - s.len() { 0int } else { sym_val(s[i - (n - s.len())]) })
}

/// The glyphs of a readout's slots, from the basic catalogue.
pub open spec fn slot_rows(s: Seq<char>, n: int) -> Seq<Seq<Seq<char>>> {
    padded_syms(s, n).map_values(|v: int| basic_rows(v))
}

/// The full rendering of a valid input into an `n`-slot readout.
pub open spec fn rendered_basic(s: Seq<char>, n: int) -> Seq<char> {
    compose(slot_rows(s, n))
}

/// A sequence of `k` zero characters.
pub open spec fn zeros(k: int) -> Seq<char> {
    Seq::new(k as nat, |i: int| '0')
}

/// Every valid readout has exactly five lines, and all lines of one
/// readout share one width: six columns per slot, less the final
/// separator.
pub proof fn lemma_rendered_shape(s: Seq<char>, n: int)
    requires
        valid_input(s, n),
        1 <= n <= 4,
    ensures
        lines_of(rendered_basic(s, n)).len() == 5,
        forall|r: int|
            0 <= r < 5 ==> #[trigger] lines_of(rendered_basic(s, n))[r].len() == 6 * n - 1,
{
    let gs = slot_rows(s, n);
    lemma_padded_syms_range(s, n);
    assert forall|i: int| 0 <= i < gs.len() implies crate::lines::wf_glyph(#[trigger] gs[i])
        && forall|k: int| 0 <= k < 5 ==> #[trigger] gs[i][k].len() == 5 by {
        lemma_basic_rows_wf(padded_syms(s, n)[i]);
    }
    assert(forall|i: int, k: int|
        0 <= i < gs.len() && 0 <= k < 5 ==> #[trigger] gs[i][k].len() == 5);
    crate::compose::lemma_compose_lines(gs);
    crate::compose::lemma_compose_width(gs, 5);
}

/// Left zero-padding is observably equivalent to explicit zero characters:
/// prefixing an input with literal zeros leaves both its validity and its
/// rendering unchanged, as long as the padded input still fits.
pub proof fn lemma_zero_pad(s: Seq<char>, k: int, n: int)
    requires
        1 <= s.len(),
        0 <= k,
        s.len() + k <= n,
    ensures
        valid_input(s, n) <==> valid_input(zeros(k) + s, n),
        rendered_basic(s, n) == rendered_basic(zeros(k) + s, n),
{
    let z = zeros(k) + s;
    assert(valid_input(s, n) ==> valid_input(z, n)) by {
        if valid_input(s, n) {
            assert forall|i: int| 0 <= i < z.len() implies is_sym_char(#[trigger] z[i]) by {
                if i < k {
                    assert(z[i] == '0');
                } else {
                    assert(z[i] == s[i - k]);
                }
            }
        }
    }
    assert(valid_input(z, n) ==> valid_input(s, n)) by {
        if valid_input(z, n) {
            assert forall|i: int| 0 <= i < s.len() implies is_sym_char(#[trigger] s[i]) by {
                assert(is_sym_char(z[i + k]));
            }
        }
    }
    assert(padded_syms(s, n) =~= padded_syms(z, n)) by {
        assert forall|i: int|
            0 <= i < n implies #[trigger] padded_syms(s, n)[i] == padded_syms(z, n)[i] by {
            if i < n - z.len() {
            } else if i < n - s.len() {
                assert(z[i - (n - z.len())] == '0');
            } else {
                assert(z[i - (n - z.len())] == s[i - (n - s.len())]);
            }
        }
    }
}

/// Maps one character to its symbol value, if it has one.
fn char_sym(c: char) -> (r: Option<usize>)
    ensures
        r is Some <==> is_sym_char(c),
        r matches Some(v) ==> v as int == sym_val(c),
{
    match c {
        '0' => Some(0),
        '1' => Some(1),
        '2' => Some(2),
        '3' => Some(3),
        '4' => Some(4),
        '5' => Some(5),
        '6' => Some(6),
        '7' => Some(7),
        '8' => Some(8),
        '9' => Some(9),
        '-' => Some(10),
        _ => None,
    }
}

/// Resolves an input string to the `n` symbol values of its readout, or
/// nothing when the input's length or characters are invalid.
pub(crate) fn resolve_slots(string: &str, n: usize) -> (r: Option<Vec<usize>>)
    requires
        1 <= n <= 4,
    ensures
        r is Some <==> valid_input(string@, n as int),
        r matches Some(v) ==> v@.len() == n && forall|i: int|
            0 <= i < n ==> v@[i] as int == padded_syms(string@, n as int)[i],
{
    let len = string.unicode_len();
    if len == 0 || len > n {
        return None;
    }
    let pad = n - len;
    let mut v: Vec<usize> = Vec::new();
    let mut k: usize = 0;
    while k < pad
        invariant
            k <= pad,
            v@.len() == k,
            forall|i: int| 0 <= i < k ==> v@[i] == 0,
        decreases pad - k,
    {
        v.push(0);
        k = k + 1;
    }
    let mut j: usize = 0;
    while j < len
        invariant
            j <= len == string@.len(),
            pad == n - len,
            v@.len() == pad + j,
            forall|i: int| 0 <= i < pad ==> v@[i] == 0,
            forall|i: int|
                pad <= i < pad + j ==> is_sym_char(#[trigger] string@[i - pad]) && v@[i] as int
                    == sym_val(string@[i - pad]),
        decreases len - j,
    {
        let c = string.get_char(j);
        match char_sym(c) {
            None => {
                return None;
            },
            Some(sv) => v.push(sv),
        }
        j = j + 1;
    }
    proof {
        assert forall|i: int| 0 <= i < string@.len() implies is_sym_char(#[trigger] string@[i]) by {
            assert(is_sym_char(string@[(i + pad) - pad]));
        }
        assert(forall|i: int| 0 <= i < n ==> v@[i] as int == padded_syms(string@, n as int)[i]);
    }
    Some(v)
}

/// The symbol values of a valid input lie in the basic catalogue's range.
pub(crate) proof fn lemma_padded_syms_range(s: Seq<char>, n: int)
    requires
        valid_input(s, n),
    ensures
        forall|i: int| 0 <= i < n ==> 0 <= #[trigger] padded_syms(s, n)[i] <= 10,
{
}

/// A rendered basic-catalogue glyph is a well-formed five-row glyph text
/// whose lines are that glyph's rows.
proof fn lemma_basic_glyph_text(v: int, t: Seq<char>)
    requires
        0 <= v <= 10,
        t == block_of(basic_rows(v)),
    ensures
        is_glyph_text(t),
        lines_of(t) == basic_rows(v),
{
    lemma_basic_rows_wf(v);
    lemma_lines_of_block(basic_rows(v));
}

/// One-slot seven-segment readout of a single digit or dash.
///
/// Returns the rendering exactly when the input is one digit or dash
/// character, and nothing for any other input.
pub fn sevseg_one(string: &str) -> (r: Option<String>)
    ensures
        r is Some <==> valid_input(string@, 1),
        r matches Some(t) ==> t@ == rendered_basic(string@, 1),
{
    let slots = match resolve_slots(string, 1) {
        None => {
            return None;
        },
        Some(s) => s,
    };
    let g = basic_glyph(slots[0]);
    proof {
        lemma_padded_syms_range(string@, 1);
        let v0 = padded_syms(string@, 1)[0];
        lemma_basic_rows_wf(v0);
        lemma_compose_single(basic_rows(v0));
        assert(slot_rows(string@, 1) =~= seq![basic_rows(v0)]);
    }
    Some(g)
}

/// Two-slot seven-segment readout of up to two digits or dashes,
/// left-padded with a zero glyph when the input is one character.
pub fn sevseg_two(string: &str) -> (r: Option<String>)
    ensures
        r is Some <==> valid_input(string@, 2),
        r matches Some(t) ==> t@ == rendered_basic(string@, 2),
{
    let slots = match resolve_slots(string, 2) {
        None => {
            return None;
        },
        Some(s) => s,
    };
    let g0 = basic_glyph(slots[0]);
    let g1 = basic_glyph(slots[1]);
    proof {
        lemma_padded_syms_range(string@, 2);
        lemma_basic_glyph_text(slots@[0] as int, g0@);
        lemma_basic_glyph_text(slots@[1] as int, g1@);
    }
    let r = join_two(g0.as_str(), g1.as_str());
    proof {
        assert(slot_rows(string@, 2) =~= seq![lines_of(g0@), lines_of(g1@)]);
    }
    Some(r)
}

/// Three-slot seven-segment readout of up to three digits or dashes,
/// left-padded with zero glyphs when the input is shorter.
pub fn sevseg_three(string: &str) -> (r: Option<String>)
    ensures
        r is Some <==> valid_input(string@, 3),
        r matches Some(t) ==> t@ == rendered_basic(string@, 3),
{
    let slots = match resolve_slots(string, 3) {
        None => {
            return None;
        },
        Some(s) => s,
    };
    let g0 = basic_glyph(slots[0]);
    let g1 = basic_glyph(slots[1]);
    let g2 = basic_glyph(slots[2]);
    proof {
        lemma_padded_syms_range(string@, 3);
        lemma_basic_glyph_text(slots@[0] as int, g0@);
        lemma_basic_glyph_text(slots@[1] as int, g1@);
        lemma_basic_glyph_text(slots@[2] as int, g2@);
    }
    let r = join_three(g0.as_str(), g1.as_str(), g2.as_str());
    proof {
        assert(slot_rows(string@, 3) =~= seq![lines_of(g0@), lines_of(g1@), lines_of(g2@)]);
    }
    Some(r)
}

/// Four-slot seven-segment readout of up to four digits or dashes,
/// left-padded with zero glyphs when the input is shorter.
pub fn sevseg_four(string: &str) -> (r: Option<String>)
    ensures
        r is Some <==> valid_input(string@, 4),
        r matches Some(t) ==> t@ == rendered_basic(string@, 4),
{
    let slots = match resolve_slots(string, 4) {
        None => {
            return None;
        },
        Some(s) => s,
    };
    let g0 = basic_glyph(slots[0]);
    let g1 = basic_glyph(slots[1]);
    let g2 = basic_glyph(slots[2]);
    let g3 = basic_glyph(slots[3]);
    proof {
        lemma_padded_syms_range(string@, 4);
        lemma_basic_glyph_text(slots@[0] as int, g0@);
        lemma_basic_glyph_text(slots@[1] as int, g1@);
        lemma_basic_glyph_text(slots@[2] as int, g2@);
        lemma_basic_glyph_text(slots@[3] as int, g3@);
    }
    let r = crate::compose::compose_four(g0.as_str(), g1.as_str(), g2.as_str(), g3.as_str());
    proof {
        assert(slot_rows(string@, 4) =~= seq![
            lines_of(g0@),
            lines_of(g1@),
            lines_of(g2@),
            lines_of(g3@),
        ]);
    }
    Some(r)
}

} // verus!
