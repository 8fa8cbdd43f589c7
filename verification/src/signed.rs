//! The signed decimal formatter: the textual form of a signed, optionally
//! fractional number, rendered into a fixed four-slot readout from the
//! decorated catalogue.
//!
//! The first four digit characters of the text fill the slots left to
//! right. The digit just before the decimal point — or the last digit,
//! when the text has no point — carries the trailing point mark; a leading
//! minus sign adds the sign connector to slot 0 alone. Digits beyond the
//! fourth are dropped.
use crate::compose::compose;
use crate::compose::compose_four;
use crate::compose::composed_rows;
use crate::compose::lemma_compose_lines;
use crate::fixed::digit_char_val;
use crate::fixed::is_digit_char;
use crate::glyphs::dp_glyph;
use crate::glyphs::dp_rows;
use crate::glyphs::lemma_dp_rows_wf;
use crate::lines::lemma_lines_of_block;
use crate::lines::lines_of;
use vstd::prelude::*;

verus! {

/// The first index holding `c`, or the length of `s` when `c` is absent.
pub open spec fn first_idx(s: Seq<char>, c: char) -> int
    decreases s.len(),
{
    if s.len() == 0 {
        0
    } else if s[0] == c {
        0
    } else {
        1 + first_idx(s.drop_first(), c)
    }
}

/// Whether the text denotes a negative number: it starts with a minus sign.
pub open spec fn spec_is_neg(s: Seq<char>) -> bool {
    s.len() > 0 && s[0] == '-'
}

/// The index whose digit carries the point mark on account of a decimal
/// point: the character just before the first point. A negative sentinel
/// that matches no index when the text has no point.
pub open spec fn dot_mark(s: Seq<char>) -> int {
    if first_idx(s, '.') < s.len() {
        first_idx(s, '.') - 1
    } else {
        -2
    }
}

/// The index whose digit carries the point mark on account of ending the
/// text: the last character, but only when the text has no decimal point.
pub open spec fn last_mark(s: Seq<char>) -> int {
    if first_idx(s, '.') < s.len() {
        -2
    } else {
        s.len() - 1
    }
}

/// The values of the digit characters of `s` in order, starting at
/// absolute index `i`, each raised by ten when its index is `dp` or
/// `last`; other characters contribute nothing.
pub open spec fn marked_digits(s: Seq<char>, i: int, dp: int, last: int) -> Seq<int>
    decreases s.len(),
{
    if s.len() == 0 {
        Seq::empty()
    } else {
        let rest = marked_digits(s.drop_first(), i + 1, dp, last);
        if is_digit_char(s[0]) {
            seq![
                digit_char_val(s[0]) + if i == dp || i == last {
                    10int
                } else {
                    0int
                },
            ] + rest
        } else {
            rest
        }
    }
}

/// The marked digit values of the whole text, under its own marks.
pub open spec fn scanned(s: Seq<char>) -> Seq<int> {
    marked_digits(s, 0, dot_mark(s), last_mark(s))
}

/// The four decorated-catalogue indices of the readout: the first four
/// scanned values fill the slots left to right, missing slots stay zero,
/// and a negative text adds the sign connector's offset to slot 0 alone.
pub open spec fn dp_slots(s: Seq<char>) -> Seq<int> {
    Seq::new(
        4,
        |j: int|
            (if j == 0 && spec_is_neg(s) {
                20int
            } else {
                0int
            }) + (if j < scanned(s).len() {
                scanned(s)[j]
            } else {
                0int
            }),
    )
}

/// The four slot glyphs of the readout, from the decorated catalogue.
pub open spec fn dp_slot_rows(s: Seq<char>) -> Seq<Seq<Seq<char>>> {
    dp_slots(s).map_values(|v: int| dp_rows(v))
}

/// The full four-slot rendering of a number's textual form.
pub open spec fn rendered_signed(s: Seq<char>) -> Seq<char> {
    compose(dp_slot_rows(s))
}

/// Every scanned value is a digit value, possibly raised by ten.
proof fn lemma_marked_digits_range(s: Seq<char>, i: int, dp: int, last: int)
    ensures
        forall|j: int|
            0 <= j < marked_digits(s, i, dp, last).len() ==> 0 <= #[trigger] marked_digits(
                s,
                i,
                dp,
                last,
            )[j] <= 19,
    decreases s.len(),
{
    if s.len() > 0 {
        lemma_marked_digits_range(s.drop_first(), i + 1, dp, last);
        let rest = marked_digits(s.drop_first(), i + 1, dp, last);
        let m = marked_digits(s, i, dp, last);
        assert forall|j: int| 0 <= j < m.len() implies 0 <= #[trigger] m[j] <= 19 by {
            if is_digit_char(s[0]) {
                if j > 0 {
                    assert(m[j] == rest[j - 1]);
                }
            } else {
                assert(m[j] == rest[j]);
            }
        }
    }
}

/// Every slot of the readout is a decorated-catalogue index.
pub proof fn lemma_dp_slots_range(s: Seq<char>)
    ensures
        forall|j: int| 0 <= j < 4 ==> 0 <= #[trigger] dp_slots(s)[j] <= 39,
{
    lemma_marked_digits_range(s, 0, dot_mark(s), last_mark(s));
}

/// Scanning one more character appends its marked value, if it is a digit.
proof fn lemma_marked_digits_snoc(t: Seq<char>, c: char, b: int, dp: int, last: int)
    ensures
        marked_digits(t.push(c), b, dp, last) == marked_digits(t, b, dp, last) + (if is_digit_char(
            c,
        ) {
            seq![
                digit_char_val(c) + if b + t.len() == dp || b + t.len() == last {
                    10int
                } else {
                    0int
                },
            ]
        } else {
            Seq::<int>::empty()
        }),
    decreases t.len(),
{
    if t.len() == 0 {
        assert(t.push(c).drop_first() =~= Seq::<char>::empty());
        assert(t.push(c)[0] == c);
        assert(marked_digits(t, b, dp, last) =~= Seq::<int>::empty());
        assert(marked_digits(Seq::<char>::empty(), b + 1, dp, last) =~= Seq::<int>::empty());
        if is_digit_char(c) {
            assert(marked_digits(t.push(c), b, dp, last) =~= marked_digits(t, b, dp, last) + seq![
                digit_char_val(c) + if b + t.len() == dp || b + t.len() == last {
                    10int
                } else {
                    0int
                },
            ]);
        } else {
            assert(marked_digits(t.push(c), b, dp, last) =~= marked_digits(t, b, dp, last));
        }
    } else {
        lemma_marked_digits_snoc(t.drop_first(), c, b + 1, dp, last);
        assert(t.push(c).drop_first() =~= t.drop_first().push(c));
        assert(t.push(c)[0] == t[0]);
        if is_digit_char(t[0]) {
            assert(marked_digits(t.push(c), b, dp, last) =~= marked_digits(t, b, dp, last) + (
            if is_digit_char(c) {
                seq![
                    digit_char_val(c) + if b + t.len() == dp || b + t.len() == last {
                        10int
                    } else {
                        0int
                    },
                ]
            } else {
                Seq::<int>::empty()
            }));
        } else {
            assert(marked_digits(t.push(c), b, dp, last) =~= marked_digits(t, b, dp, last) + (
            if is_digit_char(c) {
                seq![
                    digit_char_val(c) + if b + t.len() == dp || b + t.len() == last {
                        10int
                    } else {
                        0int
                    },
                ]
            } else {
                Seq::<int>::empty()
            }));
        }
    }
}

/// Where the first occurrence of `c` lies: nothing before index `k` is
/// `c`, and `k` either holds `c` or is the length of `s`.
proof fn lemma_first_idx_at(s: Seq<char>, c: char, k: int)
    requires
        0 <= k <= s.len(),
        forall|j: int| 0 <= j < k ==> s[j] != c,
        k < s.len() ==> s[k] == c,
    ensures
        first_idx(s, c) == k,
    decreases s.len(),
{
    if s.len() == 0 {
    } else if s[0] == c {
        assert(k == 0);
    } else {
        assert(forall|j: int| 0 <= j < k - 1 ==> s.drop_first()[j] != c);
        lemma_first_idx_at(s.drop_first(), c, k - 1);
    }
}

/// The digit characters of a whole number's text: everything after the
/// optional leading minus sign.
pub open spec fn int_digits(s: Seq<char>) -> Seq<char> {
    if spec_is_neg(s) {
        s.drop_first()
    } else {
        s
    }
}

/// A whole number's canonical text: an optional leading minus sign, then
/// one or more digits and nothing else.
pub open spec fn is_int_text(s: Seq<char>) -> bool {
    &&& int_digits(s).len() >= 1
    &&& forall|i: int| 0 <= i < int_digits(s).len() ==> is_digit_char(#[trigger] int_digits(s)[i])
}

/// Scanning an all-digit sequence takes every digit in order, marking the
/// one whose absolute index is `dp` or `last`.
proof fn lemma_marked_digits_all(t: Seq<char>, b: int, dp: int, last: int)
    requires
        forall|i: int| 0 <= i < t.len() ==> is_digit_char(#[trigger] t[i]),
    ensures
        marked_digits(t, b, dp, last) == Seq::new(
            t.len(),
            |j: int|
                digit_char_val(t[j]) + if b + j == dp || b + j == last {
                    10int
                } else {
                    0int
                },
        ),
    decreases t.len(),
{
    if t.len() > 0 {
        lemma_marked_digits_all(t.drop_first(), b + 1, dp, last);
        assert(marked_digits(t, b, dp, last) =~= Seq::new(
            t.len(),
            |j: int|
                digit_char_val(t[j]) + if b + j == dp || b + j == last {
                    10int
                } else {
                    0int
                },
        ));
    }
}

/// What the scan of a whole number's text yields: every digit in order,
/// the last one raised by the point mark's offset.
proof fn lemma_scanned_int(s: Seq<char>)
    requires
        is_int_text(s),
    ensures
        scanned(s) == Seq::new(
            int_digits(s).len(),
            |j: int|
                digit_char_val(int_digits(s)[j]) + if j == int_digits(s).len() - 1 {
                    10int
                } else {
                    0int
                },
        ),
{
    let ds = int_digits(s);
    let k = ds.len() as int;
    assert forall|j: int| 0 <= j < s.len() implies s[j] != '.' by {
        if spec_is_neg(s) {
            if j > 0 {
                assert(is_digit_char(ds[j - 1]));
            }
        } else {
            assert(is_digit_char(ds[j]));
        }
    }
    lemma_first_idx_at(s, '.', s.len() as int);
    assert(dot_mark(s) == -2);
    assert(last_mark(s) == s.len() - 1);
    if spec_is_neg(s) {
        assert(!is_digit_char(s[0]));
        assert(scanned(s) == marked_digits(s.drop_first(), 1, -2, s.len() - 1));
        lemma_marked_digits_all(ds, 1, -2, s.len() - 1);
        assert(scanned(s) =~= Seq::new(
            ds.len(),
            |j: int|
                digit_char_val(ds[j]) + if j == k - 1 {
                    10int
                } else {
                    0int
                },
        ));
    } else {
        lemma_marked_digits_all(ds, 0, -2, s.len() - 1);
        assert(scanned(s) =~= Seq::new(
            ds.len(),
            |j: int|
                digit_char_val(ds[j]) + if j == k - 1 {
                    10int
                } else {
                    0int
                },
        ));
    }
}

/// Scanning a split text scans its parts in order, at their own indices.
proof fn lemma_marked_digits_concat(t1: Seq<char>, t2: Seq<char>, b: int, dp: int, last: int)
    ensures
        marked_digits(t1 + t2, b, dp, last) == marked_digits(t1, b, dp, last) + marked_digits(
            t2,
            b + t1.len(),
            dp,
            last,
        ),
    decreases t1.len(),
{
    if t1.len() == 0 {
        assert(t1 + t2 =~= t2);
        assert(marked_digits(t1, b, dp, last) =~= Seq::<int>::empty());
        assert(marked_digits(t1 + t2, b, dp, last) =~= marked_digits(t1, b, dp, last)
            + marked_digits(t2, b + t1.len(), dp, last));
    } else {
        lemma_marked_digits_concat(t1.drop_first(), t2, b + 1, dp, last);
        assert((t1 + t2).drop_first() =~= t1.drop_first() + t2);
        assert((t1 + t2)[0] == t1[0]);
        assert(marked_digits(t1 + t2, b, dp, last) =~= marked_digits(t1, b, dp, last)
            + marked_digits(t2, b + t1.len(), dp, last));
    }
}

/// The round trip of the point position: in the text of a number with a
/// fractional part, the point mark rides exactly the digit just before
/// the literal point, wherever that digit lands among the scanned values,
/// and no other digit is marked.
pub proof fn lemma_frac_mark_position(s: Seq<char>, d1: Seq<char>, d2: Seq<char>, neg: bool)
    requires
        s == (if neg {
            seq!['-']
        } else {
            Seq::<char>::empty()
        }) + d1 + seq!['.'] + d2,
        d1.len() >= 1,
        forall|i: int| 0 <= i < d1.len() ==> is_digit_char(#[trigger] d1[i]),
        forall|i: int| 0 <= i < d2.len() ==> is_digit_char(#[trigger] d2[i]),
    ensures
        scanned(s) == Seq::new(
            d1.len() + d2.len(),
            |j: int|
                digit_char_val((d1 + d2)[j]) + if j == d1.len() - 1 {
                    10int
                } else {
                    0int
                },
        ),
        spec_is_neg(s) == neg,
{
    let sign: Seq<char> = if neg {
        seq!['-']
    } else {
        Seq::<char>::empty()
    };
    let b = sign.len() as int;
    let dot = b + d1.len() as int;
    assert forall|j: int| 0 <= j < dot implies s[j] != '.' by {
        if j >= b {
            assert(is_digit_char(d1[j - b]));
            assert(s[j] == d1[j - b]);
        }
    }
    assert(s[dot] == '.');
    lemma_first_idx_at(s, '.', dot);
    let dp = dot - 1;
    assert(dot_mark(s) == dp);
    assert(last_mark(s) == -2);

    let head = sign + d1;
    let tail = seq!['.'] + d2;
    assert(s =~= head + tail);
    lemma_marked_digits_concat(head, tail, 0, dp, -2);
    lemma_marked_digits_concat(sign, d1, 0, dp, -2);
    if neg {
        assert(!is_digit_char(sign[0]));
        assert(sign.drop_first() =~= Seq::<char>::empty());
        assert(marked_digits(Seq::<char>::empty(), 1, dp, -2) =~= Seq::<int>::empty());
        assert(marked_digits(sign, 0, dp, -2) =~= Seq::<int>::empty());
    } else {
        assert(marked_digits(sign, 0, dp, -2) =~= Seq::<int>::empty());
    }
    lemma_marked_digits_all(d1, b, dp, -2);
    assert(!is_digit_char('.'));
    assert(marked_digits(tail, dot, dp, -2) == marked_digits(d2, dot + 1, dp, -2)) by {
        assert(tail[0] == '.');
        assert(tail.drop_first() =~= d2);
    }
    lemma_marked_digits_all(d2, dot + 1, dp, -2);
    assert(scanned(s) =~= Seq::new(
        d1.len() + d2.len(),
        |j: int|
            digit_char_val((d1 + d2)[j]) + if j == d1.len() - 1 {
                10int
            } else {
                0int
            },
    ));
}

/// The slots of a number with a fractional part: the first four digits of
/// its text, in order across the point, the point mark riding the slot of
/// the digit just before the literal point when that digit is displayed,
/// and the sign connector on slot 0 alone for a negative number. Digits
/// beyond the fourth are dropped.
pub proof fn lemma_frac_slots(s: Seq<char>, d1: Seq<char>, d2: Seq<char>, neg: bool)
    requires
        s == (if neg {
            seq!['-']
        } else {
            Seq::<char>::empty()
        }) + d1 + seq!['.'] + d2,
        d1.len() >= 1,
        forall|i: int| 0 <= i < d1.len() ==> is_digit_char(#[trigger] d1[i]),
        forall|i: int| 0 <= i < d2.len() ==> is_digit_char(#[trigger] d2[i]),
    ensures
        dp_slots(s) == Seq::new(
            4,
            |j: int|
                (if j == 0 && neg {
                    20int
                } else {
                    0int
                }) + (if j < d1.len() + d2.len() {
                    digit_char_val((d1 + d2)[j]) + (if j == d1.len() - 1 {
                        10int
                    } else {
                        0int
                    })
                } else {
                    0int
                }),
        ),
{
    lemma_frac_mark_position(s, d1, d2, neg);
    assert(dp_slots(s) =~= Seq::new(
        4,
        |j: int|
            (if j == 0 && neg {
                20int
            } else {
                0int
            }) + (if j < d1.len() + d2.len() {
                digit_char_val((d1 + d2)[j]) + (if j == d1.len() - 1 {
                    10int
                } else {
                    0int
                })
            } else {
                0int
            }),
    ));
}

/// A whole number with at most four digits always carries the point mark
/// on the last occupied slot; earlier digit slots stay plain, trailing
/// slots stay zero, and a negative sign adds its connector to slot 0
/// alone, whatever else that slot holds.
pub proof fn lemma_int_mark_on_last(s: Seq<char>)
    requires
        is_int_text(s),
        int_digits(s).len() <= 4,
    ensures
        dp_slots(s) == Seq::new(
            4,
            |j: int|
                (if j == 0 && spec_is_neg(s) {
                    20int
                } else {
                    0int
                }) + (if j < int_digits(s).len() {
                    digit_char_val(int_digits(s)[j]) + (if j == int_digits(s).len() - 1 {
                        10int
                    } else {
                        0int
                    })
                } else {
                    0int
                }),
        ),
{
    lemma_scanned_int(s);
    assert(dp_slots(s) =~= Seq::new(
        4,
        |j: int|
            (if j == 0 && spec_is_neg(s) {
                20int
            } else {
                0int
            }) + (if j < int_digits(s).len() {
                digit_char_val(int_digits(s)[j]) + (if j == int_digits(s).len() - 1 {
                    10int
                } else {
                    0int
                })
            } else {
                0int
            }),
    ));
}

/// A whole number with more digits than slots shows no point mark at all:
/// the mark would belong to the last digit, which lies beyond the four
/// displayed slots.
pub proof fn lemma_int_overflow_no_mark(s: Seq<char>)
    requires
        is_int_text(s),
        int_digits(s).len() > 4,
    ensures
        dp_slots(s) == Seq::new(
            4,
            |j: int|
                (if j == 0 && spec_is_neg(s) {
                    20int
                } else {
                    0int
                }) + digit_char_val(int_digits(s)[j]),
        ),
{
    lemma_scanned_int(s);
    assert(dp_slots(s) =~= Seq::new(
        4,
        |j: int|
            (if j == 0 && spec_is_neg(s) {
                20int
            } else {
                0int
            }) + digit_char_val(int_digits(s)[j]),
    ));
}

/// Maps one character to its digit value, if it is a digit.
fn char_digit(c: char) -> (r: Option<usize>)
    ensures
        r is Some <==> is_digit_char(c),
        r matches Some(v) ==> v as int == digit_char_val(c),
{
    match c {
        '0' => Some(0),
        '1' => Some(1),
        '2' => Some(2),
        '3' => Some(3),
        '4' => Some(4),
        '5' => Some(5),
        '6' => Some(6),
        '7' => Some(7),
        '8' => Some(8),
        '9' => Some(9),
        _ => None,
    }
}

/// Renders the textual form of a number into the four-slot readout.
///
/// Total over every string; the callers hand it the canonical base-10
/// form of a number.
pub fn sevseg_four_dp_text(string: &str) -> (r: String)
    ensures
        r@ == rendered_signed(string@),
{
    let ghost s = string@;
    let len = string.unicode_len();
    let neg = if len > 0 {
        string.get_char(0) == '-'
    } else {
        false
    };
    assert(neg == spec_is_neg(s));

    // Locate the first decimal point, if any.
    let mut dot: usize = len;
    let mut i: usize = 0;
    while i < len
        invariant
            s == string@,
            i <= len,
            len == s.len(),
            dot == len || (dot < i && s[dot as int] == '.'),
            forall|k: int| 0 <= k < i && k < dot ==> s[k] != '.',
            dot == len ==> forall|k: int| 0 <= k < i ==> s[k] != '.',
        decreases len - i,
    {
        if dot == len && string.get_char(i) == '.' {
            dot = i;
        }
        i = i + 1;
    }
    proof {
        lemma_first_idx_at(s, '.', dot as int);
    }
    let has_dot = dot < len;
    let ghost dp_m = dot_mark(s);
    let ghost last_m = last_mark(s);

    // Scan the digit characters, marking the one before the point, or the
    // last character when there is no point.
    let mut ds: Vec<usize> = Vec::new();
    let mut j: usize = 0;
    while j < len
        invariant
            s == string@,
            j <= len,
            len == s.len(),
            dot as int == first_idx(s, '.'),
            has_dot == (dot < len),
            dp_m == dot_mark(s),
            last_m == last_mark(s),
            ds@.map_values(|x: usize| x as int) == marked_digits(s.take(j as int), 0, dp_m, last_m),
        decreases len - j,
    {
        let c = string.get_char(j);
        let marked = (has_dot && dot > 0 && j == dot - 1) || (!has_dot && j + 1 == len);
        proof {
            assert(marked == (j as int == dp_m || j as int == last_m));
        }
        match char_digit(c) {
            Some(d) => {
                let v = if marked {
                    d + 10
                } else {
                    d
                };
                ds.push(v);
            },
            None => {},
        }
        proof {
            lemma_marked_digits_snoc(s.take(j as int), s[j as int], 0, dp_m, last_m);
            assert(s.take(j + 1 as int) =~= s.take(j as int).push(s[j as int]));
            assert(ds@.map_values(|x: usize| x as int) =~= marked_digits(
                s.take(j + 1 as int),
                0,
                dp_m,
                last_m,
            ));
        }
        j = j + 1;
    }
    proof {
        assert(s.take(len as int) =~= s);
        lemma_marked_digits_range(s, 0, dp_m, last_m);
        assert(forall|k: int|
            0 <= k < ds@.len() ==> (#[trigger] ds@[k]) as int == scanned(s)[k]);
    }

    // Fill the four slots from the first scanned values.
    let base0: usize = if neg {
        20
    } else {
        0
    };
    let s0 = base0 + (if ds.len() > 0 {
        ds[0]
    } else {
        0
    });
    let s1 = if ds.len() > 1 {
        ds[1]
    } else {
        0
    };
    let s2 = if ds.len() > 2 {
        ds[2]
    } else {
        0
    };
    let s3 = if ds.len() > 3 {
        ds[3]
    } else {
        0
    };
    proof {
        assert(s0 as int == dp_slots(s)[0]);
        assert(s1 as int == dp_slots(s)[1]);
        assert(s2 as int == dp_slots(s)[2]);
        assert(s3 as int == dp_slots(s)[3]);
        lemma_dp_slots_range(s);
    }
    let g0 = dp_glyph(s0);
    let g1 = dp_glyph(s1);
    let g2 = dp_glyph(s2);
    let g3 = dp_glyph(s3);
    proof {
        lemma_dp_rows_wf(s0 as int);
        lemma_dp_rows_wf(s1 as int);
        lemma_dp_rows_wf(s2 as int);
        lemma_dp_rows_wf(s3 as int);
        lemma_lines_of_block(dp_rows(s0 as int));
        lemma_lines_of_block(dp_rows(s1 as int));
        lemma_lines_of_block(dp_rows(s2 as int));
        lemma_lines_of_block(dp_rows(s3 as int));
    }
    let r = compose_four(g0.as_str(), g1.as_str(), g2.as_str(), g3.as_str());
    proof {
        assert(seq![lines_of(g0@), lines_of(g1@), lines_of(g2@), lines_of(g3@)] =~= dp_slot_rows(
            s,
        ));
    }
    r
}

/// The rendering of any text has exactly five lines.
pub proof fn lemma_rendered_signed_shape(s: Seq<char>)
    ensures
        lines_of(rendered_signed(s)) == composed_rows(dp_slot_rows(s)),
        lines_of(rendered_signed(s)).len() == 5,
{
    lemma_dp_slots_range(s);
    assert forall|i: int|
        0 <= i < dp_slot_rows(s).len() implies crate::lines::wf_glyph(
        #[trigger] dp_slot_rows(s)[i],
    ) by {
        lemma_dp_rows_wf(dp_slots(s)[i]);
    }
    lemma_compose_lines(dp_slot_rows(s));
}

/// Four-slot readout of a signed, optionally fractional number: the
/// number's own base-10 text, rendered by `sevseg_four_dp_text`. Always
/// five lines; never fails.
pub fn sevseg_four_dp<T: core::fmt::Display + num::Bounded>(n: T) -> (r: String)
    ensures
        exists|t: Seq<char>| r@ == #[trigger] rendered_signed(t),
        lines_of(r@).len() == 5,
{
    let text = n.to_string();
    let r = sevseg_four_dp_text(text.as_str());
    proof {
        assert(r@ == rendered_signed(text@));
        lemma_rendered_signed_shape(text@);
    }
    r
}

} // verus!
