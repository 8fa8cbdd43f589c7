//! The glyph catalogues: five-row box-drawing renderings of the digits, a
//! dash placeholder, and the decorated digit variants that carry a point
//! mark, a sign connector, or both.
//!
//! Decorated index = variant class * 10 + digit: class 0 plain, class 1
//! with a trailing point mark, class 2 with a leading sign connector,
//! class 3 with both.
use crate::lines::block_of;
use crate::lines::build5;
use crate::lines::wf_glyph;
use crate::lines::wf_row;
use vstd::prelude::*;

verus! {

/// The rows of the basic catalogue: digits 0 to 9, then the dash placeholder.
pub open spec fn basic_rows(d: int) -> Seq<Seq<char>> {
    if d == 0 {
        seq!["┏━━━┓"@, "┃   ┃"@, "┃   ┃"@, "┃   ┃"@, "┗━━━┛"@]
    } else if d == 1 {
        seq!["    ╻"@, "    ┃"@, "    ┃"@, "    ┃"@, "    ╹"@]
    } else if d == 2 {
        seq!["╺━━━┓"@, "    ┃"@, "┏━━━┛"@, "┃    "@, "┗━━━╸"@]
    } else if d == 3 {
        seq!["╺━━━┓"@, "    ┃"@, "╺━━━┫"@, "    ┃"@, "╺━━━┛"@]
    } else if d == 4 {
        seq!["╻   ╻"@, "┃   ┃"@, "┗━━━┫"@, "    ┃"@, "    ╹"@]
    } else if d == 5 {
        seq!["┏━━━╸"@, "┃    "@, "┗━━━┓"@, "    ┃"@, "╺━━━┛"@]
    } else if d == 6 {
        seq!["┏━━━╸"@, "┃    "@, "┣━━━┓"@, "┃   ┃"@, "┗━━━┛"@]
    } else if d == 7 {
        seq!["╺━━━┓"@, "    ┃"@, "    ┃"@, "    ┃"@, "    ╹"@]
    } else if d == 8 {
        seq!["┏━━━┓"@, "┃   ┃"@, "┣━━━┫"@, "┃   ┃"@, "┗━━━┛"@]
    } else if d == 9 {
        seq!["┏━━━┓"@, "┃   ┃"@, "┗━━━┫"@, "    ┃"@, "╺━━━┛"@]
    } else {
        seq!["     "@, "     "@, "╺━━━╸"@, "     "@, "     "@]
    }
}

/// The rows of the decorated catalogue: four variant classes of ten digits.
pub open spec fn dp_rows(v: int) -> Seq<Seq<char>> {
    if v == 0 {
        seq!["┏━━━┓"@, "┃   ┃"@, "┃   ┃"@, "┃   ┃"@, "┗━━━┛"@]
    } else if v == 1 {
        seq!["    ╻"@, "    ┃"@, "    ┃"@, "    ┃"@, "    ╹"@]
    } else if v == 2 {
        seq!["╺━━━┓"@, "    ┃"@, "┏━━━┛"@, "┃    "@, "┗━━━╸"@]
    } else if v == 3 {
        seq!["╺━━━┓"@, "    ┃"@, "╺━━━┫"@, "    ┃"@, "╺━━━┛"@]
    } else if v == 4 {
        seq!["╻   ╻"@, "┃   ┃"@, "┗━━━┫"@, "    ┃"@, "    ╹"@]
    } else if v == 5 {
        seq!["┏━━━╸"@, "┃    "@, "┗━━━┓"@, "    ┃"@, "╺━━━┛"@]
    } else if v == 6 {
        seq!["┏━━━╸"@, "┃    "@, "┣━━━┓"@, "┃   ┃"@, "┗━━━┛"@]
    } else if v == 7 {
        seq!["╺━━━┓"@, "    ┃"@, "    ┃"@, "    ┃"@, "    ╹"@]
    } else if v == 8 {
        seq!["┏━━━┓"@, "┃   ┃"@, "┣━━━┫"@, "┃   ┃"@, "┗━━━┛"@]
    } else if v == 9 {
        seq!["┏━━━┓"@, "┃   ┃"@, "┗━━━┫"@, "    ┃"@, "╺━━━┛"@]
    } else if v == 10 {
        seq!["┏━━━┓ "@, "┃   ┃ "@, "┃   ┃ "@, "┃   ┃ "@, "┗━━━┛⦁"@]
    } else if v == 11 {
        seq!["    ╻ "@, "    ┃ "@, "    ┃ "@, "    ┃ "@, "    ╹⦁"@]
    } else if v == 12 {
        seq!["╺━━━┓ "@, "    ┃ "@, "┏━━━┛ "@, "┃     "@, "┗━━━╸⦁"@]
    } else if v == 13 {
        seq!["╺━━━┓ "@, "    ┃ "@, "╺━━━┫ "@, "    ┃ "@, "╺━━━┛⦁"@]
    } else if v == 14 {
        seq!["╻   ╻ "@, "┃   ┃ "@, "┗━━━┫ "@, "    ┃ "@, "    ╹⦁"@]
    } else if v == 15 {
        seq!["┏━━━╸ "@, "┃     "@, "┗━━━┓ "@, "    ┃ "@, "╺━━━┛⦁"@]
    } else if v == 16 {
        seq!["┏━━━╸ "@, "┃     "@, "┣━━━┓ "@, "┃   ┃ "@, "┗━━━┛⦁"@]
    } else if v == 17 {
        seq!["╺━━━┓ "@, "    ┃ "@, "    ┃ "@, "    ┃ "@, "    ╹⦁"@]
    } else if v == 18 {
        seq!["┏━━━┓ "@, "┃   ┃ "@, "┣━━━┫ "@, "┃   ┃ "@, "┗━━━┛⦁"@]
    } else if v == 19 {
        seq!["┏━━━┓ "@, "┃   ┃ "@, "┗━━━┫ "@, "    ┃ "@, "╺━━━┛⦁"@]
    } else if v == 20 {
        seq!["  ┏━━━┓"@, "  ┃   ┃"@, "━━┃   ┃"@, "  ┃   ┃"@, "  ┗━━━┛"@]
    } else if v == 21 {
        seq!["      ╻"@, "      ┃"@, "    ━━┃"@, "      ┃"@, "      ╹"@]
    } else if v == 22 {
        seq!["  ╺━━━┓"@, "      ┃"@, "━━┏━━━┛"@, "  ┃    "@, "  ┗━━━╸"@]
    } else if v == 23 {
        seq!["  ╺━━━┓"@, "      ┃"@, "━━╺━━━┫"@, "      ┃"@, "  ╺━━━┛"@]
    } else if v == 24 {
        seq!["  ╻   ╻"@, "  ┃   ┃"@, "━━┗━━━┫"@, "      ┃"@, "      ╹"@]
    } else if v == 25 {
        seq!["  ┏━━━╸"@, "  ┃    "@, "━━┗━━━┓"@, "      ┃"@, "  ╺━━━┛"@]
    } else if v == 26 {
        seq!["  ┏━━━╸"@, "  ┃    "@, "━━┣━━━┓"@, "  ┃   ┃"@, "  ┗━━━┛"@]
    } else if v == 27 {
        seq!["  ╺━━━┓"@, "      ┃"@, "    ━━┃"@, "      ┃"@, "      ╹"@]
    } else if v == 28 {
        seq!["  ┏━━━┓"@, "  ┃   ┃"@, "━━┣━━━┫"@, "  ┃   ┃"@, "  ┗━━━┛"@]
    } else if v == 29 {
        seq!["  ┏━━━┓"@, "  ┃   ┃"@, "━━┗━━━┫"@, "      ┃"@, "  ╺━━━┛"@]
    } else if v == 30 {
        seq!["  ┏━━━┓ "@, "  ┃   ┃ "@, "━━┃   ┃ "@, "  ┃   ┃ "@, "  ┗━━━┛⦁"@]
    } else if v == 31 {
        seq!["      ╻ "@, "      ┃ "@, "    ━━┃ "@, "      ┃ "@, "      ╹⦁"@]
    } else if v == 32 {
        seq!["  ╺━━━┓ "@, "      ┃ "@, "━━┏━━━┛ "@, "  ┃     "@, "  ┗━━━╸⦁"@]
    } else if v == 33 {
        seq!["  ╺━━━┓ "@, "      ┃ "@, "━━╺━━━┫ "@, "      ┃ "@, "  ╺━━━┛⦁"@]
    } else if v == 34 {
        seq!["  ╻   ╻ "@, "  ┃   ┃ "@, "━━┗━━━┫ "@, "      ┃ "@, "      ╹⦁"@]
    } else if v == 35 {
        seq!["  ┏━━━╸ "@, "  ┃     "@, "━━┗━━━┓ "@, "      ┃ "@, "  ╺━━━┛⦁"@]
    } else if v == 36 {
        seq!["  ┏━━━╸ "@, "  ┃     "@, "━━┣━━━┓ "@, "  ┃   ┃ "@, "  ┗━━━┛⦁"@]
    } else if v == 37 {
        seq!["  ╺━━━┓ "@, "      ┃ "@, "    ━━┃ "@, "      ┃ "@, "      ╹⦁"@]
    } else if v == 38 {
        seq!["  ┏━━━┓ "@, "  ┃   ┃ "@, "━━┣━━━┫ "@, "  ┃   ┃ "@, "  ┗━━━┛⦁"@]
    } else {
        seq!["  ┏━━━┓ "@, "  ┃   ┃ "@, "━━┗━━━┫ "@, "      ┃ "@, "  ╺━━━┛⦁"@]
    }
}

/// Looks one glyph up in the basic catalogue and renders its text.
pub fn basic_glyph(i: usize) -> (g: String)
    requires
        i <= 10,
    ensures
        g@ == block_of(basic_rows(i as int)),
{
    match i {
        0 => build5("┏━━━┓", "┃   ┃", "┃   ┃", "┃   ┃", "┗━━━┛"),
        1 => build5("    ╻", "    ┃", "    ┃", "    ┃", "    ╹"),
        2 => build5("╺━━━┓", "    ┃", "┏━━━┛", "┃    ", "┗━━━╸"),
        3 => build5("╺━━━┓", "    ┃", "╺━━━┫", "    ┃", "╺━━━┛"),
        4 => build5("╻   ╻", "┃   ┃", "┗━━━┫", "    ┃", "    ╹"),
        5 => build5("┏━━━╸", "┃    ", "┗━━━┓", "    ┃", "╺━━━┛"),
        6 => build5("┏━━━╸", "┃    ", "┣━━━┓", "┃   ┃", "┗━━━┛"),
        7 => build5("╺━━━┓", "    ┃", "    ┃", "    ┃", "    ╹"),
        8 => build5("┏━━━┓", "┃   ┃", "┣━━━┫", "┃   ┃", "┗━━━┛"),
        9 => build5("┏━━━┓", "┃   ┃", "┗━━━┫", "    ┃", "╺━━━┛"),
        _ => build5("     ", "     ", "╺━━━╸", "     ", "     "),
    }
}

/// Looks one glyph up in the decorated catalogue and renders its text.
pub fn dp_glyph(i: usize) -> (g: String)
    requires
        i <= 39,
    ensures
        g@ == block_of(dp_rows(i as int)),
{
    match i {
        0 => build5("┏━━━┓", "┃   ┃", "┃   ┃", "┃   ┃", "┗━━━┛"),
        1 => build5("    ╻", "    ┃", "    ┃", "    ┃", "    ╹"),
        2 => build5("╺━━━┓", "    ┃", "┏━━━┛", "┃    ", "┗━━━╸"),
        3 => build5("╺━━━┓", "    ┃", "╺━━━┫", "    ┃", "╺━━━┛"),
        4 => build5("╻   ╻", "┃   ┃", "┗━━━┫", "    ┃", "    ╹"),
        5 => build5("┏━━━╸", "┃    ", "┗━━━┓", "    ┃", "╺━━━┛"),
        6 => build5("┏━━━╸", "┃    ", "┣━━━┓", "┃   ┃", "┗━━━┛"),
        7 => build5("╺━━━┓", "    ┃", "    ┃", "    ┃", "    ╹"),
        8 => build5("┏━━━┓", "┃   ┃", "┣━━━┫", "┃   ┃", "┗━━━┛"),
        9 => build5("┏━━━┓", "┃   ┃", "┗━━━┫", "    ┃", "╺━━━┛"),
        10 => build5("┏━━━┓ ", "┃   ┃ ", "┃   ┃ ", "┃   ┃ ", "┗━━━┛⦁"),
        11 => build5("    ╻ ", "    ┃ ", "    ┃ ", "    ┃ ", "    ╹⦁"),
        12 => build5("╺━━━┓ ", "    ┃ ", "┏━━━┛ ", "┃     ", "┗━━━╸⦁"),
        13 => build5("╺━━━┓ ", "    ┃ ", "╺━━━┫ ", "    ┃ ", "╺━━━┛⦁"),
        14 => build5("╻   ╻ ", "┃   ┃ ", "┗━━━┫ ", "    ┃ ", "    ╹⦁"),
        15 => build5("┏━━━╸ ", "┃     ", "┗━━━┓ ", "    ┃ ", "╺━━━┛⦁"),
        16 => build5("┏━━━╸ ", "┃     ", "┣━━━┓ ", "┃   ┃ ", "┗━━━┛⦁"),
        17 => build5("╺━━━┓ ", "    ┃ ", "    ┃ ", "    ┃ ", "    ╹⦁"),
        18 => build5("┏━━━┓ ", "┃   ┃ ", "┣━━━┫ ", "┃   ┃ ", "┗━━━┛⦁"),
        19 => build5("┏━━━┓ ", "┃   ┃ ", "┗━━━┫ ", "    ┃ ", "╺━━━┛⦁"),
        20 => build5("  ┏━━━┓", "  ┃   ┃", "━━┃   ┃", "  ┃   ┃", "  ┗━━━┛"),
        21 => build5("      ╻", "      ┃", "    ━━┃", "      ┃", "      ╹"),
        22 => build5("  ╺━━━┓", "      ┃", "━━┏━━━┛", "  ┃    ", "  ┗━━━╸"),
        23 => build5("  ╺━━━┓", "      ┃", "━━╺━━━┫", "      ┃", "  ╺━━━┛"),
        24 => build5("  ╻   ╻", "  ┃   ┃", "━━┗━━━┫", "      ┃", "      ╹"),
        25 => build5("  ┏━━━╸", "  ┃    ", "━━┗━━━┓", "      ┃", "  ╺━━━┛"),
        26 => build5("  ┏━━━╸", "  ┃    ", "━━┣━━━┓", "  ┃   ┃", "  ┗━━━┛"),
        27 => build5("  ╺━━━┓", "      ┃", "    ━━┃", "      ┃", "      ╹"),
        28 => build5("  ┏━━━┓", "  ┃   ┃", "━━┣━━━┫", "  ┃   ┃", "  ┗━━━┛"),
        29 => build5("  ┏━━━┓", "  ┃   ┃", "━━┗━━━┫", "      ┃", "  ╺━━━┛"),
        30 => build5("  ┏━━━┓ ", "  ┃   ┃ ", "━━┃   ┃ ", "  ┃   ┃ ", "  ┗━━━┛⦁"),
        31 => build5("      ╻ ", "      ┃ ", "    ━━┃ ", "      ┃ ", "      ╹⦁"),
        32 => build5("  ╺━━━┓ ", "      ┃ ", "━━┏━━━┛ ", "  ┃     ", "  ┗━━━╸⦁"),
        33 => build5("  ╺━━━┓ ", "      ┃ ", "━━╺━━━┫ ", "      ┃ ", "  ╺━━━┛⦁"),
        34 => build5("  ╻   ╻ ", "  ┃   ┃ ", "━━┗━━━┫ ", "      ┃ ", "      ╹⦁"),
        35 => build5("  ┏━━━╸ ", "  ┃     ", "━━┗━━━┓ ", "      ┃ ", "  ╺━━━┛⦁"),
        36 => build5("  ┏━━━╸ ", "  ┃     ", "━━┣━━━┓ ", "  ┃   ┃ ", "  ┗━━━┛⦁"),
        37 => build5("  ╺━━━┓ ", "      ┃ ", "    ━━┃ ", "      ┃ ", "      ╹⦁"),
        38 => build5("  ┏━━━┓ ", "  ┃   ┃ ", "━━┣━━━┫ ", "  ┃   ┃ ", "  ┗━━━┛⦁"),
        _ => build5("  ┏━━━┓ ", "  ┃   ┃ ", "━━┗━━━┫ ", "      ┃ ", "  ╺━━━┛⦁"),
    }
}

/// Every basic-catalogue glyph has five well-formed rows of width five.
pub proof fn lemma_basic_rows_wf(d: int)
    requires
        0 <= d <= 10,
    ensures
        wf_glyph(basic_rows(d)),
        forall|i: int| 0 <= i < 5 ==> #[trigger] basic_rows(d)[i].len() == 5,
{
    reveal_strlit("┏━━━┓");
    reveal_strlit("┃   ┃");
    reveal_strlit("┗━━━┛");
    reveal_strlit("    ╻");
    reveal_strlit("    ┃");
    reveal_strlit("    ╹");
    reveal_strlit("╺━━━┓");
    reveal_strlit("┏━━━┛");
    reveal_strlit("┃    ");
    reveal_strlit("┗━━━╸");
    reveal_strlit("╺━━━┫");
    reveal_strlit("╺━━━┛");
    reveal_strlit("╻   ╻");
    reveal_strlit("┗━━━┫");
    reveal_strlit("┏━━━╸");
    reveal_strlit("┗━━━┓");
    reveal_strlit("┣━━━┓");
    reveal_strlit("┣━━━┫");
    reveal_strlit("     ");
    reveal_strlit("╺━━━╸");
    assert(wf_row("┏━━━┓"@) && "┏━━━┓"@.len() == 5);
    assert(wf_row("┃   ┃"@) && "┃   ┃"@.len() == 5);
    assert(wf_row("┗━━━┛"@) && "┗━━━┛"@.len() == 5);
    assert(wf_row("    ╻"@) && "    ╻"@.len() == 5);
    assert(wf_row("    ┃"@) && "    ┃"@.len() == 5);
    assert(wf_row("    ╹"@) && "    ╹"@.len() == 5);
    assert(wf_row("╺━━━┓"@) && "╺━━━┓"@.len() == 5);
    assert(wf_row("┏━━━┛"@) && "┏━━━┛"@.len() == 5);
    assert(wf_row("┃    "@) && "┃    "@.len() == 5);
    assert(wf_row("┗━━━╸"@) && "┗━━━╸"@.len() == 5);
    assert(wf_row("╺━━━┫"@) && "╺━━━┫"@.len() == 5);
    assert(wf_row("╺━━━┛"@) && "╺━━━┛"@.len() == 5);
    assert(wf_row("╻   ╻"@) && "╻   ╻"@.len() == 5);
    assert(wf_row("┗━━━┫"@) && "┗━━━┫"@.len() == 5);
    assert(wf_row("┏━━━╸"@) && "┏━━━╸"@.len() == 5);
    assert(wf_row("┗━━━┓"@) && "┗━━━┓"@.len() == 5);
    assert(wf_row("┣━━━┓"@) && "┣━━━┓"@.len() == 5);
    assert(wf_row("┣━━━┫"@) && "┣━━━┫"@.len() == 5);
    assert(wf_row("     "@) && "     "@.len() == 5);
    assert(wf_row("╺━━━╸"@) && "╺━━━╸"@.len() == 5);
    if d == 0 {
        assert(wf_glyph(basic_rows(d)));
        assert(forall|i: int| 0 <= i < 5 ==> #[trigger] basic_rows(d)[i].len() == 5);
    } else if d == 1 {
        assert(wf_glyph(basic_rows(d)));
        assert(forall|i: int| 0 <= i < 5 ==> #[trigger] basic_rows(d)[i].len() == 5);
    } else if d == 2 {
        assert(wf_glyph(basic_rows(d)));
        assert(forall|i: int| 0 <= i < 5 ==> #[trigger] basic_rows(d)[i].len() == 5);
    } else if d == 3 {
        assert(wf_glyph(basic_rows(d)));
        assert(forall|i: int| 0 <= i < 5 ==> #[trigger] basic_rows(d)[i].len() == 5);
    } else if d == 4 {
        assert(wf_glyph(basic_rows(d)));
        assert(forall|i: int| 0 <= i < 5 ==> #[trigger] basic_rows(d)[i].len() == 5);
    } else if d == 5 {
        assert(wf_glyph(basic_rows(d)));
        assert(forall|i: int| 0 <= i < 5 ==> #[trigger] basic_rows(d)[i].len() == 5);
    } else if d == 6 {
        assert(wf_glyph(basic_rows(d)));
        assert(forall|i: int| 0 <= i < 5 ==> #[trigger] basic_rows(d)[i].len() == 5);
    } else if d == 7 {
        assert(wf_glyph(basic_rows(d)));
        assert(forall|i: int| 0 <= i < 5 ==> #[trigger] basic_rows(d)[i].len() == 5);
    } else if d == 8 {
        assert(wf_glyph(basic_rows(d)));
        assert(forall|i: int| 0 <= i < 5 ==> #[trigger] basic_rows(d)[i].len() == 5);
    } else if d == 9 {
        assert(wf_glyph(basic_rows(d)));
        assert(forall|i: int| 0 <= i < 5 ==> #[trigger] basic_rows(d)[i].len() == 5);
    } else {
        assert(wf_glyph(basic_rows(d)));
        assert(forall|i: int| 0 <= i < 5 ==> #[trigger] basic_rows(d)[i].len() == 5);
    }
}

proof fn lemma_dp_rows_wf_0(v: int)
    requires
        0 <= v <= 9,
    ensures
        wf_glyph(dp_rows(v)),
{
    reveal_strlit("┏━━━┓");
    reveal_strlit("┃   ┃");
    reveal_strlit("┗━━━┛");
    reveal_strlit("    ╻");
    reveal_strlit("    ┃");
    reveal_strlit("    ╹");
    reveal_strlit("╺━━━┓");
    reveal_strlit("┏━━━┛");
    reveal_strlit("┃    ");
    reveal_strlit("┗━━━╸");
    reveal_strlit("╺━━━┫");
    reveal_strlit("╺━━━┛");
    reveal_strlit("╻   ╻");
    reveal_strlit("┗━━━┫");
    reveal_strlit("┏━━━╸");
    reveal_strlit("┗━━━┓");
    reveal_strlit("┣━━━┓");
    reveal_strlit("┣━━━┫");
    assert(wf_row("┏━━━┓"@));
    assert(wf_row("┃   ┃"@));
    assert(wf_row("┗━━━┛"@));
    assert(wf_row("    ╻"@));
    assert(wf_row("    ┃"@));
    assert(wf_row("    ╹"@));
    assert(wf_row("╺━━━┓"@));
    assert(wf_row("┏━━━┛"@));
    assert(wf_row("┃    "@));
    assert(wf_row("┗━━━╸"@));
    assert(wf_row("╺━━━┫"@));
    assert(wf_row("╺━━━┛"@));
    assert(wf_row("╻   ╻"@));
    assert(wf_row("┗━━━┫"@));
    assert(wf_row("┏━━━╸"@));
    assert(wf_row("┗━━━┓"@));
    assert(wf_row("┣━━━┓"@));
    assert(wf_row("┣━━━┫"@));
    if v == 0 {
        assert(wf_glyph(dp_rows(v)));
    } else if v == 1 {
        assert(wf_glyph(dp_rows(v)));
    } else if v == 2 {
        assert(wf_glyph(dp_rows(v)));
    } else if v == 3 {
        assert(wf_glyph(dp_rows(v)));
    } else if v == 4 {
        assert(wf_glyph(dp_rows(v)));
    } else if v == 5 {
        assert(wf_glyph(dp_rows(v)));
    } else if v == 6 {
        assert(wf_glyph(dp_rows(v)));
    } else if v == 7 {
        assert(wf_glyph(dp_rows(v)));
    } else if v == 8 {
        assert(wf_glyph(dp_rows(v)));
    } else {
        assert(wf_glyph(dp_rows(v)));
    }
}

proof fn lemma_dp_rows_wf_1(v: int)
    requires
        10 <= v <= 19,
    ensures
        wf_glyph(dp_rows(v)),
{
    reveal_strlit("┏━━━┓ ");
    reveal_strlit("┃   ┃ ");
    reveal_strlit("┗━━━┛⦁");
    reveal_strlit("    ╻ ");
    reveal_strlit("    ┃ ");
    reveal_strlit("    ╹⦁");
    reveal_strlit("╺━━━┓ ");
    reveal_strlit("┏━━━┛ ");
    reveal_strlit("┃     ");
    reveal_strlit("┗━━━╸⦁");
    reveal_strlit("╺━━━┫ ");
    reveal_strlit("╺━━━┛⦁");
    reveal_strlit("╻   ╻ ");
    reveal_strlit("┗━━━┫ ");
    reveal_strlit("┏━━━╸ ");
    reveal_strlit("┗━━━┓ ");
    reveal_strlit("┣━━━┓ ");
    reveal_strlit("┣━━━┫ ");
    assert(wf_row("┏━━━┓ "@));
    assert(wf_row("┃   ┃ "@));
    assert(wf_row("┗━━━┛⦁"@));
    assert(wf_row("    ╻ "@));
    assert(wf_row("    ┃ "@));
    assert(wf_row("    ╹⦁"@));
    assert(wf_row("╺━━━┓ "@));
    assert(wf_row("┏━━━┛ "@));
    assert(wf_row("┃     "@));
    assert(wf_row("┗━━━╸⦁"@));
    assert(wf_row("╺━━━┫ "@));
    assert(wf_row("╺━━━┛⦁"@));
    assert(wf_row("╻   ╻ "@));
    assert(wf_row("┗━━━┫ "@));
    assert(wf_row("┏━━━╸ "@));
    assert(wf_row("┗━━━┓ "@));
    assert(wf_row("┣━━━┓ "@));
    assert(wf_row("┣━━━┫ "@));
    if v == 10 {
        assert(wf_glyph(dp_rows(v)));
    } else if v == 11 {
        assert(wf_glyph(dp_rows(v)));
    } else if v == 12 {
        assert(wf_glyph(dp_rows(v)));
    } else if v == 13 {
        assert(wf_glyph(dp_rows(v)));
    } else if v == 14 {
        assert(wf_glyph(dp_rows(v)));
    } else if v == 15 {
        assert(wf_glyph(dp_rows(v)));
    } else if v == 16 {
        assert(wf_glyph(dp_rows(v)));
    } else if v == 17 {
        assert(wf_glyph(dp_rows(v)));
    } else if v == 18 {
        assert(wf_glyph(dp_rows(v)));
    } else {
        assert(wf_glyph(dp_rows(v)));
    }
}

proof fn lemma_dp_rows_wf_2(v: int)
    requires
        20 <= v <= 29,
    ensures
        wf_glyph(dp_rows(v)),
{
    reveal_strlit("  ┏━━━┓");
    reveal_strlit("  ┃   ┃");
    reveal_strlit("━━┃   ┃");
    reveal_strlit("  ┗━━━┛");
    reveal_strlit("      ╻");
    reveal_strlit("      ┃");
    reveal_strlit("    ━━┃");
    reveal_strlit("      ╹");
    reveal_strlit("  ╺━━━┓");
    reveal_strlit("━━┏━━━┛");
    reveal_strlit("  ┃    ");
    reveal_strlit("  ┗━━━╸");
    reveal_strlit("━━╺━━━┫");
    reveal_strlit("  ╺━━━┛");
    reveal_strlit("  ╻   ╻");
    reveal_strlit("━━┗━━━┫");
    reveal_strlit("  ┏━━━╸");
    reveal_strlit("━━┗━━━┓");
    reveal_strlit("━━┣━━━┓");
    reveal_strlit("━━┣━━━┫");
    assert(wf_row("  ┏━━━┓"@));
    assert(wf_row("  ┃   ┃"@));
    assert(wf_row("━━┃   ┃"@));
    assert(wf_row("  ┗━━━┛"@));
    assert(wf_row("      ╻"@));
    assert(wf_row("      ┃"@));
    assert(wf_row("    ━━┃"@));
    assert(wf_row("      ╹"@));
    assert(wf_row("  ╺━━━┓"@));
    assert(wf_row("━━┏━━━┛"@));
    assert(wf_row("  ┃    "@));
    assert(wf_row("  ┗━━━╸"@));
    assert(wf_row("━━╺━━━┫"@));
    assert(wf_row("  ╺━━━┛"@));
    assert(wf_row("  ╻   ╻"@));
    assert(wf_row("━━┗━━━┫"@));
    assert(wf_row("  ┏━━━╸"@));
    assert(wf_row("━━┗━━━┓"@));
    assert(wf_row("━━┣━━━┓"@));
    assert(wf_row("━━┣━━━┫"@));
    if v == 20 {
        assert(wf_glyph(dp_rows(v)));
    } else if v == 21 {
        assert(wf_glyph(dp_rows(v)));
    } else if v == 22 {
        assert(wf_glyph(dp_rows(v)));
    } else if v == 23 {
        assert(wf_glyph(dp_rows(v)));
    } else if v == 24 {
        assert(wf_glyph(dp_rows(v)));
    } else if v == 25 {
        assert(wf_glyph(dp_rows(v)));
    } else if v == 26 {
        assert(wf_glyph(dp_rows(v)));
    } else if v == 27 {
        assert(wf_glyph(dp_rows(v)));
    } else if v == 28 {
        assert(wf_glyph(dp_rows(v)));
    } else {
        assert(wf_glyph(dp_rows(v)));
    }
}

proof fn lemma_dp_rows_wf_3(v: int)
    requires
        30 <= v <= 39,
    ensures
        wf_glyph(dp_rows(v)),
{
    reveal_strlit("  ┏━━━┓ ");
    reveal_strlit("  ┃   ┃ ");
    reveal_strlit("━━┃   ┃ ");
    reveal_strlit("  ┗━━━┛⦁");
    reveal_strlit("      ╻ ");
    reveal_strlit("      ┃ ");
    reveal_strlit("    ━━┃ ");
    reveal_strlit("      ╹⦁");
    reveal_strlit("  ╺━━━┓ ");
    reveal_strlit("━━┏━━━┛ ");
    reveal_strlit("  ┃     ");
    reveal_strlit("  ┗━━━╸⦁");
    reveal_strlit("━━╺━━━┫ ");
    reveal_strlit("  ╺━━━┛⦁");
    reveal_strlit("  ╻   ╻ ");
    reveal_strlit("━━┗━━━┫ ");
    reveal_strlit("  ┏━━━╸ ");
    reveal_strlit("━━┗━━━┓ ");
    reveal_strlit("━━┣━━━┓ ");
    reveal_strlit("━━┣━━━┫ ");
    assert(wf_row("  ┏━━━┓ "@));
    assert(wf_row("  ┃   ┃ "@));
    assert(wf_row("━━┃   ┃ "@));
    assert(wf_row("  ┗━━━┛⦁"@));
    assert(wf_row("      ╻ "@));
    assert(wf_row("      ┃ "@));
    assert(wf_row("    ━━┃ "@));
    assert(wf_row("      ╹⦁"@));
    assert(wf_row("  ╺━━━┓ "@));
    assert(wf_row("━━┏━━━┛ "@));
    assert(wf_row("  ┃     "@));
    assert(wf_row("  ┗━━━╸⦁"@));
    assert(wf_row("━━╺━━━┫ "@));
    assert(wf_row("  ╺━━━┛⦁"@));
    assert(wf_row("  ╻   ╻ "@));
    assert(wf_row("━━┗━━━┫ "@));
    assert(wf_row("  ┏━━━╸ "@));
    assert(wf_row("━━┗━━━┓ "@));
    assert(wf_row("━━┣━━━┓ "@));
    assert(wf_row("━━┣━━━┫ "@));
    if v == 30 {
        assert(wf_glyph(dp_rows(v)));
    } else if v == 31 {
        assert(wf_glyph(dp_rows(v)));
    } else if v == 32 {
        assert(wf_glyph(dp_rows(v)));
    } else if v == 33 {
        assert(wf_glyph(dp_rows(v)));
    } else if v == 34 {
        assert(wf_glyph(dp_rows(v)));
    } else if v == 35 {
        assert(wf_glyph(dp_rows(v)));
    } else if v == 36 {
        assert(wf_glyph(dp_rows(v)));
    } else if v == 37 {
        assert(wf_glyph(dp_rows(v)));
    } else if v == 38 {
        assert(wf_glyph(dp_rows(v)));
    } else {
        assert(wf_glyph(dp_rows(v)));
    }
}

/// Every decorated-catalogue glyph has five well-formed rows.
pub proof fn lemma_dp_rows_wf(v: int)
    requires
        0 <= v <= 39,
    ensures
        wf_glyph(dp_rows(v)),
{
    if v <= 9 {
        lemma_dp_rows_wf_0(v);
    } else if v <= 19 {
        lemma_dp_rows_wf_1(v);
    } else if v <= 29 {
        lemma_dp_rows_wf_2(v);
    } else {
        lemma_dp_rows_wf_3(v);
    }
}

} // verus!
