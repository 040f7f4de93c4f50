//! Terminal presentation: ANSI colouring and the visible width of coloured text.

use vstd::prelude::*;
use crate::text::{cat2, cat3, chars_of, concat_chars, decimal, string_of};

verus! {

/// Bold text.
pub const BOLD: &'static str = "\x1b[1m";

/// Dim text.
pub const DIM: &'static str = "\x1b[2m";

/// Bright red text.
pub const RED: &'static str = "\x1b[91m";

/// Bright green text.
pub const GREEN: &'static str = "\x1b[92m";

/// Bright yellow text.
pub const YELLOW: &'static str = "\x1b[93m";

/// Bright cyan text.
pub const CYAN: &'static str = "\x1b[96m";

/// The escape character that starts an ANSI control sequence.
pub open spec fn is_escape(c: char) -> bool {
    c == '\x1b'
}

/// Scanning `s` from the state `(count, inside)`: a character is counted when
/// it is outside an escape sequence; an escape character opens a sequence and
/// an `m` inside one closes it.
pub open spec fn visual_scan_from(state: (nat, bool), s: Seq<char>) -> (nat, bool)
    decreases s.len(),
{
    if s.len() == 0 {
        state
    } else {
        let (n, inside) = visual_scan_from(state, s.drop_last());
        let c = s.last();
        if is_escape(c) {
            (n, true)
        } else if inside {
            (n, c != 'm')
        } else {
            (n + 1, false)
        }
    }
}

/// The number of characters of `s` that show on a terminal.
pub open spec fn visual_width(s: Seq<char>) -> nat {
    visual_scan_from((0, false), s).0
}

/// Counts the characters of `s` that are not part of an ANSI escape sequence.
pub fn visual_len(s: &str) -> (n: usize)
    ensures
        n == visual_width(s@),
{
    let cs = chars_of(s);
    let mut len: usize = 0;
    let mut in_escape = false;
    let mut i: usize = 0;
    while i < cs.len()
        invariant
            cs@ == s@,
            i <= cs@.len(),
            len <= i,
            (len as nat, in_escape) == visual_scan_from((0, false), cs@.take(i as int)),
        decreases cs@.len() - i,
    {
        let c = cs[i];
        proof {
            assert(cs@.take(i + 1).drop_last() =~= cs@.take(i as int));
        }
        if c == '\x1b' {
            in_escape = true;
        } else if in_escape {
            if c == 'm' {
                in_escape = false;
            }
        } else {
            len = len + 1;
        }
        i = i + 1;
    }
    assert(cs@.take(i as int) =~= s@);
    len
}

/// `text` wrapped in the colour `code` and a reset, or `text` itself when
/// colour is off.
pub open spec fn colored(enabled: bool, code: Seq<char>, text: Seq<char>) -> Seq<char> {
    if enabled {
        code + text + "\x1b[0m"@
    } else {
        text
    }
}

/// Whether colour is used: `FORCE_COLOR=1` forces it on and `FORCE_COLOR=0`
/// forces it off; otherwise it is on exactly when standard output is a
/// terminal.
pub fn color_enabled(stdout_is_terminal: bool, force_color: Option<&str>) -> (r: bool)
    ensures
        r == match force_color {
            Some(v) => if v@ == "1"@ {
                true
            } else if v@ == "0"@ {
                false
            } else {
                stdout_is_terminal
            },
            None => stdout_is_terminal,
        },
{
    match force_color {
        Some(v) => {
            let c = chars_of(v);
            if crate::text::same_text(&c, "1") {
                true
            } else if crate::text::same_text(&c, "0") {
                false
            } else {
                stdout_is_terminal
            }
        },
        None => stdout_is_terminal,
    }
}

/// Wraps `text` in the colour `code` when colour output is enabled.
pub fn color(enabled: bool, code: &str, text: &str) -> (r: String)
    ensures
        r@ == colored(enabled, code@, text@),
{
    if enabled {
        let mut v = chars_of(code);
        let mut t = chars_of(text);
        let mut reset = chars_of("\x1b[0m");
        v.append(&mut t);
        v.append(&mut reset);
        string_of(&v)
    } else {
        string_of(&chars_of(text))
    }
}


/// `n` copies of `c`.
pub open spec fn repeated(c: char, n: nat) -> Seq<char> {
    Seq::new(n, |i: int| c)
}

fn repeat_char(c: char, n: usize) -> (r: Vec<char>)
    ensures
        r@ == repeated(c, n as nat),
{
    let mut r: Vec<char> = Vec::new();
    let mut i: usize = 0;
    while i < n
        invariant
            i <= n,
            r@ == repeated(c, i as nat),
        decreases n - i,
    {
        r.push(c);
        i = i + 1;
        assert(r@ =~= repeated(c, i as nat));
    }
    r
}

/// `a - b`, or 0 when `b` is larger.
pub open spec fn minus(a: int, b: int) -> nat {
    if a >= b {
        (a - b) as nat
    } else {
        0
    }
}

/// `label` padded with spaces on the right to 15 characters (as `{:<15}` does).
pub open spec fn padded_label(label: Seq<char>) -> Seq<char> {
    label + repeated(' ', minus(15, label.len() as int))
}

/// The width of the status card: at least 58, and wide enough for the widest value.
pub open spec fn card_width(max_value_width: nat) -> nat {
    if 24 + max_value_width > 58 {
        24 + max_value_width
    } else {
        58
    }
}

/// The widest visible width among the row values.
pub open spec fn widest(values: Seq<Seq<char>>) -> nat
    decreases values.len(),
{
    if values.len() == 0 {
        0
    } else {
        let rest = widest(values.drop_last());
        let w = visual_width(values.last());
        if w > rest {
            w
        } else {
            rest
        }
    }
}

/// The colour of the card's frame.
pub open spec fn frame_code() -> Seq<char> {
    BOLD@ + CYAN@
}

/// One row of the card: framed label, separator, value and padding.
pub open spec fn card_row(color_on: bool, width: nat, label: Seq<char>, value: Seq<char>) -> Seq<char> {
    let side = colored(color_on, frame_code(), "│"@);
    side + "  "@ + colored(color_on, BOLD@, padded_label(label)) + " : "@ + value + repeated(
        ' ',
        minus(width as int, (24 + visual_width(value)) as int),
    ) + "  "@ + side
}

/// The lines of the status card for the given (label, value) rows: a blank
/// line, the titled top border, one line per row, the bottom border and a
/// blank line.
pub open spec fn card_lines(color_on: bool, rows: Seq<(Seq<char>, Seq<char>)>) -> Seq<Seq<char>> {
    let width = card_width(widest(rows.map_values(|r: (Seq<char>, Seq<char>)| r.1)));
    let prefix = "╭── PESU WiFi Status "@;
    let top = colored(color_on, frame_code(), prefix + repeated('─', minus(width as int, (prefix.len() + 1) as int)) + "╮"@);
    let bottom = colored(color_on, frame_code(), "╰"@ + repeated('─', minus(width as int, 2)) + "╯"@);
    seq![Seq::<char>::empty(), top] + rows.map_values(
        |r: (Seq<char>, Seq<char>)| card_row(color_on, width, r.0, r.1),
    ) + seq![bottom, Seq::<char>::empty()]
}

/// The texts of the card rows.
pub open spec fn rows_text(rows: Seq<(String, String)>) -> Seq<(Seq<char>, Seq<char>)> {
    rows.map_values(|r: (String, String)| (r.0@, r.1@))
}

fn frame(color_on: bool, text: &str) -> (r: String)
    ensures
        r@ == colored(color_on, frame_code(), text@),
{
    let code = cat2(BOLD, CYAN);
    color(color_on, code.as_str(), text)
}

/// Lays out the status card.
pub fn status_card(color_on: bool, rows: &Vec<(String, String)>) -> (lines: Vec<String>)
    requires
        forall|i: int| 0 <= i < rows@.len() ==> #[trigger] rows@[i].1@.len() + 24 <= usize::MAX,
    ensures
        lines@.map_values(|l: String| l@) == card_lines(color_on, rows_text(rows@)),
{
    let ghost values = rows_text(rows@).map_values(|r: (Seq<char>, Seq<char>)| r.1);
    let mut max_len: usize = 0;
    let mut i: usize = 0;
    while i < rows.len()
        invariant
            i <= rows@.len(),
            forall|k: int| 0 <= k < rows@.len() ==> #[trigger] rows@[k].1@.len() + 24 <= usize::MAX,
            values == rows_text(rows@).map_values(|r: (Seq<char>, Seq<char>)| r.1),
            max_len == widest(values.take(i as int)),
            max_len + 24 <= usize::MAX,
        decreases rows@.len() - i,
    {
        let w = visual_len(rows[i].1.as_str());
        proof {
            assert(values.take(i + 1).drop_last() =~= values.take(i as int));
            assert(values[i as int] == rows@[i as int].1@);
            lemma_visual_width_bound((0, false), rows@[i as int].1@);
        }
        if w > max_len {
            max_len = w;
        }
        i = i + 1;
    }
    assert(values.take(i as int) =~= values);
    let width: usize = if 24 + max_len > 58 { 24 + max_len } else { 58 };
    let mut lines: Vec<String> = Vec::new();
    lines.push(String::new());
    proof {
        reveal_strlit("╭── PESU WiFi Status ");
    }
    let prefix = chars_of("╭── PESU WiFi Status ");
    let dashes = repeat_char('─', if width >= prefix.len() + 1 { width - (prefix.len() + 1) } else { 0 });
    let top_text = concat_chars(&concat_chars(&prefix, &dashes), &chars_of("╮"));
    lines.push(frame(color_on, string_of(&top_text).as_str()));
    let side = frame(color_on, "│");
    let mut k: usize = 0;
    let ghost head = seq![Seq::<char>::empty(), colored(color_on, frame_code(), top_text@)];
    while k < rows.len()
        invariant
            k <= rows@.len(),
            forall|m: int| 0 <= m < rows@.len() ==> #[trigger] rows@[m].1@.len() + 24 <= usize::MAX,
            width as nat == card_width(widest(values)),
            values == rows_text(rows@).map_values(|r: (Seq<char>, Seq<char>)| r.1),
            side@ == colored(color_on, frame_code(), "│"@),
            lines@.map_values(|l: String| l@) == head + rows_text(rows@).take(k as int).map_values(
                |r: (Seq<char>, Seq<char>)| card_row(color_on, width as nat, r.0, r.1),
            ),
        decreases rows@.len() - k,
    {
        let label = chars_of(rows[k].0.as_str());
        let pad_label = concat_chars(&label, &repeat_char(' ', if label.len() < 15 { 15 - label.len() } else { 0 }));
        let v = rows[k].1.as_str();
        let vw = visual_len(v);
        proof {
            lemma_visual_width_bound((0, false), v@);
        }
        let pad = repeat_char(' ', if width >= 24 + vw { width - (24 + vw) } else { 0 });
        let a = cat3(side.as_str(), "  ", color(color_on, BOLD, string_of(&pad_label).as_str()).as_str());
        let b = cat3(a.as_str(), " : ", v);
        let c = cat3(b.as_str(), string_of(&pad).as_str(), "  ");
        let line = cat2(c.as_str(), side.as_str());
        let ghost before = lines@;
        lines.push(line);
        proof {
            assert(rows_text(rows@)[k as int] == (rows@[k as int].0@, rows@[k as int].1@));
            assert(line@ == card_row(color_on, width as nat, rows@[k as int].0@, rows@[k as int].1@));
            assert(rows_text(rows@).take(k + 1) =~= rows_text(rows@).take(k as int).push(rows_text(rows@)[k as int]));
            assert(lines@.map_values(|l: String| l@) =~= before.map_values(|l: String| l@).push(line@));
            assert(lines@.map_values(|l: String| l@) =~= head + rows_text(rows@).take(k + 1).map_values(
                |r: (Seq<char>, Seq<char>)| card_row(color_on, width as nat, r.0, r.1),
            ));
        }
        k = k + 1;
    }
    let bottom_text = concat_chars(
        &concat_chars(&chars_of("╰"), &repeat_char('─', if width >= 2 { width - 2 } else { 0 })),
        &chars_of("╯"),
    );
    let ghost before = lines@;
    lines.push(frame(color_on, string_of(&bottom_text).as_str()));
    lines.push(String::new());
    proof {
        assert(rows_text(rows@).take(rows@.len() as int) =~= rows_text(rows@));
        reveal_strlit("╭── PESU WiFi Status ");
        assert(lines@.map_values(|l: String| l@) =~= card_lines(color_on, rows_text(rows@)));
    }
    lines
}

proof fn lemma_visual_width_bound(state: (nat, bool), s: Seq<char>)
    ensures
        visual_scan_from(state, s).0 <= state.0 + s.len(),
    decreases s.len(),
{
    if s.len() > 0 {
        lemma_visual_width_bound(state, s.drop_last());
    }
}


// ---------------------------------------------------------------------------
// Laws of colouring
// ---------------------------------------------------------------------------

/// Text that adds nothing to the visible width, wherever it starts outside
/// an escape sequence, and ends outside one.
pub open spec fn invisible(code: Seq<char>) -> bool {
    forall|n: nat| #[trigger] visual_scan_from((n, false), code) == (n, false)
}

/// Text without escape characters.
pub open spec fn escape_free(text: Seq<char>) -> bool {
    forall|i: int| 0 <= i < text.len() ==> !is_escape(#[trigger] text[i])
}

/// Scanning a concatenation scans the second part from where the first ended.
pub proof fn lemma_scan_concat(state: (nat, bool), a: Seq<char>, b: Seq<char>)
    ensures
        visual_scan_from(state, a + b) == visual_scan_from(visual_scan_from(state, a), b),
    decreases b.len(),
{
    if b.len() == 0 {
        assert(a + b =~= a);
    } else {
        lemma_scan_concat(state, a, b.drop_last());
        assert((a + b).drop_last() =~= a + b.drop_last());
        assert((a + b).last() == b.last());
    }
}

/// Escape-free text counts every character, from outside an escape sequence.
pub proof fn lemma_scan_plain(n: nat, text: Seq<char>)
    requires
        escape_free(text),
    ensures
        visual_scan_from((n, false), text) == (n + text.len(), false),
    decreases text.len(),
{
    if text.len() > 0 {
        lemma_scan_plain(n, text.drop_last());
        assert(!is_escape(text[text.len() - 1]));
    }
}

/// Two invisible texts make an invisible text.
pub proof fn lemma_invisible_concat(a: Seq<char>, b: Seq<char>)
    requires
        invisible(a),
        invisible(b),
    ensures
        invisible(a + b),
{
    assert forall|n: nat| #[trigger] visual_scan_from((n, false), a + b) == (n, false) by {
        lemma_scan_concat((n, false), a, b);
        assert(visual_scan_from((n, false), a) == (n, false));
    }
}

proof fn lemma_sgr_invisible(code: Seq<char>)
    requires
        code.len() >= 3,
        is_escape(code[0]),
        code.last() == 'm',
        forall|i: int| 1 <= i < code.len() - 1 ==> code[i] != 'm' && !is_escape(#[trigger] code[i]),
    ensures
        invisible(code),
{
    assert forall|n: nat| #[trigger] visual_scan_from((n, false), code) == (n, false) by {
        lemma_scan_inside(n, code, code.len() - 1);
    }
}

proof fn lemma_scan_inside(n: nat, code: Seq<char>, k: int)
    requires
        1 <= k <= code.len() - 1,
        code.len() >= 3,
        is_escape(code[0]),
        code.last() == 'm',
        forall|i: int| 1 <= i < code.len() - 1 ==> code[i] != 'm' && !is_escape(#[trigger] code[i]),
    ensures
        visual_scan_from((n, false), code.take(k)) == (n, true),
        k == code.len() - 1 ==> visual_scan_from((n, false), code) == (n, false),
    decreases k,
{
    if k > 1 {
        lemma_scan_inside(n, code, k - 1);
        assert(code.take(k).drop_last() =~= code.take(k - 1));
        let c = code[k - 1];
        assert(code.take(k).last() == c);
        assert(c != 'm' && !is_escape(c));
        assert(visual_scan_from((n, false), code.take(k - 1)) == (n, true));
        assert(visual_scan_from((n, false), code.take(k)) == (n, true));
    } else {
        assert(code.take(1).drop_last() =~= Seq::<char>::empty());
        assert(code.take(1).last() == code[0]);
        assert(visual_scan_from((n, false), Seq::<char>::empty()) == (n, false));
        assert(visual_scan_from((n, false), code.take(1)) == (n, true));
    }
    if k == code.len() - 1 {
        assert(code.drop_last() =~= code.take(k));
        assert(!is_escape('m'));
        assert(visual_scan_from((n, false), code) == (n, false));
    }
}

/// The colour codes and the reset are invisible.
pub proof fn lemma_codes_invisible()
    ensures
        invisible(BOLD@),
        invisible(DIM@),
        invisible(RED@),
        invisible(GREEN@),
        invisible(YELLOW@),
        invisible(CYAN@),
        invisible("\x1b[0m"@),
{
    reveal_strlit("\x1b[1m");
    reveal_strlit("\x1b[2m");
    reveal_strlit("\x1b[91m");
    reveal_strlit("\x1b[92m");
    reveal_strlit("\x1b[93m");
    reveal_strlit("\x1b[96m");
    reveal_strlit("\x1b[0m");
    lemma_sgr_invisible(BOLD@);
    lemma_sgr_invisible(DIM@);
    lemma_sgr_invisible(RED@);
    lemma_sgr_invisible(GREEN@);
    lemma_sgr_invisible(YELLOW@);
    lemma_sgr_invisible(CYAN@);
    lemma_sgr_invisible("\x1b[0m"@);
}

/// Colouring never changes the visible width of escape-free text: with an
/// invisible colour code (such as the codes above, or several of them one
/// after the other), the coloured text is exactly as wide as the text.
pub proof fn lemma_color_keeps_width(on: bool, code: Seq<char>, text: Seq<char>)
    requires
        invisible(code),
        escape_free(text),
    ensures
        visual_width(colored(on, code, text)) == text.len(),
{
    lemma_codes_invisible();
    lemma_scan_plain(0, text);
    if on {
        lemma_scan_concat((0, false), code + text, "\x1b[0m"@);
        lemma_scan_concat((0, false), code, text);
        assert(visual_scan_from((0, false), code) == (0nat, false));
        assert(visual_scan_from((text.len(), false), "\x1b[0m"@) == (text.len(), false));
    }
}

// ---------------------------------------------------------------------------
// Alignment of the status card
// ---------------------------------------------------------------------------

/// Text whose escape sequences are all closed: scanned from outside a
/// sequence, it adds its visible width and ends outside one.
pub open spec fn balanced(v: Seq<char>) -> bool {
    forall|n: nat| #[trigger] visual_scan_from((n, false), v) == (n + visual_width(v), false)
}

proof fn lemma_plain_balanced(t: Seq<char>)
    requires
        escape_free(t),
    ensures
        balanced(t),
        visual_width(t) == t.len(),
{
    lemma_scan_plain(0, t);
    assert forall|n: nat| #[trigger] visual_scan_from((n, false), t) == (n + visual_width(t), false) by {
        lemma_scan_plain(n, t);
    }
}

proof fn lemma_balanced_concat(a: Seq<char>, b: Seq<char>)
    requires
        balanced(a),
        balanced(b),
    ensures
        balanced(a + b),
        visual_width(a + b) == visual_width(a) + visual_width(b),
{
    lemma_scan_concat((0, false), a, b);
    assert(visual_scan_from((0, false), a) == (0 + visual_width(a), false));
    assert(visual_scan_from((visual_width(a), false), b) == (visual_width(a) + visual_width(b), false));
    assert forall|n: nat| #[trigger] visual_scan_from((n, false), a + b) == (n + visual_width(a + b), false) by {
        lemma_scan_concat((n, false), a, b);
        assert(visual_scan_from((n, false), a) == (n + visual_width(a), false));
        assert(visual_scan_from((n + visual_width(a), false), b) == (n + visual_width(a) + visual_width(b), false));
    }
}

proof fn lemma_colored_balanced(on: bool, code: Seq<char>, text: Seq<char>)
    requires
        invisible(code),
        escape_free(text),
    ensures
        balanced(colored(on, code, text)),
        visual_width(colored(on, code, text)) == text.len(),
{
    lemma_codes_invisible();
    lemma_plain_balanced(text);
    if on {
        assert(balanced(code)) by {
            assert(visual_scan_from((0, false), code) == (0nat, false));
        }
        assert(balanced("\x1b[0m"@)) by {
            assert(visual_scan_from((0, false), "\x1b[0m"@) == (0nat, false));
        }
        lemma_balanced_concat(code, text);
        lemma_balanced_concat(code + text, "\x1b[0m"@);
    }
}

proof fn lemma_escape_free_concat(a: Seq<char>, b: Seq<char>)
    requires
        escape_free(a),
        escape_free(b),
    ensures
        escape_free(a + b),
{
    assert forall|i: int| 0 <= i < (a + b).len() implies !is_escape(#[trigger] (a + b)[i]) by {
        if i < a.len() {
            assert((a + b)[i] == a[i]);
        } else {
            assert((a + b)[i] == b[i - a.len()]);
        }
    }
}

proof fn lemma_widest_bound(values: Seq<Seq<char>>, i: int)
    requires
        0 <= i < values.len(),
    ensures
        visual_width(values[i]) <= widest(values),
    decreases values.len(),
{
    if i < values.len() - 1 {
        lemma_widest_bound(values.drop_last(), i);
        assert(values.drop_last()[i] == values[i]);
    }
}

proof fn lemma_frame_invisible()
    ensures
        invisible(frame_code()),
{
    lemma_codes_invisible();
    lemma_invisible_concat(BOLD@, CYAN@);
}

/// The status card is aligned: its top border, every row and its bottom
/// border are equally wide on the terminal, at least 58 characters, and wide
/// enough to hold each row's value beside its label (24 characters of frame,
/// label and separator). This holds for labels of at most 15 plain
/// characters and values whose colour codes are closed.
pub proof fn lemma_card_aligned(on: bool, rows: Seq<(Seq<char>, Seq<char>)>)
    requires
        forall|i: int| 0 <= i < rows.len() ==> (#[trigger] rows[i]).0.len() <= 15 && escape_free(rows[i].0)
            && balanced(rows[i].1),
    ensures
        ({
            let lines = card_lines(on, rows);
            let w = visual_width(lines[1]);
            &&& lines.len() == rows.len() + 4
            &&& w >= 58
            &&& forall|i: int| 1 <= i < lines.len() - 1 ==> visual_width(#[trigger] lines[i]) == w
            &&& forall|i: int| 0 <= i < rows.len() ==> 24 + visual_width(#[trigger] rows[i].1) <= w
        }),
{
    reveal_strlit("╭── PESU WiFi Status ");
    reveal_strlit("╮");
    reveal_strlit("╰");
    reveal_strlit("╯");
    reveal_strlit("│");
    reveal_strlit("  ");
    reveal_strlit(" : ");
    lemma_frame_invisible();
    lemma_codes_invisible();
    let values = rows.map_values(|r: (Seq<char>, Seq<char>)| r.1);
    let width = card_width(widest(values));
    let lines = card_lines(on, rows);
    let prefix = "╭── PESU WiFi Status "@;
    assert(prefix.len() == 21);
    assert(escape_free(prefix));
    let dashes = repeated('─', minus(width as int, (prefix.len() + 1) as int));
    assert(escape_free(dashes));
    assert(escape_free("╮"@));
    lemma_escape_free_concat(prefix, dashes);
    lemma_escape_free_concat(prefix + dashes, "╮"@);
    lemma_colored_balanced(on, frame_code(), prefix + dashes + "╮"@);
    assert(lines[1] == colored(on, frame_code(), prefix + dashes + "╮"@));
    assert(visual_width(lines[1]) == width);
    let bar = repeated('─', minus(width as int, 2));
    assert(escape_free(bar));
    assert(escape_free("╰"@));
    assert(escape_free("╯"@));
    lemma_escape_free_concat("╰"@, bar);
    lemma_escape_free_concat("╰"@ + bar, "╯"@);
    lemma_colored_balanced(on, frame_code(), "╰"@ + bar + "╯"@);
    assert(lines[rows.len() as int + 2] == colored(on, frame_code(), "╰"@ + bar + "╯"@));
    let side = colored(on, frame_code(), "│"@);
    assert(escape_free("│"@));
    lemma_colored_balanced(on, frame_code(), "│"@);
    assert(escape_free("  "@));
    assert(escape_free(" : "@));
    lemma_plain_balanced("  "@);
    lemma_plain_balanced(" : "@);
    assert forall|i: int| 0 <= i < rows.len() implies 24 + visual_width(#[trigger] rows[i].1) <= width by {
        lemma_widest_bound(values, i);
        assert(values[i] == rows[i].1);
    }
    assert forall|i: int| 1 <= i < lines.len() - 1 implies visual_width(#[trigger] lines[i]) == width by {
        if 2 <= i < rows.len() + 2 {
            let (label, value) = rows[i - 2];
            assert(24 + visual_width(rows[i - 2].1) <= width);
            let padded = padded_label(label);
            let spaces = repeated(' ', minus(width as int, (24 + visual_width(value)) as int));
            assert(escape_free(spaces));
            assert(escape_free(repeated(' ', minus(15, label.len() as int))));
            lemma_escape_free_concat(label, repeated(' ', minus(15, label.len() as int)));
            assert(padded.len() == 15);
            lemma_colored_balanced(on, BOLD@, padded);
            lemma_plain_balanced(spaces);
            let p1 = side + "  "@;
            lemma_balanced_concat(side, "  "@);
            let p2 = p1 + colored(on, BOLD@, padded);
            lemma_balanced_concat(p1, colored(on, BOLD@, padded));
            let p3 = p2 + " : "@;
            lemma_balanced_concat(p2, " : "@);
            let p4 = p3 + value;
            lemma_balanced_concat(p3, value);
            let p5 = p4 + spaces;
            lemma_balanced_concat(p4, spaces);
            let p6 = p5 + "  "@;
            lemma_balanced_concat(p5, "  "@);
            lemma_balanced_concat(p6, side);
            assert(lines[i] == card_row(on, width, label, value));
            assert(card_row(on, width, label, value) == p6 + side);
        }
    }
}

} // verus!
