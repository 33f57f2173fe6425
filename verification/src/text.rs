//! Label text: line splitting, display widths and stacked vertical labels.

use vstd::prelude::*;

use unicode_width::UnicodeWidthChar;

verus! {

/// The display width in columns that `unicode_width` gives `c`, or `None` for a control
/// character.
pub uninterp spec fn unicode_width_of(c: char) -> Option<usize>;

/// `unicode_width::UnicodeWidthChar::width` on a `char`.
///
/// Claims that the result is [`unicode_width_of`]`(c)`, and, as the crate's lookup code
/// shows, that printable ASCII (`' '` up to but excluding `'\u{7f}'`) is one column wide and
/// that the C0 and C1 control characters have no width. Nothing more is stated of the
/// Unicode tables.
#[verifier::external_body]
fn char_unicode_width(c: char) -> (r: Option<usize>)
    ensures
        r == unicode_width_of(c),
        0x20 <= (c as u32) < 0x7f ==> r == Some(1usize),
        (c as u32) < 0x20 || (0x7f <= (c as u32) < 0xa0) ==> r == None::<usize>,
{
    c.width()
}

/// The first character of the uppercase mapping of `c`, as the mapping's iterator yields
/// it.
pub uninterp spec fn uppercase_first(c: char) -> Option<char>;

/// `char::to_uppercase` on `c`, read through its iterator's first `next`. Claims only that
/// the result is [`uppercase_first`]`(c)`; the standard library documents that the mapping
/// yields at least one character (`c` itself when it has no uppercase form), which is not
/// stated here.
#[verifier::external_body]
fn char_uppercase_first(c: char) -> (r: Option<char>)
    ensures
        r == uppercase_first(c),
{
    c.to_uppercase().next()
}

/// `String::push`: appends `c`.
#[verifier::external_body]
pub(crate) fn string_push(s: &mut String, c: char)
    ensures
        final(s)@ == old(s)@.push(c),
{
    s.push(c)
}

/// A line with one trailing carriage return removed, if it has one.
pub open spec fn strip_cr(line: Seq<char>) -> Seq<char> {
    if line.len() > 0 && line.last() == '\r' {
        line.drop_last()
    } else {
        line
    }
}

/// The finished lines and the line in progress after reading `s`: each `'\n'` ends a line,
/// from which a carriage return just before the `'\n'` is dropped.
pub open spec fn scan_lines(s: Seq<char>) -> (Seq<Seq<char>>, Seq<char>)
    decreases s.len(),
{
    if s.len() == 0 {
        (Seq::empty(), Seq::empty())
    } else {
        let (done, cur) = scan_lines(s.drop_last());
        if s.last() == '\n' {
            (done.push(strip_cr(cur)), Seq::empty())
        } else {
            (done, cur.push(s.last()))
        }
    }
}

/// The lines of `s` as `str::lines` gives them: split at `'\n'` (and `"\r\n"`), with no
/// empty line after a final line ending.
pub open spec fn text_lines(s: Seq<char>) -> Seq<Seq<char>> {
    let (done, cur) = scan_lines(s);
    if cur.len() > 0 {
        done.push(cur)
    } else {
        done
    }
}

/// The character drawn for `c`: its uppercase form when `all_caps` is set.
pub open spec fn shown_char(c: char, all_caps: bool) -> char {
    if all_caps {
        match uppercase_first(c) {
            Some(u) => u,
            None => c,
        }
    } else {
        c
    }
}

/// Columns taken by `c` as drawn: its display width (cut to `u16`), or zero for a control
/// character.
pub open spec fn char_cols(c: char, all_caps: bool) -> int {
    match unicode_width_of(shown_char(c, all_caps)) {
        Some(w) => (w as u16) as int,
        None => 0,
    }
}

/// Columns taken by a line: the sum of its characters' widths.
pub open spec fn line_cols(line: Seq<char>, all_caps: bool) -> int
    decreases line.len(),
{
    if line.len() == 0 {
        0
    } else {
        line_cols(line.drop_last(), all_caps) + char_cols(line.last(), all_caps)
    }
}

/// The widest of `lines`, or zero when there are none.
pub open spec fn widest_line(lines: Seq<Seq<char>>, all_caps: bool) -> int
    decreases lines.len(),
{
    if lines.len() == 0 {
        0
    } else {
        let rest = widest_line(lines.drop_last(), all_caps);
        let last = line_cols(lines.last(), all_caps);
        if rest >= last {
            rest
        } else {
            last
        }
    }
}

/// Every line of the label is at most `u16::MAX` columns wide.
pub open spec fn lines_fit(label: Seq<char>, all_caps: bool) -> bool {
    forall|i: int|
        0 <= i < text_lines(label).len() ==> #[trigger] line_cols(text_lines(label)[i], all_caps)
            <= u16::MAX
}

/// Line widths are never negative.
pub proof fn lemma_line_cols_nonneg(line: Seq<char>, all_caps: bool)
    ensures
        line_cols(line, all_caps) >= 0,
    decreases line.len(),
{
    if line.len() > 0 {
        lemma_line_cols_nonneg(line.drop_last(), all_caps);
    }
}

/// The widest line is never negative.
pub proof fn lemma_widest_line_nonneg(lines: Seq<Seq<char>>, all_caps: bool)
    ensures
        widest_line(lines, all_caps) >= 0,
    decreases lines.len(),
{
    if lines.len() > 0 {
        lemma_widest_line_nonneg(lines.drop_last(), all_caps);
    }
}

/// The display width of a label: its widest line.
pub open spec fn label_cols(label: Seq<char>, all_caps: bool) -> int {
    widest_line(text_lines(label), all_caps)
}

/// The number of lines of a label, cut to `u16`.
pub open spec fn label_rows(label: Seq<char>) -> int {
    (text_lines(label).len() as u16) as int
}

/// `s` with its characters stacked one per row: joined by `'\n'`.
pub open spec fn stacked(s: Seq<char>) -> Seq<char>
    decreases s.len(),
{
    if s.len() == 0 {
        Seq::empty()
    } else if s.len() == 1 {
        seq![s[0]]
    } else {
        stacked(s.drop_last()).push('\n').push(s.last())
    }
}

/// The characters of `s`.
pub fn str_chars(s: &str) -> (r: Vec<char>)
    ensures
        r@ == s@,
{
    let n = s.unicode_len();
    let mut r: Vec<char> = Vec::new();
    let mut i: usize = 0;
    while i < n
        invariant
            n == s@.len(),
            i <= n,
            r@ == s@.take(i as int),
        decreases n - i,
    {
        let c = s.get_char(i);
        r.push(c);
        i += 1;
        assert(r@ =~= s@.take(i as int));
    }
    assert(r@ =~= s@);
    r
}

/// The lines of `chars`, as [`text_lines`] gives them.
pub fn split_lines(chars: &Vec<char>) -> (r: Vec<Vec<char>>)
    ensures
        r@.len() == text_lines(chars@).len(),
        forall|i: int| 0 <= i < r@.len() ==> #[trigger] r@[i]@ == text_lines(chars@)[i],
{
    let mut done: Vec<Vec<char>> = Vec::new();
    let mut cur: Vec<char> = Vec::new();
    let mut i: usize = 0;
    while i < chars.len()
        invariant
            i <= chars.len(),
            done@.len() == scan_lines(chars@.take(i as int)).0.len(),
            forall|j: int|
                0 <= j < done@.len() ==> #[trigger] done@[j]@ == scan_lines(
                    chars@.take(i as int),
                ).0[j],
            cur@ == scan_lines(chars@.take(i as int)).1,
        decreases chars.len() - i,
    {
        let c = chars[i];
        assert(chars@.take(i + 1).drop_last() =~= chars@.take(i as int));
        if c == '\n' {
            let mut line = cur;
            if line.len() > 0 && line[line.len() - 1] == '\r' {
                line.pop();
            }
            done.push(line);
            cur = Vec::new();
        } else {
            cur.push(c);
        }
        i += 1;
    }
    assert(chars@.take(chars.len() as int) =~= chars@);
    if cur.len() > 0 {
        done.push(cur);
    }
    done
}

/// The character drawn for `ch`: its uppercase form when `all_caps` is set.
pub fn label_char(ch: char, all_caps: bool) -> (r: char)
    ensures
        r == shown_char(ch, all_caps),
{
    if all_caps {
        match char_uppercase_first(ch) {
            Some(u) => u,
            None => ch,
        }
    } else {
        ch
    }
}

/// Whether `c` is printable ASCII: from `' '` up to but excluding `'\u{7f}'`.
pub open spec fn printable_ascii(c: char) -> bool {
    0x20 <= (c as u32) < 0x7f
}

/// Columns taken by `ch` as drawn. Printable ASCII drawn as it is takes one column.
pub fn char_display_width(ch: char, all_caps: bool) -> (r: u16)
    ensures
        r == char_cols(ch, all_caps),
        !all_caps && printable_ascii(ch) ==> r == 1,
{
    match char_unicode_width(label_char(ch, all_caps)) {
        Some(w) => w as u16,
        None => 0,
    }
}

/// Columns taken by `line`, or `None` when they pass `u16::MAX`. A line of printable ASCII
/// drawn as it is takes one column per character.
pub fn line_display_width(line: &Vec<char>, all_caps: bool) -> (r: Option<u16>)
    ensures
        match r {
            Some(w) => w == line_cols(line@, all_caps),
            None => line_cols(line@, all_caps) > u16::MAX,
        },
        !all_caps && line@.len() <= u16::MAX && (forall|j: int|
            0 <= j < line@.len() ==> printable_ascii(#[trigger] line@[j])) ==> r == Some(
            line@.len() as u16,
        ),
{
    let mut total: u16 = 0;
    let mut i: usize = 0;
    while i < line.len()
        invariant
            i <= line.len(),
            total == line_cols(line@.take(i as int), all_caps),
            !all_caps && (forall|j: int|
                0 <= j < line@.len() ==> printable_ascii(#[trigger] line@[j])) ==> total == i,
        decreases line.len() - i,
    {
        assert(line@.take(i + 1).drop_last() =~= line@.take(i as int));
        let w = char_display_width(line[i], all_caps);
        if total as u32 + w as u32 > u16::MAX as u32 {
            proof {
                lemma_line_cols_grows(line@, all_caps, i + 1);
            }
            return None;
        }
        total = total + w;
        i += 1;
    }
    assert(line@.take(line.len() as int) =~= line@);
    Some(total)
}

/// A line is at least as wide as each of its prefixes.
proof fn lemma_line_cols_grows(line: Seq<char>, all_caps: bool, n: int)
    requires
        0 <= n <= line.len(),
    ensures
        line_cols(line.take(n), all_caps) <= line_cols(line, all_caps),
    decreases line.len(),
{
    if n < line.len() {
        assert(line.drop_last().take(n) =~= line.take(n));
        lemma_line_cols_grows(line.drop_last(), all_caps, n);
        assert(line_cols(line, all_caps) == line_cols(line.drop_last(), all_caps) + char_cols(
            line.last(),
            all_caps,
        ));
    } else {
        assert(line.take(n) =~= line);
    }
}

/// The display width of `label` (its widest line), or `None` when a line is wider than
/// `u16::MAX` columns.
pub fn label_width_checked(label: &str, all_caps: bool) -> (r: Option<u16>)
    ensures
        r is Some <==> lines_fit(label@, all_caps),
        r matches Some(w) ==> w == label_cols(label@, all_caps),
{
    let chars = str_chars(label);
    let lines = split_lines(&chars);
    let ghost ls = text_lines(label@);
    let mut widest: u16 = 0;
    let mut i: usize = 0;
    while i < lines.len()
        invariant
            i <= lines.len(),
            lines@.len() == ls.len(),
            forall|j: int| 0 <= j < lines@.len() ==> #[trigger] lines@[j]@ == ls[j],
            ls == text_lines(label@),
            widest == widest_line(ls.take(i as int), all_caps),
            forall|j: int| 0 <= j < i ==> #[trigger] line_cols(ls[j], all_caps) <= u16::MAX,
        decreases lines.len() - i,
    {
        assert(ls.take(i + 1).drop_last() =~= ls.take(i as int));
        match line_display_width(&lines[i], all_caps) {
            Some(w) => {
                if w > widest {
                    widest = w;
                }
            },
            None => {
                return None;
            },
        }
        i += 1;
    }
    assert(ls.take(lines.len() as int) =~= ls);
    Some(widest)
}

/// The display width of `label`: its widest line.
pub fn label_display_width(label: &str, all_caps: bool) -> (r: u16)
    requires
        lines_fit(label@, all_caps),
    ensures
        r == label_cols(label@, all_caps),
{
    match label_width_checked(label, all_caps) {
        Some(w) => w,
        None => 0,
    }
}

/// The number of lines of `label`, cut to `u16`.
pub fn label_line_count(label: &str) -> (r: u16)
    ensures
        r == label_rows(label@),
{
    if label.unicode_len() == 0 {
        proof {
            reveal_with_fuel(scan_lines, 1);
        }
        return 0;
    }
    let chars = str_chars(label);
    let lines = split_lines(&chars);
    lines.len() as u16
}

/// Converts a single-line label into a vertical stack of characters (one per row).
pub fn vertical_label(text: &str) -> (r: String)
    ensures
        r@ == stacked(text@),
{
    let chars = str_chars(text);
    let mut out = String::new();
    let mut i: usize = 0;
    while i < chars.len()
        invariant
            i <= chars.len(),
            chars@ == text@,
            out@ == stacked(chars@.take(i as int)),
        decreases chars.len() - i,
    {
        assert(chars@.take(i + 1).drop_last() =~= chars@.take(i as int));
        if i > 0 {
            string_push(&mut out, '\n');
        }
        string_push(&mut out, chars[i]);
        i += 1;
        proof {
            if i == 1 {
                assert(out@ =~= seq![chars@[0]]);
            }
        }
    }
    assert(chars@.take(chars.len() as int) =~= chars@);
    out
}

} // verus!
