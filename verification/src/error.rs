//! The diagnostic reporter: turns a structured parse failure plus the
//! original source text into a positioned, renderable error.
//!
//! Given a byte offset, the reporter computes the 1-indexed line number
//! (newlines counted before the offset), the 1-indexed column as the display
//! width of the text between the line start and the offset (a tab counts a
//! fixed 8 columns, every other character its rendered display width), and
//! the full line of source containing the offset.

use vstd::prelude::*;

use crate::parser::{view_failure, FailV, ParseFailure};
use crate::text::{
    byte_len, byte_len_of, bytes_upto, chars_to_string, dec_digits, lemma_bytes_upto_mono,
    lemma_subrange_push, str_chars, usize_to_string,
};

verus! {

broadcast use vstd::std_specs::vec::group_vec_axioms, vstd::seq::group_seq_axioms;

/// What `unicode_width::UnicodeWidthChar::width` returns for a character:
/// its displayed width in columns, or `None` for a control character.
pub uninterp spec fn char_display_width(c: char) -> Option<usize>;

/// Printable ASCII: always one column wide.
pub open spec fn printable_ascii(c: char) -> bool {
    0x20 <= c as u32 && (c as u32) < 0x7f
}

/// Control characters (C0 and C1): no display width of their own.
pub open spec fn control_char(c: char) -> bool {
    (c as u32) < 0x20 || (0x7f <= c as u32 && (c as u32) < 0xa0)
}

/// Relies on `unicode_width::UnicodeWidthChar::width`: the result depends on
/// the character alone; printable ASCII characters are one column wide,
/// control characters have no width, and no character is more than three
/// columns wide.
#[verifier::external_body]
fn display_width(c: char) -> (w: Option<usize>)
    ensures
        w == char_display_width(c),
        w is Some ==> w->0 <= 3,
        printable_ascii(c) ==> w == Some(1usize),
        control_char(c) ==> w is None,
{
    unicode_width::UnicodeWidthChar::width(c)
}

/// The number of columns a character occupies in a diagnostic: a tab counts
/// a fixed 8, other characters their display width (0 for controls).
pub open spec fn col_width(c: char) -> nat {
    if c == '\t' {
        8
    } else {
        match char_display_width(c) {
            Some(w) => w as nat,
            None => 0,
        }
    }
}

/// The display width of a piece of one source line.
pub open spec fn width_sum(s: Seq<char>) -> nat
    decreases s,
{
    if s.len() == 0 {
        0
    } else {
        col_width(s[0]) + width_sum(s.drop_first())
    }
}

fn col_width_of(c: char) -> (w: usize)
    ensures
        w == col_width(c),
        w <= 8,
{
    if c == '\t' {
        8
    } else {
        match display_width(c) {
            Some(w) => w,
            None => 0,
        }
    }
}

pub proof fn lemma_width_sum_push(s: Seq<char>, c: char)
    ensures
        width_sum(s.push(c)) == width_sum(s) + col_width(c),
    decreases s,
{
    reveal_with_fuel(width_sum, 3);
    if s.len() == 0 {
        assert(s.push(c).drop_first() =~= Seq::<char>::empty());
    } else {
        assert(s.push(c).drop_first() =~= s.drop_first().push(c));
        lemma_width_sum_push(s.drop_first(), c);
    }
}

/// A character in front of a line fragment widens it by its own column
/// count.
pub proof fn lemma_width_sum_cons(c: char, s: Seq<char>)
    ensures
        width_sum(seq![c] + s) == col_width(c) + width_sum(s),
{
    assert((seq![c] + s).drop_first() =~= s);
    assert((seq![c] + s)[0] == c);
}

/// The index of the first character not wholly within the first `pos` bytes,
/// scanning from index `i` at byte offset `b`.
pub open spec fn cut_idx(cs: Seq<char>, pos: int, i: int, b: int) -> int
    decreases cs.len() - i,
{
    if 0 <= i && i < cs.len() && b + byte_len(cs[i]) <= pos {
        cut_idx(cs, pos, i + 1, b + byte_len(cs[i]))
    } else {
        i
    }
}

/// The character index at which byte offset `pos` falls.
pub open spec fn cut_of(cs: Seq<char>, pos: int) -> int {
    cut_idx(cs, pos, 0, 0)
}

/// The number of newline characters among the first `n` characters.
pub open spec fn count_nl(cs: Seq<char>, n: int) -> nat
    decreases n,
{
    if n <= 0 {
        0
    } else {
        count_nl(cs, n - 1) + if cs[n - 1] == '\n' {
            1nat
        } else {
            0nat
        }
    }
}

/// The index just after the last newline strictly before index `n`: the
/// start of the line containing index `n`.
pub open spec fn line_start_of(cs: Seq<char>, n: int) -> int
    decreases n,
{
    if n <= 0 {
        0
    } else if cs[n - 1] == '\n' {
        n
    } else {
        line_start_of(cs, n - 1)
    }
}

/// The index of the first newline at or after index `j`, or the length.
pub open spec fn line_end_of(cs: Seq<char>, j: int) -> int
    decreases cs.len() - j,
{
    if 0 <= j && j < cs.len() && cs[j] != '\n' {
        line_end_of(cs, j + 1)
    } else {
        j
    }
}

/// The 1-indexed line number of byte offset `pos`.
pub open spec fn line_of(cs: Seq<char>, pos: int) -> int {
    1 + count_nl(cs, cut_of(cs, pos)) as int
}

/// The 1-indexed, display-width-aware column of byte offset `pos`.
pub open spec fn col_of(cs: Seq<char>, pos: int) -> int {
    1 + width_sum(cs.subrange(line_start_of(cs, cut_of(cs, pos)), cut_of(cs, pos))) as int
}

/// The full text of the line containing byte offset `pos`.
pub open spec fn snippet_of(cs: Seq<char>, pos: int) -> Seq<char> {
    let ls = line_start_of(cs, cut_of(cs, pos));
    cs.subrange(ls, line_end_of(cs, ls))
}

proof fn lemma_cut_idx_bounds(cs: Seq<char>, pos: int, i: int, b: int)
    requires
        0 <= i <= cs.len(),
    ensures
        i <= cut_idx(cs, pos, i, b) <= cs.len(),
    decreases cs.len() - i,
{
    if i < cs.len() && b + byte_len(cs[i]) <= pos {
        lemma_cut_idx_bounds(cs, pos, i + 1, b + byte_len(cs[i]));
    }
}

proof fn lemma_cut_idx_shift(c: char, cs: Seq<char>, pos: int, i: int, b: int)
    requires
        0 <= i,
    ensures
        cut_idx(seq![c] + cs, pos + byte_len(c), i + 1, b + byte_len(c)) == 1 + cut_idx(
            cs,
            pos,
            i,
            b,
        ),
    decreases cs.len() - i,
{
    let s2 = seq![c] + cs;
    if i < cs.len() {
        assert(s2[i + 1] == cs[i]);
        if b + byte_len(cs[i]) <= pos {
            lemma_cut_idx_shift(c, cs, pos, i + 1, b + byte_len(cs[i]));
        }
    }
}

/// A count of zero newlines means none of the characters is a newline.
pub proof fn lemma_count_nl_zero(cs: Seq<char>, n: int)
    requires
        count_nl(cs, n) == 0,
    ensures
        forall|k: int| 0 <= k < n ==> cs[k] != '\n',
    decreases n,
{
    if n > 0 {
        lemma_count_nl_zero(cs, n - 1);
    }
}

proof fn lemma_no_nl_line_start(s: Seq<char>, n: int)
    requires
        0 <= n,
        forall|k: int| 0 <= k < n ==> s[k] != '\n',
    ensures
        line_start_of(s, n) == 0,
    decreases n,
{
    if n > 0 {
        lemma_no_nl_line_start(s, n - 1);
    }
}

proof fn lemma_count_nl_shift(c: char, cs: Seq<char>, n: int)
    requires
        0 <= n <= cs.len(),
    ensures
        count_nl(seq![c] + cs, n + 1) == count_nl(cs, n) + if c == '\n' {
            1nat
        } else {
            0nat
        },
    decreases n,
{
    reveal_with_fuel(count_nl, 3);
    if n == 0 {
        assert((seq![c] + cs)[0] == c);
    } else {
        assert((seq![c] + cs)[n] == cs[n - 1]);
        lemma_count_nl_shift(c, cs, n - 1);
    }
}

/// Prefixing the line that holds the reported offset with one character
/// shifts the reported column by exactly that character's column count and
/// leaves the line number unchanged.  The precondition says the offset lies
/// on the first line, the one the prefix is put in front of.
pub proof fn lemma_prefix_char_shifts_column(c: char, cs: Seq<char>, pos: int)
    requires
        0 <= pos,
        c != '\n',
        count_nl(cs, cut_of(cs, pos)) == 0,
    ensures
        line_of(seq![c] + cs, pos + byte_len(c)) == line_of(cs, pos),
        col_of(seq![c] + cs, pos + byte_len(c)) == col_of(cs, pos) + col_width(c),
{
    let s2 = seq![c] + cs;
    let bl = byte_len(c);
    let cut = cut_of(cs, pos);
    lemma_cut_idx_bounds(cs, pos, 0, 0);
    lemma_cut_idx_shift(c, cs, pos, 0, 0);
    assert(s2[0] == c);
    assert(cut_of(s2, pos + bl) == 1 + cut);
    lemma_count_nl_shift(c, cs, cut);
    lemma_count_nl_zero(cs, cut);
    lemma_no_nl_line_start(cs, cut);
    assert forall|k: int| 0 <= k < cut + 1 implies s2[k] != '\n' by {
        if k > 0 {
            assert(s2[k] == cs[k - 1]);
        }
    }
    lemma_no_nl_line_start(s2, cut + 1);
    assert(s2.subrange(0, cut + 1) =~= seq![c] + cs.subrange(0, cut));
    lemma_width_sum_cons(c, cs.subrange(0, cut));
}

/// Tab-width rule: a tab prefixed to the line before the reported offset
/// raises the reported column by exactly 8, not by 1.
pub proof fn lemma_tab_raises_column_by_eight(cs: Seq<char>, pos: int)
    requires
        0 <= pos,
        count_nl(cs, cut_of(cs, pos)) == 0,
    ensures
        col_of(seq!['\t'] + cs, pos + 1) == col_of(cs, pos) + 8,
        line_of(seq!['\t'] + cs, pos + 1) == line_of(cs, pos),
{
    lemma_prefix_char_shifts_column('\t', cs, pos);
}

/// Wide-character rule: a double-width character prefixed to the line before
/// the reported offset raises the reported column by exactly 2, not by 1.
pub proof fn lemma_wide_char_raises_column_by_two(c: char, cs: Seq<char>, pos: int)
    requires
        0 <= pos,
        c != '\n',
        count_nl(cs, cut_of(cs, pos)) == 0,
    ensures
        (c != '\t' && char_display_width(c) == Some(2usize)) ==> col_of(
            seq![c] + cs,
            pos + byte_len(c),
        ) == col_of(cs, pos) + 2,
        line_of(seq![c] + cs, pos + byte_len(c)) == line_of(cs, pos),
{
    lemma_prefix_char_shifts_column(c, cs, pos);
}

pub proof fn lemma_count_nl_le(cs: Seq<char>, n: int)
    ensures
        count_nl(cs, n) <= if n <= 0 {
            0int
        } else {
            n
        },
    decreases n,
{
    if n > 0 {
        lemma_count_nl_le(cs, n - 1);
    }
}

/// A positioned, renderable diagnostic.
#[derive(Debug)]
pub struct Error {
    pub message: String,
    pub file_name: String,
    pub snippet: Snippet,
}

/// The position of a diagnostic and the source line it points into.
#[derive(Debug)]
pub struct Snippet {
    pub line: usize,
    pub column: usize,
    pub source: String,
}

/// The exact rendered form of a diagnostic:
///
/// ```text
/// <message>
/// > <file_label>:<line>:<column>
/// |
/// | <snippet>
/// | <column-1 spaces>^
/// ```
pub open spec fn render_error_text(
    msg: Seq<char>,
    file: Seq<char>,
    line: int,
    col: int,
    snip: Seq<char>,
) -> Seq<char> {
    msg + "\n> "@ + file + ":"@ + dec_digits(line as nat) + ":"@ + dec_digits(col as nat)
        + "\n|\n| "@ + snip + "\n| "@ + spaces((col - 1) as nat) + "^"@
}

/// `n` space characters.
pub open spec fn spaces(n: nat) -> Seq<char>
    decreases n,
{
    if n == 0 {
        Seq::empty()
    } else {
        spaces((n - 1) as nat).push(' ')
    }
}

impl Error {
    /// Build a diagnostic for byte offset `pos` of `source`: the line,
    /// column and snippet are exactly those of the position computation
    /// above.
    pub fn new(file_name: &str, message: String, source: &str, pos: usize) -> (e: Error)
        requires
            8 * source@.len() <= usize::MAX as int,
        ensures
            e.message@ == message@,
            e.file_name@ == file_name@,
            e.snippet.line as int == line_of(source@, pos as int),
            e.snippet.column as int == col_of(source@, pos as int),
            e.snippet.source@ == snippet_of(source@, pos as int),
    {
        let cs = str_chars(source);
        let n = cs.len();
        let ghost total = bytes_upto(cs@, cs@.len() as int);
        // One pass to the offset: find its character index, counting lines
        // and remembering the start of the current line.
        let mut i: usize = 0;
        let mut b: usize = 0;
        let mut line: usize = 1;
        let mut ls: usize = 0;
        loop
            invariant
                i <= n,
                n == cs@.len(),
                cs@ == source@,
                b == bytes_upto(cs@, i as int),
                total == bytes_upto(cs@, cs@.len() as int),
                total <= usize::MAX / 2,
                n <= usize::MAX as int / 8,
                cut_of(cs@, pos as int) == cut_idx(cs@, pos as int, i as int, b as int),
                line as int == 1 + count_nl(cs@, i as int),
                ls as int == line_start_of(cs@, i as int),
                ls <= i,
            ensures
                i <= n,
                i as int == cut_of(cs@, pos as int),
                line as int == 1 + count_nl(cs@, i as int),
                ls as int == line_start_of(cs@, i as int),
                ls <= i,
            decreases n - i,
        {
            if i >= n {
                break;
            }
            let c = cs[i];
            proof {
                lemma_bytes_upto_mono(cs@, i + 1, cs@.len() as int);
            }
            let bl = byte_len_of(c);
            if b + bl > pos {
                break;
            }
            if c == '\n' {
                proof {
                    lemma_count_nl_le(cs@, i as int);
                }
                line = line + 1;
                ls = i + 1;
            }
            b = b + bl;
            i = i + 1;
        }
        let cut = i;
        // The display width of the text between the line start and the
        // offset.
        let mut w: usize = 0;
        let mut k = ls;
        proof {
            assert(cs@.subrange(ls as int, ls as int) =~= Seq::<char>::empty());
        }
        while k < cut
            invariant
                ls <= k <= cut <= n,
                n == cs@.len(),
                n <= usize::MAX as int / 8,
                w == width_sum(cs@.subrange(ls as int, k as int)),
                w <= 8 * (k - ls),
            decreases cut - k,
        {
            let cw = col_width_of(cs[k]);
            proof {
                lemma_subrange_push(cs@, ls as int, k as int);
                lemma_width_sum_push(cs@.subrange(ls as int, k as int), cs@[k as int]);
            }
            w = w + cw;
            k = k + 1;
        }
        // The full line containing the offset.
        let mut buf: Vec<char> = Vec::new();
        let mut m = ls;
        proof {
            assert(cs@.subrange(ls as int, ls as int) =~= Seq::<char>::empty());
        }
        loop
            invariant
                ls <= m <= n,
                n == cs@.len(),
                buf@ == cs@.subrange(ls as int, m as int),
                line_end_of(cs@, ls as int) == line_end_of(cs@, m as int),
            ensures
                buf@ == cs@.subrange(ls as int, m as int),
                line_end_of(cs@, m as int) == m as int,
                line_end_of(cs@, ls as int) == line_end_of(cs@, m as int),
            decreases n - m,
        {
            if m >= n {
                break;
            }
            let c = cs[m];
            if c == '\n' {
                break;
            }
            proof {
                lemma_subrange_push(cs@, ls as int, m as int);
            }
            buf.push(c);
            m = m + 1;
        }
        let snippet_text = chars_to_string(&buf);
        Error {
            message,
            file_name: String::from_str(file_name),
            snippet: Snippet { line, column: w + 1, source: snippet_text },
        }
    }

    /// A placeholder diagnostic with no position; it carries line and column
    /// 0 and cannot be rendered.
    pub fn unknown() -> (e: Error)
        ensures
            e.message@ == "Unknown parsing error"@,
            e.file_name@ == "unknown"@,
            e.snippet.line == 0,
            e.snippet.column == 0,
            e.snippet.source@ == Seq::<char>::empty(),
    {
        Error {
            message: String::from_str("Unknown parsing error"),
            file_name: String::from_str("unknown"),
            snippet: Snippet { line: 0, column: 0, source: String::new() },
        }
    }

    /// Render the diagnostic in its exact textual form.
    pub fn to_text(&self) -> (r: String)
        requires
            self.snippet.column >= 1,
        ensures
            r@ == render_error_text(
                self.message@,
                self.file_name@,
                self.snippet.line as int,
                self.snippet.column as int,
                self.snippet.source@,
            ),
    {
        let mut out = self.message.clone();
        out.append("\n> ");
        out.append(self.file_name.as_str());
        out.append(":");
        let line_str = usize_to_string(self.snippet.line);
        out.append(line_str.as_str());
        out.append(":");
        let col_str = usize_to_string(self.snippet.column);
        out.append(col_str.as_str());
        out.append("\n|\n| ");
        out.append(self.snippet.source.as_str());
        out.append("\n| ");
        let ghost prefix = out@;
        let stop = self.snippet.column - 1;
        let mut m: usize = 0;
        proof {
            reveal_strlit(" ");
        }
        while m < stop
            invariant
                m <= stop,
                out@ == prefix + spaces(m as nat),
                " "@ == seq![' '],
            decreases stop - m,
        {
            out.append(" ");
            proof {
                assert(prefix + spaces(m as nat) + seq![' '] =~= prefix + spaces(m as nat).push(
                    ' ',
                ));
            }
            m = m + 1;
        }
        out.append("^");
        proof {
            assert(out@ =~= render_error_text(
                self.message@,
                self.file_name@,
                self.snippet.line as int,
                self.snippet.column as int,
                self.snippet.source@,
            ));
        }
        out
    }
}

/// The comma-joined rendering of a set of expected token names.
pub open spec fn join_comma(ss: Seq<Seq<char>>) -> Seq<char>
    decreases ss.len(),
{
    if ss.len() == 0 {
        Seq::empty()
    } else if ss.len() == 1 {
        ss[0]
    } else {
        ss[0] + ", "@ + join_comma(ss.drop_first())
    }
}

fn join_from(v: &Vec<String>, idx: usize) -> (r: String)
    requires
        idx <= v@.len(),
    ensures
        r@ == join_comma(crate::parser::view_strings(v@).skip(idx as int)),
    decreases v@.len() - idx,
{
    let ghost ss = crate::parser::view_strings(v@).skip(idx as int);
    let n = v.len();
    if idx >= n {
        proof {
            assert(ss =~= Seq::<Seq<char>>::empty());
        }
        String::new()
    } else if idx + 1 == n {
        proof {
            assert(ss.len() == 1);
            assert(ss[0] == v@[idx as int]@);
        }
        v[idx].clone()
    } else {
        let mut s = v[idx].clone();
        s.append(", ");
        let rest = join_from(v, idx + 1);
        s.append(rest.as_str());
        proof {
            assert(ss[0] == v@[idx as int]@);
            assert(ss.drop_first() =~= crate::parser::view_strings(v@).skip(idx as int + 1));
        }
        s
    }
}

/// The human-readable message for a parse failure.
pub open spec fn message_of(f: FailV) -> Seq<char> {
    match f {
        FailV::InvalidToken { .. } => "Invalid token found"@,
        FailV::UnexpectedEndOfInput { expected, .. } => "Unexpected end of file. Expected one of: "@
            + join_comma(expected),
        FailV::UnrecognizedToken { found, expected, .. } => "Unexpected token '"@ + found
            + "'. Expected one of: "@ + join_comma(expected),
        FailV::ExtraToken { found, .. } => "Extra token '"@ + found + "' found"@,
    }
}

/// The byte offset a parse failure points at.
pub open spec fn offset_of(f: FailV) -> int {
    match f {
        FailV::InvalidToken { offset } => offset,
        FailV::UnexpectedEndOfInput { offset, .. } => offset,
        FailV::UnrecognizedToken { offset, .. } => offset,
        FailV::ExtraToken { offset, .. } => offset,
    }
}

/// The full rendered diagnostic for a parse failure of `cs`.
pub open spec fn sp_render_failure(cs: Seq<char>, f: FailV, label: Seq<char>) -> Seq<char> {
    render_error_text(
        message_of(f),
        label,
        line_of(cs, offset_of(f)),
        col_of(cs, offset_of(f)),
        snippet_of(cs, offset_of(f)),
    )
}

/// Render a parse failure against the source it came from, under the given
/// file label, in the exact format of [`render_error_text`].
pub fn render_failure(source: &str, failure: &ParseFailure, file_label: &str) -> (r: String)
    requires
        8 * source@.len() <= usize::MAX as int,
    ensures
        r@ == sp_render_failure(source@, view_failure(*failure), file_label@),
{
    let (message, offset): (String, usize) = match failure {
        ParseFailure::InvalidToken { offset } => (String::from_str("Invalid token found"), *offset),
        ParseFailure::UnexpectedEndOfInput { offset, expected } => {
            let mut m = String::from_str("Unexpected end of file. Expected one of: ");
            let joined = join_from(expected, 0);
            m.append(joined.as_str());
            proof {
                assert(crate::parser::view_strings(expected@).skip(0) =~= crate::parser::view_strings(expected@));
            }
            (m, *offset)
        },
        ParseFailure::UnrecognizedToken { offset, found, expected } => {
            let mut m = String::from_str("Unexpected token '");
            m.append(found.as_str());
            m.append("'. Expected one of: ");
            let joined = join_from(expected, 0);
            m.append(joined.as_str());
            proof {
                assert(crate::parser::view_strings(expected@).skip(0) =~= crate::parser::view_strings(expected@));
            }
            (m, *offset)
        },
        ParseFailure::ExtraToken { offset, found } => {
            let mut m = String::from_str("Extra token '");
            m.append(found.as_str());
            m.append("' found");
            (m, *offset)
        },
    };
    let e = Error::new(file_label, message, source, offset);
    e.to_text()
}

} // verus!
