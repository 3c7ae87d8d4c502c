//! The lines that report the totals.

use vstd::prelude::*;
use vstd::string::*;
use crate::args::Selection;
use crate::model::Counts;
use crate::totals::FileMetaData;

verus! {

/// The character of the digit `d`.
pub open spec fn digit(d: nat) -> char
    recommends
        d < 10,
{
    seq!['0', '1', '2', '3', '4', '5', '6', '7', '8', '9'][d as int]
}

/// `n` in decimal, without leading zeros.
pub open spec fn decimal(n: nat) -> Seq<char>
    decreases n,
{
    if n < 10 {
        seq![digit(n)]
    } else {
        decimal(n / 10).push(digit(n % 10))
    }
}

/// The line that shows one counter: two spaces, the count, a space and the
/// label.
pub open spec fn count_line(count: nat, label: Seq<char>) -> Seq<char> {
    seq![' ', ' '] + decimal(count) + seq![' '] + label
}

/// The line that shows lines, words and bytes, in that order, and the label.
pub open spec fn default_line(totals: Counts, label: Seq<char>) -> Seq<char> {
    seq![' ', ' '] + decimal(totals.lines) + seq![' '] + decimal(totals.words) + seq![' ']
        + decimal(totals.bytes) + seq![' '] + label
}

/// `line` where it is `wanted`, else no line.
pub open spec fn line_if(wanted: bool, line: Seq<char>) -> Seq<Seq<char>> {
    if wanted {
        seq![line]
    } else {
        seq![]
    }
}

/// The lines of the report on `totals`: one line for each chosen counter, in
/// the order bytes, lines, words, characters; where none is chosen, the
/// default line alone.
pub open spec fn report(totals: Counts, chosen: Selection, label: Seq<char>) -> Seq<Seq<char>> {
    if chosen.none_chosen() {
        seq![default_line(totals, label)]
    } else {
        line_if(chosen.bytes, count_line(totals.bytes, label)) + line_if(
            chosen.lines,
            count_line(totals.lines, label),
        ) + line_if(chosen.words, count_line(totals.words, label)) + line_if(
            chosen.chars,
            count_line(totals.chars, label),
        )
    }
}

/// The text of the digit `d`.
fn digit_text(d: usize) -> (text: &'static str)
    requires
        d < 10,
    ensures
        text@ == seq![digit(d as nat)],
{
    proof {
        reveal_strlit("0");
        reveal_strlit("1");
        reveal_strlit("2");
        reveal_strlit("3");
        reveal_strlit("4");
        reveal_strlit("5");
        reveal_strlit("6");
        reveal_strlit("7");
        reveal_strlit("8");
        reveal_strlit("9");
    }
    let text = if d == 0 {
        "0"
    } else if d == 1 {
        "1"
    } else if d == 2 {
        "2"
    } else if d == 3 {
        "3"
    } else if d == 4 {
        "4"
    } else if d == 5 {
        "5"
    } else if d == 6 {
        "6"
    } else if d == 7 {
        "7"
    } else if d == 8 {
        "8"
    } else {
        "9"
    };
    assert(text@ =~= seq![digit(d as nat)]);
    text
}

/// Appends `n` in decimal to `out`.
pub fn push_decimal(out: &mut String, n: usize)
    ensures
        final(out)@ == old(out)@ + decimal(n as nat),
    decreases n,
{
    if n >= 10 {
        push_decimal(out, n / 10);
    }
    out.append(digit_text(n % 10));
    assert(out@ =~= old(out)@ + decimal(n as nat));
}

/// Appends a space to `out`.
fn push_space(out: &mut String)
    ensures
        final(out)@ == old(out)@ + seq![' '],
{
    proof {
        reveal_strlit(" ");
    }
    out.append(" ");
    assert(out@ =~= old(out)@ + seq![' ']);
}

/// A line that holds the two spaces which every report line starts with.
fn indent() -> (out: String)
    ensures
        out@ == seq![' ', ' '],
{
    proof {
        reveal_strlit("  ");
    }
    let out = String::from_str("  ");
    assert(out@ =~= seq![' ', ' ']);
    out
}

/// Writes the line that shows `count` beside `label`.
pub fn format_count(count: usize, label: &str) -> (line: String)
    ensures
        line@ == count_line(count as nat, label@),
{
    let mut line = indent();
    push_decimal(&mut line, count);
    push_space(&mut line);
    line.append(label);
    line
}

/// Writes the line that shows lines, words and bytes beside `label`.
pub fn format_default(totals: &FileMetaData, label: &str) -> (line: String)
    ensures
        line@ == default_line(totals@, label@),
{
    let mut line = indent();
    push_decimal(&mut line, totals.lines());
    push_space(&mut line);
    push_decimal(&mut line, totals.words());
    push_space(&mut line);
    push_decimal(&mut line, totals.bytes());
    push_space(&mut line);
    line.append(label);
    line
}

/// The lines of `lines`, each as the characters it holds.
pub open spec fn texts(lines: Seq<String>) -> Seq<Seq<char>> {
    Seq::new(lines.len(), |i: int| lines[i]@)
}

/// Writes the report on `totals`: one line for each chosen counter, in the
/// order bytes, lines, words, characters, or the default line where none is
/// chosen. The line feed that ends a line of output is not part of the line.
pub fn report_lines(totals: &FileMetaData, chosen: Selection, label: &str) -> (lines: Vec<String>)
    ensures
        texts(lines@) == report(totals@, chosen, label@),
{
    let mut lines: Vec<String> = Vec::new();
    if chosen.is_empty() {
        lines.push(format_default(totals, label));
        assert(texts(lines@) =~= report(totals@, chosen, label@));
        return lines;
    }
    let ghost bytes_line = line_if(chosen.bytes, count_line(totals@.bytes, label@));
    let ghost lines_line = line_if(chosen.lines, count_line(totals@.lines, label@));
    let ghost words_line = line_if(chosen.words, count_line(totals@.words, label@));
    let ghost chars_line = line_if(chosen.chars, count_line(totals@.chars, label@));
    if chosen.bytes {
        lines.push(format_count(totals.bytes(), label));
    }
    assert(texts(lines@) =~= bytes_line);
    if chosen.lines {
        lines.push(format_count(totals.lines(), label));
    }
    assert(texts(lines@) =~= bytes_line + lines_line);
    if chosen.words {
        lines.push(format_count(totals.words(), label));
    }
    assert(texts(lines@) =~= bytes_line + lines_line + words_line);
    if chosen.chars {
        lines.push(format_count(totals.chars(), label));
    }
    assert(texts(lines@) =~= bytes_line + lines_line + words_line + chars_line);
    lines
}

/// The number that a sequence of digits writes in decimal.
pub open spec fn decimal_value(text: Seq<char>) -> nat
    decreases text.len(),
{
    if text.len() == 0 {
        0
    } else {
        decimal_value(text.drop_last()) * 10 + (text.last() as nat - '0' as nat) as nat
    }
}

/// The decimal text of `n` is made of digits, starts with a zero only where
/// `n` is zero, and writes `n`: no two numbers have the same text.
pub proof fn lemma_decimal(n: nat)
    ensures
        decimal(n).len() >= 1,
        forall|i: int| 0 <= i < decimal(n).len() ==> '0' <= #[trigger] decimal(n)[i] <= '9',
        decimal(n)[0] == '0' <==> n == 0,
        decimal_value(decimal(n)) == n,
    decreases n,
{
    let d = n % 10;
    assert(digit(d) as nat == '0' as nat + d);
    assert(decimal(n).last() == digit(d));
    if n < 10 {
        assert(decimal(n).drop_last() =~= Seq::<char>::empty());
        assert(decimal_value(decimal(n).drop_last()) == 0);
    } else {
        lemma_decimal(n / 10);
        assert(decimal(n).drop_last() =~= decimal(n / 10));
    }
    assert(decimal_value(decimal(n)) == decimal_value(decimal(n).drop_last()) * 10 + d);
}

/// The default report and a report of lines, words and bytes chosen by name
/// show the same three numbers of the same totals: the first in one line, in
/// the order lines, words, bytes; the second in three lines, in the order
/// bytes, lines, words. Choosing all four counters adds the line of the
/// characters and changes no other.
pub proof fn lemma_default_agrees_with_choice(totals: Counts, label: Seq<char>)
    ensures
        ({
            let none = Selection { bytes: false, lines: false, words: false, chars: false };
            let trio = Selection { bytes: true, lines: true, words: true, chars: false };
            let all = Selection { bytes: true, lines: true, words: true, chars: true };
            let indent = seq![' ', ' '];
            let space = seq![' '];
            let bytes = decimal(totals.bytes);
            let lines = decimal(totals.lines);
            let words = decimal(totals.words);
            let chars = decimal(totals.chars);
            &&& report(totals, none, label) == seq![
                indent + lines + space + words + space + bytes + space + label,
            ]
            &&& report(totals, trio, label) == seq![
                indent + bytes + space + label,
                indent + lines + space + label,
                indent + words + space + label,
            ]
            &&& report(totals, all, label) == report(totals, trio, label).push(
                indent + chars + space + label,
            )
        }),
{
    let trio = Selection { bytes: true, lines: true, words: true, chars: false };
    let all = Selection { bytes: true, lines: true, words: true, chars: true };
    assert(report(totals, trio, label) =~= seq![
        count_line(totals.bytes, label),
        count_line(totals.lines, label),
        count_line(totals.words, label),
    ]);
    assert(report(totals, all, label) =~= report(totals, trio, label).push(
        count_line(totals.chars, label),
    ));
}

} // verus!
