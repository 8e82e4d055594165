//! Pieces of text: decimal numbers and indented lines.

use vstd::prelude::*;
use vstd::string::*;

verus! {

/// The decimal digit for a number below ten.
pub open spec fn digit(n: nat) -> char {
    (48 + n) as char
}

/// A number in decimal digits, without leading zeros.
pub open spec fn decimal(n: nat) -> Seq<char>
    decreases n,
{
    if n < 10 {
        seq![digit(n)]
    } else {
        decimal(n / 10).push(digit(n % 10))
    }
}

/// The digit for a number below ten, as text.
fn digit_text(n: u8) -> (text: &'static str)
    requires
        n < 10,
    ensures
        text@ == seq![digit(n as nat)],
{
    proof {
        reveal_strlit("0");
        reveal_strlit("1");
        reveal_strlit("2");
        reveal_strlit("3");
        reveal_strlit("4");
        reveal_strlit("5");
        reveal_strlit("6");
        reveal_strlit("7");
        reveal_strlit("8");
        reveal_strlit("9");
    }
    let text: &'static str = match n {
        0 => "0",
        1 => "1",
        2 => "2",
        3 => "3",
        4 => "4",
        5 => "5",
        6 => "6",
        7 => "7",
        8 => "8",
        _ => "9",
    };
    assert(text@ =~= seq![digit(n as nat)]);
    text
}

/// Appends a number in decimal digits.
pub fn push_decimal(out: &mut String, n: u64)
    ensures
        final(out)@ == old(out)@ + decimal(n as nat),
    decreases n,
{
    if n >= 10 {
        push_decimal(out, n / 10);
    }
    out.append(digit_text((n % 10) as u8));
    assert(out@ =~= old(out)@ + decimal(n as nat));
}

/// Length of the first line of `s`, without its end.
pub open spec fn line_length(s: Seq<char>) -> int
    decreases s.len(),
{
    if s.len() == 0 || s[0] == '\n' {
        0
    } else {
        1 + line_length(s.skip(1))
    }
}

/// `line` without a carriage return at its end.
pub open spec fn without_return(line: Seq<char>) -> Seq<char> {
    if line.len() > 0 && line.last() == '\r' {
        line.drop_last()
    } else {
        line
    }
}

/// The lines of `s`. A line ends with a line feed, which a carriage return may
/// precede; the end of the last line may be missing.
pub open spec fn lines(s: Seq<char>) -> Seq<Seq<char>>
    decreases s.len(),
{
    let n = line_length(s);
    if s.len() == 0 {
        Seq::empty()
    } else if 0 <= n < s.len() {
        seq![without_return(s.take(n))] + lines(s.skip(n + 1))
    } else {
        seq![s]
    }
}

/// Every line behind four spaces, with a line feed after it.
pub open spec fn indented(lines: Seq<Seq<char>>) -> Seq<char>
    decreases lines.len(),
{
    if lines.len() == 0 {
        Seq::empty()
    } else {
        "    "@ + lines[0] + "\n"@ + indented(lines.skip(1))
    }
}

proof fn lemma_line_length(s: Seq<char>, n: int)
    requires
        0 <= n <= s.len(),
        forall|j: int| 0 <= j < n ==> #[trigger] s[j] != '\n',
        n == s.len() || s[n] == '\n',
    ensures
        line_length(s) == n,
    decreases n,
{
    if n > 0 {
        assert(s[0] != '\n');
        assert forall|j: int| 0 <= j < n - 1 implies #[trigger] s.skip(1)[j] != '\n' by {
            assert(s[j + 1] != '\n');
        }
        lemma_line_length(s.skip(1), n - 1);
    }
}

/// Appends the lines of `text`, each behind four spaces.
pub fn push_indented(out: &mut String, text: &str)
    ensures
        final(out)@ == old(out)@ + indented(lines(text@)),
{
    let mut chars: Vec<char> = Vec::new();
    for c in it: text.chars()
        invariant
            chars@ == it.seq().take(it.index() as int),
            it.seq() == text@,
    {
        chars.push(c);
    }
    assert(chars@ =~= text@);
    let n: usize = chars.len();
    let mut pos: usize = 0;
    let ghost start = out@;
    assert(text@.skip(0) =~= text@);
    while pos < n
        invariant
            pos <= n == text@.len(),
            chars@ == text@,
            out@ + indented(lines(text@.skip(pos as int))) == start + indented(lines(text@)),
        decreases n - pos,
    {
        let mut end: usize = pos;
        while end < n && chars[end] != '\n'
            invariant
                pos <= end <= n == text@.len(),
                chars@ == text@,
                forall|j: int| pos <= j < end ==> #[trigger] text@[j] != '\n',
            decreases n - end,
        {
            end = end + 1;
        }
        let mut line_end: usize = end;
        if end < n && end > pos && chars[end - 1] == '\r' {
            line_end = end - 1;
        }
        let ghost rest = text@.skip(pos as int);
        let ghost line = text@.subrange(pos as int, line_end as int);
        let ghost before = out@;
        out.append("    ");
        out.append(text.substring_char(pos, line_end));
        out.append("\n");
        let next: usize = if end < n {
            end + 1
        } else {
            n
        };
        proof {
            let k = end - pos;
            assert forall|j: int| 0 <= j < k implies #[trigger] rest[j] != '\n' by {
                assert(text@[pos + j] != '\n');
            }
            lemma_line_length(rest, k);
            let after = text@.skip(next as int);
            if end < n {
                assert(rest.take(k) =~= text@.subrange(pos as int, end as int));
                assert(without_return(rest.take(k)) =~= line);
                assert(rest.skip(k + 1) =~= after);
                assert(lines(rest) =~= seq![line] + lines(after));
            } else {
                assert(rest =~= line);
                assert(after =~= Seq::empty());
                assert(lines(rest) =~= seq![line] + lines(after));
            }
            assert(lines(rest).skip(1) =~= lines(after));
            assert(indented(lines(rest)) == "    "@ + line + "\n"@ + indented(lines(after)));
            assert(out@ + indented(lines(after)) =~= before + indented(lines(rest)));
        }
        pos = next;
    }
    assert(text@.skip(pos as int) =~= Seq::empty());
    assert(indented(lines(text@.skip(pos as int))) =~= Seq::empty());
    assert(out@ =~= start + indented(lines(text@)));
}

/// The number that decimal digits stand for.
pub open spec fn reading(digits: Seq<char>) -> int
    decreases digits.len(),
{
    if digits.len() == 0 {
        0
    } else {
        10 * reading(digits.drop_last()) + (digits.last() as int - '0' as int)
    }
}

/// A number is shown in digits that read as that number, without leading zeros.
pub proof fn numbers_read_as_themselves(n: nat)
    ensures
        reading(decimal(n)) == n,
        decimal(n).len() >= 1,
        forall|i: int|
            0 <= i < decimal(n).len() ==> '0' as int <= #[trigger] decimal(n)[i] as int <= '9' as int,
        decimal(n).len() > 1 ==> decimal(n)[0] != '0',
        n >= 10 ==> decimal(n).len() > 1,
    decreases n,
{
    if n < 10 {
        assert(decimal(n).drop_last() =~= Seq::empty());
        assert(reading(Seq::<char>::empty()) == 0);
        assert(decimal(n).last() == digit(n));
    } else {
        numbers_read_as_themselves(n / 10);
        assert(decimal(n).drop_last() =~= decimal(n / 10));
        assert(decimal(n).last() == digit(n % 10));
        assert(decimal(n)[0] == decimal(n / 10)[0]);
        if n / 10 < 10 {
            assert(decimal(n / 10)[0] == digit(n / 10));
        }
    }
}

/// A line ends at the first line feed, and a carriage return right before that
/// is not part of it. What has no line feed is one line, unless it is empty.
pub proof fn lines_end_at_line_feeds(line: Seq<char>, rest: Seq<char>)
    requires
        forall|j: int| 0 <= j < line.len() ==> #[trigger] line[j] != '\n',
    ensures
        line.len() == 0 || line.last() != '\r' ==> lines(line + seq!['\n'] + rest) == seq![line]
            + lines(rest),
        lines(line + seq!['\r', '\n'] + rest) == seq![line] + lines(rest),
        line.len() > 0 ==> lines(line) == seq![line],
        lines(Seq::empty()) == Seq::<Seq<char>>::empty(),
{
    let n = line.len() as int;
    let s = line + seq!['\n'] + rest;
    assert(forall|j: int| 0 <= j < n ==> s[j] == line[j]);
    lemma_line_length(s, n);
    assert(s.take(n) =~= line);
    assert(s.skip(n + 1) =~= rest);
    let t = line + seq!['\r', '\n'] + rest;
    assert(forall|j: int| 0 <= j < n ==> t[j] == line[j]);
    assert(t[n] == '\r');
    lemma_line_length(t, n + 1);
    assert(t.take(n + 1) =~= line.push('\r'));
    assert(t.take(n + 1).drop_last() =~= line);
    assert(t.skip(n + 2) =~= rest);
    if n > 0 {
        lemma_line_length(line, n);
    }
}

/// Each line is indented on its own, with four spaces before and a line feed
/// behind it.
pub proof fn lines_are_indented_one_by_one(line: Seq<char>, rest: Seq<Seq<char>>)
    ensures
        indented(Seq::empty()) == Seq::<char>::empty(),
        indented(seq![line] + rest) == seq![' ', ' ', ' ', ' '] + line + seq!['\n'] + indented(rest),
{
    reveal_strlit("    ");
    reveal_strlit("\n");
    let all = seq![line] + rest;
    assert(all[0] == line);
    assert(all.skip(1) =~= rest);
    assert("    "@ =~= seq![' ', ' ', ' ', ' ']);
    assert("\n"@ =~= seq!['\n']);
}

/// Appending a number keeps what is there and adds digits that read as it.
pub proof fn appended_numbers_read_as_themselves(out: &mut String, n: u64)
    requires
        call_ensures(push_decimal, (out, n), ()),
    ensures
        final(out)@.len() > old(out)@.len(),
        final(out)@.take(old(out)@.len() as int) == old(out)@,
        reading(final(out)@.skip(old(out)@.len() as int)) == n,
{
    numbers_read_as_themselves(n as nat);
    let k = old(out)@.len() as int;
    assert(final(out)@.skip(k) =~= decimal(n as nat));
    assert(final(out)@.take(k) =~= old(out)@);
}

/// Appending a text that begins with a line appends that line behind four spaces
/// and then what appending the rest of the text would.
pub proof fn appended_lines_are_indented(
    out: &mut String,
    text: &str,
    line: Seq<char>,
    rest: Seq<char>,
)
    requires
        call_ensures(push_indented, (out, text), ()),
        text@ == line + seq!['\n'] + rest,
        forall|j: int| 0 <= j < line.len() ==> #[trigger] line[j] != '\n',
        line.len() == 0 || line.last() != '\r',
    ensures
        final(out)@ == old(out)@ + (seq![' ', ' ', ' ', ' '] + line + seq!['\n'] + indented(
            lines(rest),
        )),
{
    lines_end_at_line_feeds(line, rest);
    lines_are_indented_one_by_one(line, lines(rest));
}

} // verus!
