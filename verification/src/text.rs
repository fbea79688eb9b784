//! Text helpers for diagnostics: decimal numbers and the lines of a source text.

use vstd::prelude::*;
use vstd::string::*;

verus! {

/// The decimal digit character for `d < 10`.
pub open spec fn digit_char(d: nat) -> char {
    if d == 0 {
        '0'
    } else if d == 1 {
        '1'
    } else if d == 2 {
        '2'
    } else if d == 3 {
        '3'
    } else if d == 4 {
        '4'
    } else if d == 5 {
        '5'
    } else if d == 6 {
        '6'
    } else if d == 7 {
        '7'
    } else if d == 8 {
        '8'
    } else {
        '9'
    }
}

/// The decimal rendering of `n`, without leading zeros.
pub open spec fn decimal(n: nat) -> Seq<char>
    decreases n,
{
    if n < 10 {
        seq![digit_char(n)]
    } else {
        decimal(n / 10).push(digit_char(n % 10))
    }
}

/// A one-character string holding the digit `d`.
fn digit_text(d: usize) -> (r: String)
    requires
        d < 10,
    ensures
        r@ == seq![digit_char(d as nat)],
{
    proof {
        reveal_strlit("0");
        reveal_strlit("1");
        reveal_strlit("2");
        reveal_strlit("3");
        reveal_strlit("4");
        reveal_strlit("5");
        reveal_strlit("6");
        reveal_strlit("7");
        reveal_strlit("8");
        reveal_strlit("9");
    }
    let s = if d == 0 {
        "0"
    } else if d == 1 {
        "1"
    } else if d == 2 {
        "2"
    } else if d == 3 {
        "3"
    } else if d == 4 {
        "4"
    } else if d == 5 {
        "5"
    } else if d == 6 {
        "6"
    } else if d == 7 {
        "7"
    } else if d == 8 {
        "8"
    } else {
        "9"
    };
    String::from_str(s)
}

/// Render `n` in decimal.
pub fn decimal_text(n: usize) -> (r: String)
    ensures
        r@ == decimal(n as nat),
    decreases n,
{
    if n < 10 {
        digit_text(n)
    } else {
        let mut s = decimal_text(n / 10);
        let d = digit_text(n % 10);
        s.append(d.as_str());
        s
    }
}

/// `n` spaces.
pub open spec fn spaces(n: nat) -> Seq<char> {
    Seq::new(n, |i: int| ' ')
}

/// The lines of `s`, split at every `'\n'` (the newline itself belongs to no line; a
/// text ending in a newline has an empty last line).
pub open spec fn split_lines(s: Seq<char>) -> Seq<Seq<char>>
    decreases s.len(),
{
    if s.len() == 0 {
        seq![Seq::empty()]
    } else {
        let prev = split_lines(s.drop_last());
        if s.last() == '\n' {
            prev.push(Seq::empty())
        } else {
            prev.update(prev.len() - 1, prev.last().push(s.last()))
        }
    }
}

/// Line `line` (1-based) of `src`, if it has that many lines.
pub open spec fn source_line(src: Seq<char>, line: int) -> Option<Seq<char>> {
    if 1 <= line <= split_lines(src).len() {
        Some(split_lines(src)[line - 1])
    } else {
        None
    }
}

/// `split_lines` never returns an empty list, and its last line is the text after the
/// last newline.
pub proof fn lemma_split_lines_basic(s: Seq<char>)
    ensures
        split_lines(s).len() >= 1,
        split_lines(s).len() <= s.len() + 1,
    decreases s.len(),
{
    if s.len() > 0 {
        lemma_split_lines_basic(s.drop_last());
    }
}

/// Extending a text keeps every line that was already finished.
pub proof fn lemma_split_lines_prefix(s: Seq<char>, i: int, j: int)
    requires
        0 <= i <= j <= s.len(),
    ensures
        split_lines(s.take(i)).len() <= split_lines(s.take(j)).len(),
        forall|k: int|
            0 <= k < split_lines(s.take(i)).len() - 1 ==> #[trigger] split_lines(s.take(j))[k]
                == split_lines(s.take(i))[k],
    decreases j - i,
{
    lemma_split_lines_basic(s.take(i));
    if i < j {
        lemma_split_lines_prefix(s, i, j - 1);
        let t = s.take(j);
        assert(t.drop_last() =~= s.take(j - 1));
        lemma_split_lines_basic(s.take(j - 1));
    }
}

/// The character span `[start, end)` of line `line` (1-based) of `source`, if it exists.
#[verifier::loop_isolation(false)]
fn line_bounds(source: &str, line: usize) -> (r: Option<(usize, usize)>)
    ensures
        match r {
            Some((a, b)) => a <= b <= source@.len() && source_line(source@, line as int) == Some(
                source@.subrange(a as int, b as int),
            ),
            None => source_line(source@, line as int) is None,
        },
{
    let len = source.unicode_len();
    let ghost s = source@;
    if line == 0 {
        return None;
    }
    let mut cur: usize = 1;
    let mut start: usize = 0;
    let mut i: usize = 0;
    assert(s.take(0) =~= Seq::<char>::empty());
    for c in it: source.chars()
        invariant
            it.seq() == s,
            len == s.len(),
            i == it.index(),
            i <= len,
            start <= i,
            cur == split_lines(s.take(i as int)).len(),
            split_lines(s.take(i as int)).last() == s.subrange(start as int, i as int),
            1 <= cur <= line,
    {
        proof {
            lemma_split_lines_basic(s.take(i as int));
            assert(s.take(i + 1).drop_last() =~= s.take(i as int));
            assert(s.take(i + 1).last() == c);
        }
        if c == '\n' {
            if cur == line {
                proof {
                    lemma_split_lines_prefix(s, i + 1, s.len() as int);
                    assert(s.take(s.len() as int) =~= s);
                }
                return Some((start, i));
            }
            cur = cur + 1;
            start = i + 1;
            assert(s.subrange(start as int, start as int) =~= Seq::<char>::empty());
        } else {
            assert(s.subrange(start as int, i + 1) =~= s.subrange(start as int, i as int).push(c));
        }
        i = i + 1;
    }
    proof {
        assert(s.take(i as int) =~= s);
        lemma_split_lines_basic(s);
    }
    if cur == line {
        Some((start, i))
    } else {
        None
    }
}

/// Line `line` (1-based) of `source`, if it has that many lines.
pub fn line_text(source: &str, line: usize) -> (r: Option<String>)
    ensures
        match r {
            Some(t) => source_line(source@, line as int) == Some(t@),
            None => source_line(source@, line as int) is None,
        },
{
    match line_bounds(source, line) {
        Some((a, b)) => Some(String::from_str(source.substring_char(a, b))),
        None => None,
    }
}

/// `n` spaces, as a string.
pub fn spaces_text(n: usize) -> (r: String)
    ensures
        r@ == spaces(n as nat),
{
    let mut s = String::new();
    let mut i: usize = 0;
    while i < n
        invariant
            i <= n,
            s@ == spaces(i as nat),
        decreases n - i,
    {
        proof {
            reveal_strlit(" ");
        }
        s.append(" ");
        assert(s@ =~= spaces((i + 1) as nat));
        i += 1;
    }
    s
}

} // verus!
