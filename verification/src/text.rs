//! Text building blocks: joining pieces and writing numbers in decimal.

use vstd::prelude::*;
use vstd::string::StringSliceAdditionalSpecFns;

verus! {

/// The character that writes the digit `d`; meaningful for `d < 10`.
pub open spec fn digit_char(d: nat) -> char {
    if d == 0 {
        '0'
    } else if d == 1 {
        '1'
    } else if d == 2 {
        '2'
    } else if d == 3 {
        '3'
    } else if d == 4 {
        '4'
    } else if d == 5 {
        '5'
    } else if d == 6 {
        '6'
    } else if d == 7 {
        '7'
    } else if d == 8 {
        '8'
    } else {
        '9'
    }
}

/// `n` written in decimal, most significant digit first, without leading
/// zeros.
pub open spec fn decimal_digits(n: nat) -> Seq<char>
    decreases n,
{
    if n < 10 {
        seq![digit_char(n)]
    } else {
        decimal_digits(n / 10).push(digit_char(n % 10))
    }
}

fn digit_str(d: usize) -> (s: &'static str)
    requires
        d < 10,
    ensures
        s@ == seq![digit_char(d as nat)],
{
    proof {
        reveal_strlit("0");
        reveal_strlit("1");
        reveal_strlit("2");
        reveal_strlit("3");
        reveal_strlit("4");
        reveal_strlit("5");
        reveal_strlit("6");
        reveal_strlit("7");
        reveal_strlit("8");
        reveal_strlit("9");
    }
    let s = if d == 0 {
        "0"
    } else if d == 1 {
        "1"
    } else if d == 2 {
        "2"
    } else if d == 3 {
        "3"
    } else if d == 4 {
        "4"
    } else if d == 5 {
        "5"
    } else if d == 6 {
        "6"
    } else if d == 7 {
        "7"
    } else if d == 8 {
        "8"
    } else {
        "9"
    };
    assert(s@ =~= seq![digit_char(d as nat)]);
    s
}

/// Writes `n` in decimal.
pub fn decimal(n: usize) -> (s: String)
    ensures
        s@ == decimal_digits(n as nat),
    decreases n,
{
    if n < 10 {
        String::from_str(digit_str(n))
    } else {
        let mut s = decimal(n / 10);
        s.append(digit_str(n % 10));
        assert(s@ =~= decimal_digits((n / 10) as nat).push(digit_char((n % 10) as nat)));
        s
    }
}

/// `a` followed by `b`.
pub fn join2(a: &str, b: &str) -> (s: String)
    ensures
        s@ == a@ + b@,
{
    String::from_str(a).concat(b)
}

/// `a`, `b` and `c` in a row.
pub fn join3(a: &str, b: &str, c: &str) -> (s: String)
    ensures
        s@ == a@ + b@ + c@,
{
    String::from_str(a).concat(b).concat(c)
}

/// `count` spaces.
pub fn spaces(count: usize) -> (s: String)
    ensures
        s@ == Seq::new(count as nat, |i: int| ' '),
{
    let mut s = String::new();
    let mut i: usize = 0;
    proof {
        reveal_strlit(" ");
    }
    while i < count
        invariant
            i <= count,
            s@ == Seq::new(i as nat, |j: int| ' '),
            " "@ == seq![' '],
        decreases count - i,
    {
        s.append(" ");
        i += 1;
        assert(s@ =~= Seq::new(i as nat, |j: int| ' '));
    }
    s
}

/// What parts a text into fields.
#[derive(Clone, Copy, Debug, PartialEq, Eq, Structural)]
pub enum Separator {
    /// White space, as Unicode defines it.
    Whitespace,
    /// The slash between the segments of a path.
    Slash,
}

/// White space, as Unicode defines it: the characters that it marks
/// `White_Space`.
pub open spec fn is_white_space(c: char) -> bool {
    let n = c as u32;
    ||| (0x09 <= n && n <= 0x0d)
    ||| n == 0x20
    ||| n == 0x85
    ||| n == 0xa0
    ||| n == 0x1680
    ||| (0x2000 <= n && n <= 0x200a)
    ||| n == 0x2028
    ||| n == 0x2029
    ||| n == 0x202f
    ||| n == 0x205f
    ||| n == 0x3000
}

/// Whether `c` parts fields.
pub open spec fn separates(sep: Separator, c: char) -> bool {
    match sep {
        Separator::Whitespace => is_white_space(c),
        Separator::Slash => c == '/',
    }
}

/// The fields of `s`: its longest runs of characters that do not separate,
/// first to last. Separators in a row, or at either end, make no empty
/// field.
pub open spec fn fields_of(s: Seq<char>, sep: Separator) -> Seq<Seq<char>>
    decreases s.len(),
{
    if s.len() == 0 {
        Seq::empty()
    } else {
        let before = fields_of(s.drop_last(), sep);
        if separates(sep, s.last()) {
            before
        } else if s.len() >= 2 && !separates(sep, s[s.len() - 2]) && before.len() > 0 {
            before.drop_last().push(before.last().push(s.last()))
        } else {
            before.push(seq![s.last()])
        }
    }
}

/// No field is empty, and no field holds a separator.
pub proof fn lemma_fields_are_runs(s: Seq<char>, sep: Separator)
    ensures
        forall|i: int|
            0 <= i < fields_of(s, sep).len() ==> (#[trigger] fields_of(s, sep)[i]).len() > 0,
        forall|i: int, j: int|
            0 <= i < fields_of(s, sep).len() && 0 <= j < fields_of(s, sep)[i].len() ==> !separates(
                sep,
                #[trigger] fields_of(s, sep)[i][j],
            ),
    decreases s.len(),
{
    if s.len() > 0 {
        lemma_fields_are_runs(s.drop_last(), sep);
        let before = fields_of(s.drop_last(), sep);
        let now = fields_of(s, sep);
        if separates(sep, s.last()) {
        } else if s.len() >= 2 && !separates(sep, s[s.len() - 2]) && before.len() > 0 {
            assert forall|i: int, j: int| 0 <= i < now.len() && 0 <= j < now[i].len() implies !separates(
                sep,
                #[trigger] now[i][j],
            ) by {
                if i < before.len() - 1 {
                    assert(now[i] == before[i]);
                } else if j < before.last().len() {
                    assert(now[i][j] == before[before.len() - 1][j]);
                }
            }
        } else {
            assert forall|i: int, j: int| 0 <= i < now.len() && 0 <= j < now[i].len() implies !separates(
                sep,
                #[trigger] now[i][j],
            ) by {
                if i < before.len() {
                    assert(now[i] == before[i]);
                }
            }
        }
    }
}

fn is_separator(sep: Separator, c: char) -> (b: bool)
    ensures
        b == separates(sep, c),
{
    match sep {
        Separator::Slash => c == '/',
        Separator::Whitespace => {
            let n = c as u32;
            (0x09 <= n && n <= 0x0d) || n == 0x20 || n == 0x85 || n == 0xa0 || n == 0x1680 || (0x2000
                <= n && n <= 0x200a) || n == 0x2028 || n == 0x2029 || n == 0x202f || n == 0x205f || n
                == 0x3000
        },
    }
}

/// The texts of a list, each by its characters.
pub open spec fn texts(list: Seq<String>) -> Seq<Seq<char>> {
    Seq::new(list.len(), |i: int| list[i]@)
}

/// Parts `text` into its fields.
pub fn fields(text: &str, sep: Separator) -> (out: Vec<String>)
    ensures
        texts(out@) == fields_of(text@, sep),
{
    let n = text.unicode_len();
    let mut out: Vec<String> = Vec::new();
    let mut start: usize = 0;
    let mut inside = false;
    let mut i: usize = 0;
    proof {
        assert(text@.take(0) =~= Seq::<char>::empty());
        assert(texts(out@) =~= Seq::<Seq<char>>::empty());
    }
    while i < n
        invariant
            n == text@.len(),
            i <= n,
            inside ==> start < i && !separates(sep, text@[i - 1]),
            inside ==> fields_of(text@.take(i as int), sep) == texts(out@).push(
                text@.subrange(start as int, i as int),
            ),
            !inside ==> fields_of(text@.take(i as int), sep) == texts(out@),
            !inside && i > 0 ==> separates(sep, text@[i - 1]),
        decreases n - i,
    {
        let c = text.get_char(i);
        let ghost prefix = text@.take(i as int);
        let ghost next = text@.take(i + 1);
        let ghost done = texts(out@);
        proof {
            assert(next.drop_last() =~= prefix);
            assert(next.last() == c);
            if i > 0 {
                assert(next[next.len() - 2] == text@[i - 1]);
            }
        }
        if is_separator(sep, c) {
            if inside {
                out.push(String::from_str(text.substring_char(start, i)));
                assert(texts(out@) =~= done.push(text@.subrange(start as int, i as int)));
                inside = false;
            }
        } else {
            if inside {
                proof {
                    let before = fields_of(prefix, sep);
                    assert(before.drop_last() =~= done);
                    assert(before.last().push(c) =~= text@.subrange(start as int, i + 1));
                }
            } else {
                start = i;
                inside = true;
                proof {
                    assert(seq![c] =~= text@.subrange(i as int, i + 1));
                    if i > 0 && fields_of(prefix, sep).len() > 0 {
                        assert(separates(sep, text@[i - 1]));
                    }
                }
            }
        }
        i += 1;
    }
    proof {
        assert(text@.take(i as int) =~= text@);
    }
    if inside {
        let ghost done = texts(out@);
        out.push(String::from_str(text.substring_char(start, n)));
        assert(texts(out@) =~= done.push(text@.subrange(start as int, n as int)));
    }
    out
}

/// The words of a line: its fields between white space.
pub fn words(line: &str) -> (out: Vec<String>)
    ensures
        texts(out@) == fields_of(line@, Separator::Whitespace),
{
    fields(line, Separator::Whitespace)
}

/// The lower-case form of an ASCII letter; any other byte stays.
pub open spec fn ascii_lower(b: u8) -> u8 {
    if 0x41 <= b <= 0x5a {
        (b + 0x20) as u8
    } else {
        b
    }
}

/// Two byte strings are the same but for the case of their ASCII letters.
pub open spec fn same_ignoring_ascii_case(a: Seq<u8>, b: Seq<u8>) -> bool {
    &&& a.len() == b.len()
    &&& forall|i: int| 0 <= i < a.len() ==> ascii_lower(#[trigger] a[i]) == ascii_lower(b[i])
}

fn lower(b: u8) -> (l: u8)
    ensures
        l == ascii_lower(b),
{
    if 0x41 <= b && b <= 0x5a {
        b + 0x20
    } else {
        b
    }
}

/// Whether two texts are the same but for the case of their ASCII letters.
/// The texts are compared by their bytes in UTF-8.
pub fn eq_ignore_ascii_case(a: &str, b: &str) -> (same: bool)
    ensures
        same == same_ignoring_ascii_case(
            vstd::utf8::encode_utf8(a@),
            vstd::utf8::encode_utf8(b@),
        ),
{
    let x = a.as_bytes_vec();
    let y = b.as_bytes_vec();
    if x.len() != y.len() {
        return false;
    }
    let mut i: usize = 0;
    while i < x.len()
        invariant
            i <= x.len(),
            x.len() == y.len(),
            x@ == vstd::utf8::encode_utf8(a@),
            y@ == vstd::utf8::encode_utf8(b@),
            forall|j: int| 0 <= j < i ==> ascii_lower(#[trigger] x@[j]) == ascii_lower(y@[j]),
        decreases x.len() - i,
    {
        if lower(x[i]) != lower(y[i]) {
            assert(ascii_lower(x@[i as int]) != ascii_lower(y@[i as int]));
            return false;
        }
        i += 1;
    }
    true
}

} // verus!
