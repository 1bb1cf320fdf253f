//! Text building blocks used by code generation: decimal numerals,
//! repetition, joining with a separator, blank tests and line counts.

use vstd::prelude::*;

verus! {

/// The numeral of a single decimal digit.
pub open spec fn digit_text(d: nat) -> Seq<char> {
    if d == 0 {
        "0"@
    } else if d == 1 {
        "1"@
    } else if d == 2 {
        "2"@
    } else if d == 3 {
        "3"@
    } else if d == 4 {
        "4"@
    } else if d == 5 {
        "5"@
    } else if d == 6 {
        "6"@
    } else if d == 7 {
        "7"@
    } else if d == 8 {
        "8"@
    } else {
        "9"@
    }
}

/// The decimal numeral of `n`, without leading zeros.
pub open spec fn decimal(n: nat) -> Seq<char>
    decreases n,
{
    if n < 10 {
        digit_text(n)
    } else {
        decimal(n / 10) + digit_text(n % 10)
    }
}

proof fn lemma_digit_text(a: nat, b: nat)
    requires
        a < 10,
        b < 10,
    ensures
        digit_text(a).len() == 1,
        digit_text(a) == digit_text(b) ==> a == b,
{
    reveal_strlit("0");
    reveal_strlit("1");
    reveal_strlit("2");
    reveal_strlit("3");
    reveal_strlit("4");
    reveal_strlit("5");
    reveal_strlit("6");
    reveal_strlit("7");
    reveal_strlit("8");
    reveal_strlit("9");
    if digit_text(a) == digit_text(b) {
        assert(digit_text(a)[0] == digit_text(b)[0]);
    }
}

proof fn lemma_decimal_len(n: nat)
    ensures
        decimal(n).len() >= 1,
        n < 10 ==> decimal(n).len() == 1,
        n >= 10 ==> decimal(n).len() >= 2,
    decreases n,
{
    lemma_digit_text(n % 10, n % 10);
    if n >= 10 {
        lemma_decimal_len(n / 10);
    }
}

/// Different numbers have different numerals.
pub proof fn lemma_decimal_injective(a: nat, b: nat)
    ensures
        decimal(a) == decimal(b) ==> a == b,
    decreases a,
{
    if decimal(a) == decimal(b) {
        lemma_decimal_len(a);
        lemma_decimal_len(b);
        if a < 10 && b < 10 {
            lemma_digit_text(a, b);
        } else if a >= 10 && b >= 10 {
            let da = decimal(a / 10);
            let db = decimal(b / 10);
            lemma_digit_text(a % 10, b % 10);
            lemma_digit_text(b % 10, a % 10);
            assert(decimal(a) == da + digit_text(a % 10));
            assert(decimal(b) == db + digit_text(b % 10));
            assert(decimal(a).drop_last() =~= da);
            assert(decimal(b).drop_last() =~= db);
            assert(digit_text(a % 10) =~= seq![decimal(a).last()]);
            assert(digit_text(b % 10) =~= seq![decimal(b).last()]);
            lemma_decimal_injective(a / 10, b / 10);
        }
    }
}

/// Whether `c` is a decimal digit.
pub open spec fn is_digit(c: char) -> bool {
    '0' <= c && c <= '9'
}

/// A numeral holds decimal digits only.
pub proof fn lemma_decimal_digits(n: nat)
    ensures
        forall|i: int| 0 <= i < decimal(n).len() ==> is_digit(#[trigger] decimal(n)[i]),
    decreases n,
{
    reveal_strlit("0");
    reveal_strlit("1");
    reveal_strlit("2");
    reveal_strlit("3");
    reveal_strlit("4");
    reveal_strlit("5");
    reveal_strlit("6");
    reveal_strlit("7");
    reveal_strlit("8");
    reveal_strlit("9");
    lemma_digit_text(n % 10, n % 10);
    if n >= 10 {
        lemma_decimal_digits(n / 10);
        let d = decimal(n / 10);
        let t = digit_text(n % 10);
        assert(decimal(n) == d + t);
        assert forall|i: int| 0 <= i < decimal(n).len() implies is_digit(#[trigger] decimal(n)[i]) by {
            if i < d.len() {
                assert(decimal(n)[i] == d[i]);
            } else {
                assert(decimal(n)[i] == t[i - d.len()]);
            }
        }
    }
}

fn digit_str(d: u64) -> (r: &'static str)
    requires
        d < 10,
    ensures
        r@ == digit_text(d as nat),
{
    if d == 0 {
        "0"
    } else if d == 1 {
        "1"
    } else if d == 2 {
        "2"
    } else if d == 3 {
        "3"
    } else if d == 4 {
        "4"
    } else if d == 5 {
        "5"
    } else if d == 6 {
        "6"
    } else if d == 7 {
        "7"
    } else if d == 8 {
        "8"
    } else {
        "9"
    }
}

/// The decimal numeral of `n`, as `n.to_string()` writes it.
pub fn decimal_string(n: u64) -> (r: String)
    ensures
        r@ == decimal(n as nat),
    decreases n,
{
    if n < 10 {
        String::from_str(digit_str(n))
    } else {
        let mut s = decimal_string(n / 10);
        s.append(digit_str(n % 10));
        s
    }
}

/// `s` written `n` times in a row.
pub open spec fn repeated(s: Seq<char>, n: nat) -> Seq<char>
    decreases n,
{
    if n == 0 {
        Seq::empty()
    } else {
        repeated(s, (n - 1) as nat) + s
    }
}

/// `s` written `n` times in a row, as `str::repeat` builds it.
pub fn repeat_text(s: &str, n: usize) -> (r: String)
    ensures
        r@ == repeated(s@, n as nat),
{
    let mut out = String::new();
    let mut i: usize = 0;
    while i < n
        invariant
            i <= n,
            out@ == repeated(s@, i as nat),
        decreases n - i,
    {
        out.append(s);
        i = i + 1;
    }
    out
}

/// The parts written one after another with `sep` between each two.
pub open spec fn joined(parts: Seq<Seq<char>>, sep: Seq<char>) -> Seq<char>
    decreases parts.len(),
{
    if parts.len() == 0 {
        Seq::empty()
    } else if parts.len() == 1 {
        parts[0]
    } else {
        joined(parts.drop_last(), sep) + sep + parts.last()
    }
}

/// The characters of each string.
pub open spec fn texts_of(v: Seq<String>) -> Seq<Seq<char>> {
    v.map_values(|x: String| x@)
}

/// The parts joined with `sep`, as `[String]::join` builds it.
pub fn join_texts(parts: &Vec<String>, sep: &str) -> (r: String)
    ensures
        r@ == joined(texts_of(parts@), sep@),
{
    let mut out = String::new();
    let mut i: usize = 0;
    assert(texts_of(parts@).take(0) =~= Seq::<Seq<char>>::empty());
    while i < parts.len()
        invariant
            i <= parts@.len(),
            out@ == joined(texts_of(parts@).take(i as int), sep@),
        decreases parts@.len() - i,
    {
        let ghost pre = texts_of(parts@).take(i as int);
        let ghost nxt = texts_of(parts@).take(i + 1);
        assert(nxt.drop_last() =~= pre);
        assert(nxt.last() == parts@[i as int]@);
        if i > 0 {
            out.append(sep);
        } else {
            assert(nxt =~= seq![parts@[0]@]);
        }
        out.append(parts[i].as_str());
        i = i + 1;
    }
    assert(texts_of(parts@).take(parts@.len() as int) =~= texts_of(parts@));
    out
}

/// Characters with the Unicode `White_Space` property, as
/// `char::is_whitespace` tests.
pub open spec fn is_white(c: char) -> bool {
    let v = c as u32;
    (0x9 <= v && v <= 0xD) || v == 0x20 || v == 0x85 || v == 0xA0 || v == 0x1680 || (0x2000 <= v
        && v <= 0x200A) || v == 0x2028 || v == 0x2029 || v == 0x202F || v == 0x205F || v == 0x3000
}

/// Whether `c` is white space.
pub fn char_is_white(c: char) -> (r: bool)
    ensures
        r == is_white(c),
{
    let v = c as u32;
    (0x9 <= v && v <= 0xD) || v == 0x20 || v == 0x85 || v == 0xA0 || v == 0x1680 || (0x2000 <= v
        && v <= 0x200A) || v == 0x2028 || v == 0x2029 || v == 0x202F || v == 0x205F || v == 0x3000
}

/// Nothing is left of `s` once white space is trimmed.
pub open spec fn blank(s: Seq<char>) -> bool {
    forall|i: int| 0 <= i < s.len() ==> is_white(#[trigger] s[i])
}

/// Whether `s.trim()` is empty.
pub fn is_blank(s: &str) -> (r: bool)
    ensures
        r == blank(s@),
{
    let n = s.unicode_len();
    let mut i: usize = 0;
    while i < n
        invariant
            n == s@.len(),
            i <= n,
            forall|j: int| 0 <= j < i ==> is_white(#[trigger] s@[j]),
        decreases n - i,
    {
        if !char_is_white(s.get_char(i)) {
            return false;
        }
        i = i + 1;
    }
    true
}

/// Number of newline characters among the first `n` of `s`.
pub open spec fn newlines(s: Seq<char>, n: int) -> nat
    decreases n,
{
    if n <= 0 {
        0
    } else {
        newlines(s, n - 1) + if s[n - 1] == '\n' {
            1nat
        } else {
            0nat
        }
    }
}

/// Number of lines `str::lines` yields: one per newline, plus an
/// unterminated last line.
pub open spec fn line_total(s: Seq<char>) -> nat {
    newlines(s, s.len() as int) + if s.len() > 0 && s.last() != '\n' {
        1nat
    } else {
        0nat
    }
}

proof fn lemma_newlines_le(s: Seq<char>, n: int)
    requires
        0 <= n,
    ensures
        newlines(s, n) <= n,
    decreases n,
{
    if n > 0 {
        lemma_newlines_le(s, n - 1);
    }
}

/// Number of lines of `s`, as `s.lines().count()` counts them.
pub fn count_lines(s: &str) -> (r: usize)
    ensures
        r == line_total(s@),
{
    let n = s.unicode_len();
    let mut count: usize = 0;
    let mut i: usize = 0;
    while i < n
        invariant
            n == s@.len(),
            i <= n,
            count == newlines(s@, i as int),
        decreases n - i,
    {
        proof {
            lemma_newlines_le(s@, i as int);
        }
        if s.get_char(i) == '\n' {
            count = count + 1;
        }
        i = i + 1;
    }
    if n > 0 && s.get_char(n - 1) != '\n' {
        proof {
            lemma_newlines_le(s@, n - 1);
        }
        count = count + 1;
    }
    count
}

} // verus!
