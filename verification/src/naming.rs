//! File names made of a zero-padded decimal number, and the paths built
//! from them.

use vstd::prelude::*;
use vstd::string::*;

verus! {

/// The character of the decimal digit `d`.
pub open spec fn digit_char(d: int) -> char {
    if d == 0 {
        '0'
    } else if d == 1 {
        '1'
    } else if d == 2 {
        '2'
    } else if d == 3 {
        '3'
    } else if d == 4 {
        '4'
    } else if d == 5 {
        '5'
    } else if d == 6 {
        '6'
    } else if d == 7 {
        '7'
    } else if d == 8 {
        '8'
    } else {
        '9'
    }
}

/// The decimal numeral of `n`, without leading zeros (`"0"` for zero).
pub open spec fn decimal(n: nat) -> Seq<char>
    decreases n,
{
    if n < 10 {
        seq![digit_char(n as int)]
    } else {
        decimal(n / 10).push(digit_char((n % 10) as int))
    }
}

/// `count` copies of the character `'0'`.
pub open spec fn zeros(count: nat) -> Seq<char> {
    Seq::new(count, |i: int| '0')
}

/// The decimal numeral of `n`, filled with zeros on the left up to `width`
/// characters. A numeral longer than `width` is kept whole.
pub open spec fn zero_padded(n: nat, width: nat) -> Seq<char> {
    let numeral = decimal(n);
    if numeral.len() >= width {
        numeral
    } else {
        zeros((width - numeral.len()) as nat) + numeral
    }
}

/// The name of item `idx`: its zero-padded number, followed by a dot and the
/// extension where there is one.
pub open spec fn file_name(idx: nat, width: nat, ext: Option<Seq<char>>) -> Seq<char> {
    match ext {
        Some(e) => zero_padded(idx, width) + seq!['.'] + e,
        None => zero_padded(idx, width),
    }
}

/// `name` placed under the directory `dir`.
pub open spec fn join(dir: Seq<char>, name: Seq<char>) -> Seq<char> {
    dir + seq!['/'] + name
}

/// The path of item `idx` of the directory `dir`.
pub open spec fn item_path(
    dir: Seq<char>,
    width: nat,
    ext: Option<Seq<char>>,
    idx: nat,
) -> Seq<char> {
    join(dir, file_name(idx, width, ext))
}

/// The view of an optional extension.
pub open spec fn ext_view(ext: Option<&str>) -> Option<Seq<char>> {
    match ext {
        Some(e) => Some(e@),
        None => None,
    }
}

/// The digit that the character `c` stands for; zero for any other
/// character.
pub open spec fn digit_value(c: char) -> nat {
    if c == '1' {
        1
    } else if c == '2' {
        2
    } else if c == '3' {
        3
    } else if c == '4' {
        4
    } else if c == '5' {
        5
    } else if c == '6' {
        6
    } else if c == '7' {
        7
    } else if c == '8' {
        8
    } else if c == '9' {
        9
    } else {
        0
    }
}

/// The number that a run of digits stands for.
pub open spec fn numeral_value(digits: Seq<char>) -> nat
    decreases digits.len(),
{
    if digits.len() == 0 {
        0
    } else {
        numeral_value(digits.drop_last()) * 10 + digit_value(digits.last())
    }
}

/// The decimal numeral of a number stands for that number.
pub proof fn lemma_decimal_value(n: nat)
    ensures
        numeral_value(decimal(n)) == n,
    decreases n,
{
    if n < 10 {
        let digits = decimal(n);
        assert(digits.drop_last() =~= Seq::<char>::empty());
        assert(numeral_value(digits.drop_last()) == 0);
    } else {
        lemma_decimal_value(n / 10);
        let digits = decimal(n);
        assert(digits.drop_last() =~= decimal(n / 10));
    }
}

/// Zeros on the left do not change the number that a numeral stands for.
pub proof fn lemma_leading_zeros(count: nat, digits: Seq<char>)
    ensures
        numeral_value(zeros(count) + digits) == numeral_value(digits),
    decreases digits.len(), count,
{
    let padded = zeros(count) + digits;
    if digits.len() > 0 {
        assert(padded.drop_last() =~= zeros(count) + digits.drop_last());
        lemma_leading_zeros(count, digits.drop_last());
    } else if count > 0 {
        assert(padded.drop_last() =~= zeros((count - 1) as nat) + digits);
        lemma_leading_zeros((count - 1) as nat, digits);
    } else {
        assert(padded =~= digits);
    }
}

/// A zero-padded numeral stands for its number, so two numbers with the
/// same numeral are the same number.
pub proof fn lemma_zero_padded_value(n: nat, width: nat)
    ensures
        numeral_value(zero_padded(n, width)) == n,
{
    lemma_decimal_value(n);
    if decimal(n).len() < width {
        lemma_leading_zeros((width - decimal(n).len()) as nat, decimal(n));
    }
}

/// Different items of one directory have different names.
pub proof fn lemma_file_names_differ(a: nat, b: nat, width: nat, ext: Option<Seq<char>>)
    requires
        a != b,
    ensures
        file_name(a, width, ext) != file_name(b, width, ext),
{
    let name_a = file_name(a, width, ext);
    let name_b = file_name(b, width, ext);
    let stem_a = zero_padded(a, width);
    let stem_b = zero_padded(b, width);
    lemma_zero_padded_value(a, width);
    lemma_zero_padded_value(b, width);
    if name_a == name_b {
        assert(stem_a.len() == stem_b.len()) by {
            match ext {
                Some(e) => {
                    assert(name_a.len() == stem_a.len() + 1 + e.len());
                    assert(name_b.len() == stem_b.len() + 1 + e.len());
                },
                None => {},
            }
        }
        assert(stem_a =~= name_a.subrange(0, stem_a.len() as int));
        assert(stem_b =~= name_b.subrange(0, stem_b.len() as int));
        assert(false);
    }
}

/// Different names under one directory have different paths.
pub proof fn lemma_joined_differ(dir: Seq<char>, a: Seq<char>, b: Seq<char>)
    requires
        a != b,
    ensures
        join(dir, a) != join(dir, b),
{
    let path_a = join(dir, a);
    let path_b = join(dir, b);
    if path_a == path_b {
        assert(a =~= path_a.subrange(dir.len() as int + 1, path_a.len() as int));
        assert(b =~= path_b.subrange(dir.len() as int + 1, path_b.len() as int));
        assert(false);
    }
}

/// Different items of one directory have different paths: no two indices
/// address the same file.
pub proof fn lemma_item_paths_differ(
    dir: Seq<char>,
    width: nat,
    ext: Option<Seq<char>>,
    a: nat,
    b: nat,
)
    requires
        a != b,
    ensures
        item_path(dir, width, ext, a) != item_path(dir, width, ext, b),
{
    lemma_file_names_differ(a, b, width, ext);
    lemma_joined_differ(dir, file_name(a, width, ext), file_name(b, width, ext));
}

fn digit_str(d: usize) -> (s: &'static str)
    requires
        d < 10,
    ensures
        s@ == seq![digit_char(d as int)],
{
    proof {
        reveal_strlit("0");
        reveal_strlit("1");
        reveal_strlit("2");
        reveal_strlit("3");
        reveal_strlit("4");
        reveal_strlit("5");
        reveal_strlit("6");
        reveal_strlit("7");
        reveal_strlit("8");
        reveal_strlit("9");
    }
    let s = if d == 0 {
        "0"
    } else if d == 1 {
        "1"
    } else if d == 2 {
        "2"
    } else if d == 3 {
        "3"
    } else if d == 4 {
        "4"
    } else if d == 5 {
        "5"
    } else if d == 6 {
        "6"
    } else if d == 7 {
        "7"
    } else if d == 8 {
        "8"
    } else {
        "9"
    };
    assert(s@ =~= seq![digit_char(d as int)]);
    s
}

/// The number of characters in the decimal numeral of `n`.
fn decimal_len(n: usize) -> (len: usize)
    ensures
        len == decimal(n as nat).len(),
        1 <= len <= 20,
    decreases n,
{
    if n < 10 {
        1
    } else {
        let rest = decimal_len(n / 10);
        proof {
            lemma_decimal_len_bound(n as nat);
        }
        rest + 1
    }
}

/// A numeral has at most as many characters as its number has digits in
/// base ten: a number under `10^k` has at most `k` of them.
proof fn lemma_decimal_len_bound(n: nat)
    ensures
        n <= 0xffff_ffff_ffff_ffff ==> decimal(n).len() <= 20,
        decimal(n).len() >= 1,
    decreases n,
{
    reveal_with_fuel(decimal, 21);
}

fn append_decimal(out: &mut String, n: usize)
    ensures
        final(out)@ == old(out)@ + decimal(n as nat),
    decreases n,
{
    if n < 10 {
        out.append(digit_str(n));
    } else {
        append_decimal(out, n / 10);
        out.append(digit_str(n % 10));
        assert(final(out)@ =~= old(out)@ + decimal(n as nat));
    }
}

/// Writes `idx` in decimal, filled with zeros on the left up to `width`
/// characters.
pub fn format_index(idx: usize, width: usize) -> (s: String)
    ensures
        s@ == zero_padded(idx as nat, width as nat),
{
    let len = decimal_len(idx);
    let mut s = String::new();
    let mut filled: usize = len;
    while filled < width
        invariant
            len <= filled,
            filled <= width || filled == len,
            s@ == zeros((filled - len) as nat),
        decreases width - filled,
    {
        proof {
            reveal_strlit("0");
        }
        s.append("0");
        filled = filled + 1;
        assert(s@ =~= zeros((filled - len) as nat));
    }
    append_decimal(&mut s, idx);
    assert(s@ =~= zero_padded(idx as nat, width as nat));
    s
}

/// The file name of item `idx`: `format_index`, then a dot and `ext` where
/// an extension is given.
pub fn create_file_name(idx: usize, width: usize, ext: Option<&str>) -> (name: String)
    ensures
        name@ == file_name(idx as nat, width as nat, ext_view(ext)),
{
    let mut name = format_index(idx, width);
    match ext {
        Some(e) => {
            proof {
                reveal_strlit(".");
            }
            name.append(".");
            name.append(e);
            assert(name@ =~= file_name(idx as nat, width as nat, ext_view(ext)));
        },
        None => {},
    }
    name
}

/// The path of `name` under the directory `dir`.
pub fn join_path(dir: &str, name: &str) -> (path: String)
    ensures
        path@ == join(dir@, name@),
{
    let mut path = String::from_str(dir);
    proof {
        reveal_strlit("/");
    }
    path.append("/");
    path.append(name);
    assert(path@ =~= join(dir@, name@));
    path
}

} // verus!
