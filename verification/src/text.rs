//! Text helpers: hexadecimal and decimal digits, white space and trimming.

use vstd::prelude::*;
use vstd::string::*;
use vstd::std_specs::iter::IteratorSpec;

verus! {

broadcast use vstd::string::group_string_axioms;

/// The sixteen hexadecimal digits, lower case, in order of value.
pub open spec fn hex_digits() -> Seq<char> {
    seq!['0', '1', '2', '3', '4', '5', '6', '7', '8', '9', 'a', 'b', 'c', 'd', 'e', 'f']
}

/// The digit that stands for `nibble`, for `0 <= nibble < 16`.
pub open spec fn hex_char(nibble: int) -> char {
    hex_digits()[nibble]
}

/// The hexadecimal text of `bytes`: two digits per byte, high nibble first.
pub open spec fn hex_of(bytes: Seq<u8>) -> Seq<char> {
    Seq::new(
        2 * bytes.len(),
        |i: int|
            if i % 2 == 0 {
                hex_char(bytes[i / 2] as int / 16)
            } else {
                hex_char(bytes[i / 2] as int % 16)
            },
    )
}

/// The decimal digits of `n`, without leading zeros. The ten decimal digits
/// are the first ten of the hexadecimal ones.
pub open spec fn digits_of(n: nat) -> Seq<char>
    decreases n,
{
    if n < 10 {
        seq![hex_char(n as int)]
    } else {
        digits_of(n / 10).push(hex_char((n % 10) as int))
    }
}

/// The decimal text of `n`, with a minus sign in front where it is negative.
pub open spec fn decimal_of(n: int) -> Seq<char> {
    if n < 0 {
        seq!['-'] + digits_of((-n) as nat)
    } else {
        digits_of(n as nat)
    }
}

/// The one-character text of the digit that stands for `nibble`.
pub(crate) fn hex_str(nibble: u8) -> (s: &'static str)
    requires
        nibble < 16,
    ensures
        s@ == seq![hex_char(nibble as int)],
{
    proof {
        reveal_strlit("0");
        reveal_strlit("1");
        reveal_strlit("2");
        reveal_strlit("3");
        reveal_strlit("4");
        reveal_strlit("5");
        reveal_strlit("6");
        reveal_strlit("7");
        reveal_strlit("8");
        reveal_strlit("9");
        reveal_strlit("a");
        reveal_strlit("b");
        reveal_strlit("c");
        reveal_strlit("d");
        reveal_strlit("e");
        reveal_strlit("f");
    }
    let s = match nibble {
        0 => "0",
        1 => "1",
        2 => "2",
        3 => "3",
        4 => "4",
        5 => "5",
        6 => "6",
        7 => "7",
        8 => "8",
        9 => "9",
        10 => "a",
        11 => "b",
        12 => "c",
        13 => "d",
        14 => "e",
        _ => "f",
    };
    s
}

/// Appends the hexadecimal text of `bytes` to `out`.
pub fn append_hex(out: &mut String, bytes: &[u8])
    ensures
        final(out)@ == old(out)@ + hex_of(bytes@),
{
    let ghost start = out@;
    let mut i: usize = 0;
    while i < bytes.len()
        invariant
            i <= bytes@.len(),
            out@ == start + hex_of(bytes@.take(i as int)),
        decreases bytes@.len() - i,
    {
        let b: u8 = bytes[i];
        out.append(hex_str(b / 16));
        out.append(hex_str(b % 16));
        i += 1;
    }
}

/// Appends the decimal digits of `n` to `out`.
pub fn append_decimal_u64(out: &mut String, n: u64)
    ensures
        final(out)@ == old(out)@ + digits_of(n as nat),
    decreases n,
{
    if n >= 10 {
        append_decimal_u64(out, n / 10);
    }
    out.append(hex_str((n % 10) as u8));
}

/// Appends the decimal text of `n` to `out`.
pub fn append_decimal(out: &mut String, n: i32)
    ensures
        final(out)@ == old(out)@ + decimal_of(n as int),
{
    let wide: i64 = n as i64;
    if wide < 0 {
        proof {
            reveal_strlit("-");
        }
        out.append("-");
        append_decimal_u64(out, (-wide) as u64);
    } else {
        append_decimal_u64(out, wide as u64);
    }
}

/// Whether `c` is white space: the code points with the Unicode property
/// `White_Space`.
pub open spec fn is_white_space(c: char) -> bool {
    let u = c as u32;
    ||| 0x09 <= u <= 0x0D
    ||| u == 0x20
    ||| u == 0x85
    ||| u == 0xA0
    ||| u == 0x1680
    ||| 0x2000 <= u <= 0x200A
    ||| u == 0x2028
    ||| u == 0x2029
    ||| u == 0x202F
    ||| u == 0x205F
    ||| u == 0x3000
}

/// The number of white-space characters that `s` begins with.
pub open spec fn leading_space(s: Seq<char>) -> nat
    decreases s.len(),
{
    if s.len() > 0 && is_white_space(s[0]) {
        1 + leading_space(s.drop_first())
    } else {
        0
    }
}

/// The number of white-space characters that `s` ends with.
pub open spec fn trailing_space(s: Seq<char>) -> nat
    decreases s.len(),
{
    if s.len() > 0 && is_white_space(s.last()) {
        1 + trailing_space(s.drop_last())
    } else {
        0
    }
}

/// `s` without the white space it begins and ends with. A text of white
/// space alone becomes empty.
pub open spec fn trimmed(s: Seq<char>) -> Seq<char> {
    let lead = leading_space(s) as int;
    let rest = s.skip(lead);
    rest.take(rest.len() - trailing_space(rest))
}

/// Whether `c` is white space.
pub fn is_space(c: char) -> (r: bool)
    ensures
        r == is_white_space(c),
{
    let u: u32 = c as u32;
    (0x09 <= u && u <= 0x0D) || u == 0x20 || u == 0x85 || u == 0xA0 || u == 0x1680 || (0x2000 <= u
        && u <= 0x200A) || u == 0x2028 || u == 0x2029 || u == 0x202F || u == 0x205F || u == 0x3000
}

/// Where the trimmed text lies in `s`: `trimmed(s)` is `s.subrange(from, to)`
/// when the characters before `from` and from `to` on are white space and
/// the range has no white space at either end, or is empty at the end of a
/// text of white space alone.
pub proof fn lemma_trimmed_range(s: Seq<char>, from: int, to: int)
    requires
        0 <= from <= to <= s.len(),
        forall|k: int| 0 <= k < from ==> is_white_space(s[k]),
        forall|k: int| to <= k < s.len() ==> is_white_space(s[k]),
        from < to ==> !is_white_space(s[from]) && !is_white_space(s[to - 1]),
        from == to ==> to == s.len(),
    ensures
        trimmed(s) == s.subrange(from, to),
{
    lemma_leading(s, from);
    let rest = s.skip(from);
    lemma_trailing(rest, to - from);
}

proof fn lemma_leading(s: Seq<char>, n: int)
    requires
        0 <= n <= s.len(),
        forall|k: int| 0 <= k < n ==> is_white_space(s[k]),
        n < s.len() ==> !is_white_space(s[n]),
    ensures
        leading_space(s) == n,
    decreases n,
{
    if n > 0 {
        let t = s.drop_first();
        lemma_leading(t, n - 1);
    }
}

proof fn lemma_trailing(s: Seq<char>, keep: int)
    requires
        0 <= keep <= s.len(),
        forall|k: int| keep <= k < s.len() ==> is_white_space(s[k]),
        keep > 0 ==> !is_white_space(s[keep - 1]),
    ensures
        trailing_space(s) == s.len() - keep,
    decreases s.len() - keep,
{
    if keep < s.len() {
        let t = s.drop_last();
        lemma_trailing(t, keep);
    }
}

/// `text` without the white space it begins and ends with.
pub fn trim(text: &str) -> (r: String)
    ensures
        r@ == trimmed(text@),
{
    let total: usize = text.unicode_len();
    let mut chars = text.chars();
    let mut index: usize = 0;
    let mut from: usize = 0;
    let mut to: usize = 0;
    let mut found: bool = false;
    loop
        invariant
            chars.obeys_prophetic_iter_laws(),
            index <= total == text@.len(),
            chars.remaining() == text@.skip(index as int),
            found ==> from < to <= index && !is_white_space(text@[from as int])
                && !is_white_space(text@[to - 1]),
            found ==> forall|k: int| 0 <= k < from ==> is_white_space(#[trigger] text@[k]),
            found ==> forall|k: int| to <= k < index ==> is_white_space(#[trigger] text@[k]),
            !found ==> from == 0 && to == 0,
            !found ==> forall|k: int| 0 <= k < index ==> is_white_space(#[trigger] text@[k]),
        ensures
            index == total,
        decreases total - index,
    {
        let ghost before = chars;
        let next = chars.next();
        proof {
            vstd::string::next_postcondition(&before, &chars, next);
        }
        match next {
            None => {
                break ;
            },
            Some(c) => {
                if !is_space(c) {
                    if !found {
                        from = index;
                        found = true;
                    }
                    to = index + 1;
                }
                index = index + 1;
            },
        }
    }
    proof {
        if found {
            lemma_trimmed_range(text@, from as int, to as int);
        } else {
            lemma_trimmed_range(text@, total as int, total as int);
        }
    }
    if found {
        String::from_str(text.substring_char(from, to))
    } else {
        String::new()
    }
}

} // verus!
