//! Text that the library takes apart or puts together.

use crate::bytes::same_bytes;
use vstd::prelude::*;
use vstd::string::*;
use vstd::utf8::*;

verus! {

/// The texts of a list of strings.
pub open spec fn texts(list: Seq<String>) -> Seq<Seq<char>> {
    list.map_values(|s: String| s@)
}

/// The position of the first `c` in `s`, or the length of `s` where there is none.
pub open spec fn find_char(s: Seq<char>, c: char) -> int
    decreases s.len(),
{
    if s.len() == 0 || s[0] == c {
        0
    } else {
        1 + find_char(s.drop_first(), c)
    }
}

/// What stands before and after the first `c` in `s`, if `s` has one.
pub open spec fn cut(s: Seq<char>, c: char) -> Option<(Seq<char>, Seq<char>)> {
    let k = find_char(s, c);
    if k < s.len() {
        Some((s.take(k), s.skip(k + 1)))
    } else {
        None
    }
}

/// `find_char` is the first position that holds `c`.
pub proof fn find_char_is_first(s: Seq<char>, c: char)
    ensures
        0 <= find_char(s, c) <= s.len(),
        find_char(s, c) < s.len() ==> s[find_char(s, c)] == c,
        forall|i: int| 0 <= i < find_char(s, c) ==> s[i] != c,
    decreases s.len(),
{
    if s.len() == 0 || s[0] == c {
    } else {
        let rest = s.drop_first();
        find_char_is_first(rest, c);
        assert forall|i: int| 0 <= i < find_char(s, c) implies s[i] != c by {
            if i > 0 {
                assert(s[i] == rest[i - 1]);
            }
        }
    }
}

/// A first position that holds `c` is `find_char`.
pub proof fn find_char_unique(s: Seq<char>, c: char, k: int)
    requires
        0 <= k <= s.len(),
        k < s.len() ==> s[k] == c,
        forall|i: int| 0 <= i < k ==> s[i] != c,
    ensures
        find_char(s, c) == k,
{
    find_char_is_first(s, c);
    let f = find_char(s, c);
    if f < k {
        assert(s[f] != c);
    } else if k < f {
        assert(s[k] != c);
    }
}

/// Whether two texts are the same.
pub fn same_text(a: &str, b: &str) -> (same: bool)
    ensures
        same == (a@ == b@),
{
    proof {
        encode_utf8_decode_utf8(a@);
        encode_utf8_decode_utf8(b@);
    }
    same_bytes(a.as_bytes(), b.as_bytes())
}

/// The characters of a text.
pub fn chars_of(s: &str) -> (out: Vec<char>)
    ensures
        out@ == s@,
{
    let mut out: Vec<char> = Vec::new();
    for c in it: s.chars()
        invariant
            it.seq() == s@,
            out@ == s@.take(it.index() as int),
    {
        out.push(c);
        assert(out@ =~= s@.take(it.index() + 1));
    }
    assert(s@.take(s@.len() as int) =~= s@);
    out
}

/// Splits a text at the first `c`.
pub fn split_once(s: &str, c: char) -> (parts: Option<(&str, &str)>)
    ensures
        match parts {
            Some((before, after)) => cut(s@, c) == Some((before@, after@)),
            None => cut(s@, c) is None,
        },
{
    let chars = chars_of(s);
    let n: usize = chars.len();
    let mut k: usize = 0;
    while k < n
        invariant
            n == chars@.len(),
            chars@ == s@,
            k <= n,
            forall|i: int| 0 <= i < k ==> s@[i] != c,
        decreases n - k,
    {
        if chars[k] == c {
            proof {
                find_char_unique(s@, c, k as int);
            }
            let before = s.substring_char(0, k);
            let after = s.substring_char(k + 1, n);
            assert(before@ =~= s@.take(k as int));
            assert(after@ =~= s@.skip(k + 1));
            return Some((before, after));
        }
        k = k + 1;
    }
    proof {
        find_char_unique(s@, c, n as int);
    }
    None
}

/// The character that shows the digit `d`.
pub open spec fn digit_char(d: nat) -> char {
    (48 + d) as char
}

/// A number as decimal text, without sign or leading zeros.
pub open spec fn decimal_text(n: nat) -> Seq<char>
    decreases n,
{
    if n < 10 {
        seq![digit_char(n)]
    } else {
        decimal_text(n / 10).push(digit_char(n % 10))
    }
}

/// The value of a digit character in a number system of base `radix`, at most ten.
pub open spec fn digit_value(c: char, radix: nat) -> Option<nat> {
    if '0' <= c && c as int - 48 < radix {
        Some((c as int - 48) as nat)
    } else {
        None
    }
}

/// The number that a string of digits shows, if it holds digits only.
pub open spec fn digits_value(s: Seq<char>, radix: nat) -> Option<nat>
    decreases s.len(),
{
    if s.len() == 0 {
        Some(0nat)
    } else {
        match (digits_value(s.drop_last(), radix), digit_value(s.last(), radix)) {
            (Some(v), Some(d)) => Some(v * radix + d),
            _ => None,
        }
    }
}

/// The digits of a number's text: what follows an optional plus sign.
pub open spec fn number_digits(s: Seq<char>) -> Seq<char> {
    if s.len() > 0 && s[0] == '+' {
        s.skip(1)
    } else {
        s
    }
}

/// The 32-bit number that a text shows: an optional plus sign, then one digit or more.
pub open spec fn number_value(s: Seq<char>, radix: nat) -> Option<u32> {
    let digits = number_digits(s);
    match digits_value(digits, radix) {
        Some(v) => if digits.len() > 0 && v <= u32::MAX {
            Some(v as u32)
        } else {
            None
        },
        None => None,
    }
}

/// A digit as text.
fn digit_text(d: u64) -> (s: &'static str)
    requires
        d < 10,
    ensures
        s@ == seq![digit_char(d as nat)],
{
    proof {
        reveal_strlit("0");
        reveal_strlit("1");
        reveal_strlit("2");
        reveal_strlit("3");
        reveal_strlit("4");
        reveal_strlit("5");
        reveal_strlit("6");
        reveal_strlit("7");
        reveal_strlit("8");
        reveal_strlit("9");
    }
    let s = match d {
        0 => "0",
        1 => "1",
        2 => "2",
        3 => "3",
        4 => "4",
        5 => "5",
        6 => "6",
        7 => "7",
        8 => "8",
        _ => "9",
    };
    assert(s@ =~= seq![digit_char(d as nat)]);
    s
}

/// A number as decimal text.
pub fn decimal(n: u64) -> (s: String)
    ensures
        s@ == decimal_text(n as nat),
    decreases n,
{
    if n < 10 {
        digit_text(n).to_owned()
    } else {
        let mut s = decimal(n / 10);
        s.append(digit_text(n % 10));
        assert(s@ =~= decimal_text(n as nat));
        s
    }
}

/// The code point of a character.
fn code_of(c: char) -> (code: u32)
    ensures
        code == c as int,
{
    c as u32
}

/// Reads an unsigned number: an optional plus sign, then digits of base `radix`.
pub fn parse_number(s: &str, radix: u32) -> (n: Option<u32>)
    requires
        2 <= radix <= 10,
    ensures
        n == number_value(s@, radix as nat),
{
    let chars = chars_of(s);
    let n: usize = chars.len();
    let start: usize = if n > 0 && chars[0] == '+' {
        1
    } else {
        0
    };
    let ghost digits = number_digits(s@);
    assert(digits =~= s@.skip(start as int));
    // One past the largest number stands for every number that is too large.
    let limit: u64 = 0x1_0000_0000;
    let mut value: u64 = 0;
    let mut i: usize = start;
    while i < n
        invariant
            2 <= radix <= 10,
            limit == 0x1_0000_0000,
            chars@ == s@,
            n == chars@.len(),
            start <= i <= n,
            digits == s@.skip(start as int),
            digits == number_digits(s@),
            digits_value(digits.take(i - start), radix as nat) matches Some(v) && value == (if v
                < limit {
                v as int
            } else {
                limit as int
            }),
        decreases n - i,
    {
        let c = chars[i];
        let ghost before = digits.take(i - start);
        let ghost upto = digits.take(i + 1 - start);
        assert(upto.drop_last() =~= before);
        assert(upto.last() == c);
        let code: u32 = code_of(c);
        if code < 48 || code - 48 >= radix {
            proof {
                digits_value_prefix(digits, i + 1 - start, radix as nat);
            }
            return None;
        }
        let d: u64 = (code - 48) as u64;
        let ghost v = digits_value(before, radix as nat).unwrap();
        assert(value * radix <= 0x1_0000_0000 * 10) by (nonlinear_arith)
            requires
                value <= 0x1_0000_0000,
                radix <= 10,
        ;
        let next: u64 = value * (radix as u64) + d;
        assert(digit_value(c, radix as nat) == Some(d as nat));
        assert(digits_value(upto, radix as nat) == Some(v * (radix as nat) + d as nat));
        proof {
            if v >= limit {
                assert(v * radix >= v) by (nonlinear_arith)
                    requires
                        v >= 0,
                        radix >= 2,
                ;
                assert(value * radix >= value) by (nonlinear_arith)
                    requires
                        value >= 0,
                        radix >= 2,
                ;
            }
        }
        value = if next < limit {
            next
        } else {
            limit
        };
        i = i + 1;
    }
    assert(digits.take(n - start) =~= digits);
    if n == start || value >= limit {
        None
    } else {
        Some(value as u32)
    }
}

/// A text shows no number unless each of its prefixes does.
proof fn digits_value_prefix(s: Seq<char>, k: int, radix: nat)
    requires
        0 <= k <= s.len(),
        digits_value(s.take(k), radix) is None,
    ensures
        digits_value(s, radix) is None,
    decreases s.len() - k,
{
    if k == s.len() {
        assert(s.take(k) =~= s);
    } else {
        assert(s.take(k + 1).drop_last() =~= s.take(k));
        digits_value_prefix(s, k + 1, radix);
    }
}

/// Puts two texts together.
pub fn join(a: &str, b: &str) -> (s: String)
    ensures
        s@ == a@ + b@,
{
    let mut s = a.to_owned();
    s.append(b);
    s
}

/// A copy of a list of strings.
pub fn clone_texts(list: &Vec<String>) -> (out: Vec<String>)
    ensures
        texts(out@) == texts(list@),
{
    clone_texts_from(list, 0)
}

/// A copy of a list of strings from position `from` on.
pub fn clone_texts_from(list: &Vec<String>, from: usize) -> (out: Vec<String>)
    requires
        from <= list@.len(),
    ensures
        texts(out@) == texts(list@).skip(from as int),
{
    let mut out: Vec<String> = Vec::new();
    let mut i: usize = from;
    while i < list.len()
        invariant
            from <= i <= list@.len(),
            texts(out@) == texts(list@).subrange(from as int, i as int),
        decreases list@.len() - i,
    {
        let ghost before = out@;
        let item = list[i].clone();
        out.push(item);
        i = i + 1;
        assert(texts(out@) =~= texts(before).push(item@));
        assert(texts(list@).subrange(from as int, i as int) =~= texts(list@).subrange(
            from as int,
            i - 1,
        ).push(texts(list@)[i - 1]));
    }
    assert(texts(out@) =~= texts(list@).skip(from as int));
    out
}

/// A text is cut into what stands before the first `c` and what stands behind it; it is not
/// cut exactly if there is no `c` in it.
pub proof fn cut_means(s: Seq<char>, c: char, before: Seq<char>, after: Seq<char>)
    ensures
        cut(s, c) == Some((before, after)) <==> s == before + seq![c] + after && !before.contains(
            c,
        ),
        cut(s, c) is None <==> !s.contains(c),
{
    find_char_is_first(s, c);
    let k = find_char(s, c);
    if s == before + seq![c] + after && !before.contains(c) {
        assert forall|i: int| 0 <= i < before.len() implies s[i] != c by {
            assert(before[i] == s[i]);
        }
        assert(s[before.len() as int] == c);
        find_char_unique(s, c, before.len() as int);
        assert(s.take(k) =~= before);
        assert(s.skip(k + 1) =~= after);
    }
    if k < s.len() {
        assert(s =~= s.take(k) + seq![c] + s.skip(k + 1));
        assert(s.contains(c)) by {
            assert(s[k] == c);
        }
        assert(!s.take(k).contains(c)) by {
            assert forall|i: int| 0 <= i < k implies s.take(k)[i] != c by {}
        }
    }
}

/// A string of digits shows what its digits add up to: no digits show nothing, and one more
/// digit multiplies the number by the base and adds the digit. What is no digit makes the
/// whole no number.
pub proof fn digits_mean(s: Seq<char>, c: char, radix: nat)
    requires
        2 <= radix <= 10,
    ensures
        digits_value(Seq::empty(), radix) == Some(0nat),
        digits_value(s, radix) is Some && '0' <= c && (c as int) < 48 + radix ==> digits_value(
            s.push(c),
            radix,
        ) == Some((digits_value(s, radix).unwrap() * radix + (c as int - 48)) as nat),
        digits_value(s, radix) is None || c < '0' || (c as int) >= 48 + radix ==> digits_value(
            s.push(c),
            radix,
        ) is None,
{
    assert(s.push(c).drop_last() =~= s);
    if digits_value(s, radix) is Some && '0' <= c && (c as int) < 48 + radix {
        let v = digits_value(s, radix).unwrap();
        assert(v * radix >= 0) by (nonlinear_arith)
            requires
                v >= 0,
                radix >= 0,
        ;
    }
}

/// A number is read from its digits, with or without one plus sign in front, as long as it
/// fits into 32 bits.
pub proof fn numbers_mean(digits: Seq<char>, radix: nat)
    requires
        2 <= radix <= 10,
        digits.len() > 0,
        digits[0] != '+',
    ensures
        number_value(digits, radix) == match digits_value(digits, radix) {
            Some(v) => if v <= 0xffff_ffff {
                Some(v as u32)
            } else {
                None
            },
            None => None,
        },
        number_value(seq!['+'] + digits, radix) == number_value(digits, radix),
        number_value(Seq::empty(), radix) is None,
        number_value(seq!['+'], radix) is None,
        number_value(seq!['+'] + (seq!['+'] + digits), radix) is None,
{
    assert((seq!['+'] + digits).skip(1) =~= digits);
    assert(seq!['+'].skip(1) =~= Seq::empty());
    let twice = seq!['+'] + (seq!['+'] + digits);
    assert(twice.skip(1) =~= seq!['+'] + digits);
    no_digits_behind(seq!['+'], digits, radix);
}

/// What is no number stays none, whatever follows.
proof fn no_digits_behind(head: Seq<char>, tail: Seq<char>, radix: nat)
    requires
        head == seq!['+'],
        2 <= radix <= 10,
    ensures
        digits_value(head + tail, radix) is None,
    decreases tail.len(),
{
    if tail.len() == 0 {
        assert(head + tail =~= Seq::<char>::empty().push('+'));
        digits_mean(Seq::empty(), '+', radix);
    } else {
        no_digits_behind(head, tail.drop_last(), radix);
        assert(head + tail =~= (head + tail.drop_last()).push(tail.last()));
        digits_mean(head + tail.drop_last(), tail.last(), radix);
    }
}

/// The decimal text of a number reads back as the number.
pub proof fn decimal_reads_back(n: nat)
    ensures
        digits_value(decimal_text(n), 10) == Some(n),
        decimal_text(n).len() > 0,
        decimal_text(n)[0] == '0' ==> n == 0,
    decreases n,
{
    if n < 10 {
        digits_mean(Seq::empty(), digit_char(n), 10);
        assert(decimal_text(n) =~= Seq::<char>::empty().push(digit_char(n)));
    } else {
        decimal_reads_back(n / 10);
        digits_mean(decimal_text(n / 10), digit_char(n % 10), 10);
    }
}

/// A number that is written out is read as it was, if it fits into 32 bits.
pub proof fn written_numbers_are_read(n: u64, written: String, s: &str, read: Option<u32>)
    requires
        n <= 0xffff_ffff,
        call_ensures(decimal, (n,), written),
        s@ == written@,
        call_ensures(parse_number, (s, 10u32), read),
    ensures
        read matches Some(m) && m == n,
{
    decimal_reads_back(n as nat);
    if decimal_text(n as nat)[0] == '+' {
        let rest = decimal_text(n as nat).skip(1);
        assert(decimal_text(n as nat) =~= seq!['+'] + rest);
        no_digits_behind(seq!['+'], rest, 10);
    }
}

/// Texts are the same exactly if their characters are; joined texts stand one behind the
/// other, and lists of texts are copied as they are.
pub proof fn texts_mean(
    a: &str,
    b: &str,
    same: bool,
    both: String,
    list: Vec<String>,
    copy: Vec<String>,
)
    requires
        call_ensures(same_text, (a, b), same),
        call_ensures(join, (a, b), both),
        call_ensures(clone_texts, (&list,), copy),
    ensures
        same <==> a@ == b@,
        both@ == a@ + b@,
        copy@.len() == list@.len(),
        forall|i: int| 0 <= i < list@.len() ==> (#[trigger] copy@[i])@ == list@[i]@,
{
    assert(texts(copy@).len() == copy@.len());
    assert(texts(list@).len() == list@.len());
    assert forall|i: int| 0 <= i < list@.len() implies (#[trigger] copy@[i])@ == list@[i]@ by {
        assert(texts(copy@)[i] == copy@[i]@);
        assert(texts(list@)[i] == list@[i]@);
    }
}

/// A list of texts is shown text by text.
pub proof fn lists_of_texts_mean(list: Seq<String>)
    ensures
        texts(list).len() == list.len(),
        forall|i: int| 0 <= i < list.len() ==> #[trigger] texts(list)[i] == list[i]@,
{
}

} // verus!
