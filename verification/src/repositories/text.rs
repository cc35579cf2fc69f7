//! Characters and digits: the textual building blocks of identifiers.

use vstd::prelude::*;

verus! {

/// The value of a hexadecimal digit, either case, or `None` for any other character.
pub open spec fn hex_digit_value(c: char) -> Option<int> {
    if '0' <= c && c <= '9' {
        Some(c as int - '0' as int)
    } else if 'a' <= c && c <= 'f' {
        Some(c as int - 'a' as int + 10)
    } else if 'A' <= c && c <= 'F' {
        Some(c as int - 'A' as int + 10)
    } else {
        None
    }
}

/// The character for a digit below sixteen: `0` to `9`, then `A` to `F`.
pub open spec fn digit_char(d: int) -> char {
    if d < 10 {
        (d + '0' as int) as char
    } else {
        (d - 10 + 'A' as int) as char
    }
}

/// Every character of `s` is a hexadecimal digit.
pub open spec fn is_hex(s: Seq<char>) -> bool {
    forall|i: int| 0 <= i < s.len() ==> (#[trigger] hex_digit_value(s[i])) is Some
}

/// The number that the hexadecimal digits of `s` denote, most significant first.
pub open spec fn hex_value(s: Seq<char>) -> int
    decreases s.len(),
{
    if s.len() == 0 {
        0
    } else {
        16 * hex_value(s.drop_last()) + match hex_digit_value(s.last()) {
            Some(d) => d,
            None => 0,
        }
    }
}

/// `String::push` of std: the character is appended, the rest of the string stays.
pub assume_specification[ String::push ](s: &mut String, ch: char)
    ensures
        final(s)@ == old(s)@.push(ch),
;

/// The characters of a string slice, in order.
pub fn chars_of(s: &str) -> (out: Vec<char>)
    ensures
        out@ == s@,
{
    let mut out: Vec<char> = Vec::new();
    for c in it: s.chars()
        invariant
            out@ == it.seq().take(it.index() as int),
            it.seq() == s@,
    {
        out.push(c);
    }
    out
}

/// Tells whether two string slices hold the same characters.
pub fn same_text(a: &str, b: &str) -> (eq: bool)
    ensures
        eq == (a@ == b@),
{
    let x = chars_of(a);
    let y = chars_of(b);
    if x.len() != y.len() {
        return false;
    }
    let mut i: usize = 0;
    while i < x.len()
        invariant
            i <= x.len(),
            x.len() == y.len(),
            x@ == a@,
            y@ == b@,
            forall|k: int| 0 <= k < i ==> x@[k] == y@[k],
        decreases x.len() - i,
    {
        if x[i] != y[i] {
            return false;
        }
        i = i + 1;
    }
    assert(x@ =~= y@);
    true
}

/// `s` begins with the characters of `prefix`.
pub open spec fn has_prefix(s: Seq<char>, prefix: Seq<char>) -> bool {
    prefix.len() <= s.len() && s.take(prefix.len() as int) == prefix
}

/// What stands behind `prefix` in `s`, where `s` begins with it.
pub fn strip_prefix(s: &str, prefix: &str) -> (r: Option<String>)
    ensures
        match r {
            Some(rest) => has_prefix(s@, prefix@) && rest@ == s@.skip(prefix@.len() as int),
            None => !has_prefix(s@, prefix@),
        },
{
    let x = chars_of(s);
    let y = chars_of(prefix);
    let n = y.len();
    if x.len() < n {
        return None;
    }
    let mut i: usize = 0;
    while i < n
        invariant
            i <= n,
            n == y.len(),
            n <= x.len(),
            x@ == s@,
            y@ == prefix@,
            forall|k: int| 0 <= k < i ==> x@[k] == y@[k],
        decreases n - i,
    {
        if x[i] != y[i] {
            proof {
                assert(s@.take(n as int)[i as int] == x@[i as int]);
            }
            return None;
        }
        i = i + 1;
    }
    assert(s@.take(n as int) =~= prefix@);
    let mut rest = String::new();
    let mut j: usize = n;
    while j < x.len()
        invariant
            n <= j <= x.len(),
            x@ == s@,
            rest@ == s@.subrange(n as int, j as int),
        decreases x.len() - j,
    {
        rest.push(x[j]);
        assert(s@.subrange(n as int, j as int).push(x@[j as int]) =~= s@.subrange(
            n as int,
            j + 1,
        ));
        j = j + 1;
    }
    assert(s@.subrange(n as int, s@.len() as int) =~= s@.skip(n as int));
    Some(rest)
}

/// The digits of a prefix never denote more than the digits of the whole.
pub proof fn lemma_hex_value_prefix(s: Seq<char>, n: int)
    requires
        0 <= n <= s.len(),
    ensures
        0 <= hex_value(s.take(n)) <= hex_value(s),
    decreases s.len(),
{
    if n == s.len() {
        assert(s.take(n) == s);
        lemma_hex_value_nonneg(s);
    } else {
        lemma_hex_value_prefix(s.drop_last(), n);
        assert(s.drop_last().take(n) == s.take(n));
    }
}

/// No sequence of digits denotes a negative number.
pub proof fn lemma_hex_value_nonneg(s: Seq<char>)
    ensures
        0 <= hex_value(s),
    decreases s.len(),
{
    if s.len() > 0 {
        lemma_hex_value_nonneg(s.drop_last());
    }
}

/// Reads one hexadecimal digit, upper or lower case.
pub fn hex_digit(c: char) -> (r: Option<u8>)
    ensures
        match r {
            Some(d) => hex_digit_value(c) == Some(d as int) && d < 16,
            None => hex_digit_value(c) is None,
        },
{
    let v: u32 = c as u32;
    if '0' <= c && c <= '9' {
        Some((v - '0' as u32) as u8)
    } else if 'a' <= c && c <= 'f' {
        Some((v - 'a' as u32 + 10) as u8)
    } else if 'A' <= c && c <= 'F' {
        Some((v - 'A' as u32 + 10) as u8)
    } else {
        None
    }
}

/// What a field of hexadecimal digits denotes: `Some` of its value where it is
/// not empty, holds nothing but hexadecimal digits and does not exceed `max`.
pub open spec fn hex_field(s: Seq<char>, max: int) -> Option<int> {
    if s.len() > 0 && is_hex(s) && hex_value(s) <= max {
        Some(hex_value(s))
    } else {
        None
    }
}

/// Parses the characters `chars[from..to]` as a hexadecimal number of at most `max`.
pub fn parse_hex(chars: &Vec<char>, from: usize, to: usize, max: u64) -> (r: Option<u64>)
    requires
        from <= to <= chars.len(),
        max <= 0xFFFF_FFFF,
    ensures
        match r {
            Some(v) => hex_field(chars@.subrange(from as int, to as int), max as int) == Some(
                v as int,
            ),
            None => hex_field(chars@.subrange(from as int, to as int), max as int) is None,
        },
{
    let ghost field = chars@.subrange(from as int, to as int);
    if from == to {
        return None;
    }
    let mut acc: u64 = 0;
    let mut i: usize = from;
    while i < to
        invariant
            from <= i <= to <= chars.len(),
            max <= 0xFFFF_FFFF,
            field == chars@.subrange(from as int, to as int),
            is_hex(field.take(i - from)),
            acc == hex_value(field.take(i - from)),
            acc <= max,
        decreases to - i,
    {
        let ghost before = field.take(i - from);
        let ghost after = field.take(i - from + 1);
        proof {
            assert(after.drop_last() == before);
            assert(after.last() == chars@[i as int]);
        }
        match hex_digit(chars[i]) {
            None => {
                proof {
                    assert(field[i - from] == chars@[i as int]);
                    assert(hex_digit_value(field[i - from]) is None);
                }
                return None;
            },
            Some(d) => {
                let next: u64 = acc * 16 + d as u64;
                proof {
                    assert(next == hex_value(after));
                    assert forall|k: int| 0 <= k < after.len() implies (#[trigger] hex_digit_value(
                        after[k],
                    )) is Some by {
                        if k < before.len() {
                            assert(after[k] == before[k]);
                        }
                    }
                }
                if next > max {
                    proof {
                        lemma_hex_value_prefix(field, i - from + 1);
                    }
                    return None;
                }
                acc = next;
            },
        }
        i = i + 1;
    }
    proof {
        assert(field.take(to - from) == field);
    }
    Some(acc)
}

/// Sixteen to the power `w`.
pub open spec fn pow16(w: nat) -> int
    decreases w,
{
    if w == 0 {
        1
    } else {
        16 * pow16((w - 1) as nat)
    }
}

/// The `w` least significant hexadecimal digits of `v`, upper case, most
/// significant first, padded with zeros.
pub open spec fn hex_fixed(v: int, w: nat) -> Seq<char>
    decreases w,
{
    if w == 0 {
        Seq::empty()
    } else {
        hex_fixed(v / 16, (w - 1) as nat).push(digit_char(v % 16))
    }
}

/// `c` is a digit as `hex_fixed` writes it: `0` to `9` or `A` to `F`.
pub open spec fn is_upper_hex_digit(c: char) -> bool {
    ('0' <= c && c <= '9') || ('A' <= c && c <= 'F')
}

/// Every character of `s` is an upper-case hexadecimal digit.
pub open spec fn is_upper_hex(s: Seq<char>) -> bool {
    forall|i: int| 0 <= i < s.len() ==> is_upper_hex_digit(#[trigger] s[i])
}

/// The letter in upper case where `c` is a lower-case letter, else `c`.
pub open spec fn to_upper(c: char) -> char {
    if 'a' <= c && c <= 'z' {
        (c as int - 32) as char
    } else {
        c
    }
}

/// The text with every lower-case letter in upper case.
pub open spec fn upper_text(s: Seq<char>) -> Seq<char> {
    Seq::new(s.len(), |i: int| to_upper(s[i]))
}

/// The case of its letters changes nothing in what a run of hexadecimal
/// digits denotes, nor in whether it is one.
pub proof fn lemma_hex_ignores_case(s: Seq<char>)
    ensures
        is_hex(upper_text(s)) == is_hex(s),
        hex_value(upper_text(s)) == hex_value(s),
    decreases s.len(),
{
    let u = upper_text(s);
    assert forall|i: int| 0 <= i < s.len() implies hex_digit_value(u[i]) == hex_digit_value(
        s[i],
    ) by {}
    if is_hex(s) {
        assert forall|i: int| 0 <= i < u.len() implies (#[trigger] hex_digit_value(u[i])) is Some by {
            assert(hex_digit_value(s[i]) is Some);
        }
    }
    if is_hex(u) {
        assert forall|i: int| 0 <= i < s.len() implies (#[trigger] hex_digit_value(s[i])) is Some by {
            assert(hex_digit_value(u[i]) is Some);
        }
    }
    if s.len() > 0 {
        lemma_hex_ignores_case(s.drop_last());
        assert(u.drop_last() == upper_text(s.drop_last()));
        assert(hex_digit_value(u.last()) == hex_digit_value(s.last()));
    }
}

/// Upper-case hexadecimal digits are hexadecimal digits.
pub proof fn lemma_upper_hex_is_hex(s: Seq<char>)
    requires
        is_upper_hex(s),
    ensures
        is_hex(s),
{
    assert forall|i: int| 0 <= i < s.len() implies (#[trigger] hex_digit_value(s[i])) is Some by {
        assert(is_upper_hex_digit(s[i]));
    }
}

/// A fixed-width rendering has the width asked for and holds upper-case digits only.
pub proof fn lemma_hex_fixed_shape(v: int, w: nat)
    requires
        0 <= v,
    ensures
        hex_fixed(v, w).len() == w,
        is_upper_hex(hex_fixed(v, w)),
        is_hex(hex_fixed(v, w)),
    decreases w,
{
    if w > 0 {
        lemma_hex_fixed_shape(v / 16, (w - 1) as nat);
        let head = hex_fixed(v / 16, (w - 1) as nat);
        let all = hex_fixed(v, w);
        assert forall|i: int| 0 <= i < all.len() implies is_upper_hex_digit(#[trigger] all[i]) by {
            if i < head.len() {
                assert(all[i] == head[i]);
            }
        }
        assert forall|i: int| 0 <= i < all.len() implies (#[trigger] hex_digit_value(
            all[i],
        )) is Some by {
            assert(is_upper_hex_digit(all[i]));
        }
    }
}

/// Reading back a fixed-width rendering gives the number, where it fits the width.
pub proof fn lemma_hex_value_of_fixed(v: int, w: nat)
    requires
        0 <= v < pow16(w),
    ensures
        hex_value(hex_fixed(v, w)) == v,
    decreases w,
{
    if w > 0 {
        lemma_hex_value_of_fixed(v / 16, (w - 1) as nat);
        let all = hex_fixed(v, w);
        assert(all.drop_last() == hex_fixed(v / 16, (w - 1) as nat));
        assert(all.last() == digit_char(v % 16));
        assert(hex_digit_value(digit_char(v % 16)) == Some(v % 16));
    }
}

/// Upper-case digits denote a number below sixteen to the power of their count,
/// and rendering that number at the same width gives the digits back.
pub proof fn lemma_fixed_of_hex_value(s: Seq<char>)
    requires
        is_upper_hex(s),
    ensures
        0 <= hex_value(s) < pow16(s.len()),
        hex_fixed(hex_value(s), s.len()) == s,
    decreases s.len(),
{
    if s.len() > 0 {
        let head = s.drop_last();
        assert forall|i: int| 0 <= i < head.len() implies is_upper_hex_digit(
            #[trigger] head[i],
        ) by {
            assert(head[i] == s[i]);
        }
        lemma_fixed_of_hex_value(head);
        assert(is_upper_hex_digit(s.last()));
        let d = hex_digit_value(s.last())->0;
        assert(0 <= d < 16);
        assert(digit_char(d) == s.last());
        let v = hex_value(s);
        assert(v == 16 * hex_value(head) + d);
        assert(v / 16 == hex_value(head));
        assert(v % 16 == d);
        assert(hex_fixed(v, s.len()) == hex_fixed(v / 16, (s.len() - 1) as nat).push(
            digit_char(v % 16),
        ));
        assert(head.push(s.last()) == s);
    } else {
        assert(hex_fixed(0, 0) == s);
    }
}

/// The character for the digit `d`: `0` to `9`, then `A` to `F`.
pub fn digit_to_char(d: u8) -> (c: char)
    requires
        d < 16,
    ensures
        c == digit_char(d as int),
{
    if d < 10 {
        (d + 48) as char
    } else {
        (d + 55) as char
    }
}

/// Appends to `out` the `width` least significant hexadecimal digits of `v`.
pub fn push_hex(out: &mut String, v: u64, width: u8)
    ensures
        final(out)@ == old(out)@ + hex_fixed(v as int, width as nat),
    decreases width,
{
    if width > 0 {
        push_hex(out, v / 16, width - 1);
        out.push(digit_to_char((v % 16) as u8));
    }
}

/// The value of a decimal digit, or `None` for any other character.
pub open spec fn dec_digit_value(c: char) -> Option<int> {
    if '0' <= c && c <= '9' {
        Some(c as int - '0' as int)
    } else {
        None
    }
}

/// Every character of `s` is a decimal digit.
pub open spec fn is_dec(s: Seq<char>) -> bool {
    forall|i: int| 0 <= i < s.len() ==> (#[trigger] dec_digit_value(s[i])) is Some
}

/// The number that the decimal digits of `s` denote, most significant first.
pub open spec fn dec_value(s: Seq<char>) -> int
    decreases s.len(),
{
    if s.len() == 0 {
        0
    } else {
        10 * dec_value(s.drop_last()) + match dec_digit_value(s.last()) {
            Some(d) => d,
            None => 0,
        }
    }
}

/// What a run of decimal digits denotes: `Some` of its value where it is not
/// empty, holds nothing but decimal digits and does not exceed `max`.
pub open spec fn dec_field(s: Seq<char>, max: int) -> Option<int> {
    if s.len() > 0 && is_dec(s) && dec_value(s) <= max {
        Some(dec_value(s))
    } else {
        None
    }
}

/// What a decimal numeral denotes: an optional `+`, then a run of digits of
/// at most `max`.
pub open spec fn dec_numeral(s: Seq<char>, max: int) -> Option<int> {
    if s.len() > 0 && s[0] == '+' {
        dec_field(s.drop_first(), max)
    } else {
        dec_field(s, max)
    }
}

/// The shortest decimal rendering of `v`.
pub open spec fn dec_digits(v: int) -> Seq<char>
    decreases v,
{
    if v < 10 {
        seq![digit_char(v)]
    } else {
        dec_digits(v / 10).push(digit_char(v % 10))
    }
}

/// No run of decimal digits denotes a negative number.
pub proof fn lemma_dec_value_nonneg(s: Seq<char>)
    ensures
        0 <= dec_value(s),
    decreases s.len(),
{
    if s.len() > 0 {
        lemma_dec_value_nonneg(s.drop_last());
    }
}

/// What a decimal numeral denotes lies between zero and the bound given.
pub proof fn lemma_dec_numeral_range(s: Seq<char>, max: int)
    ensures
        dec_numeral(s, max) matches Some(n) ==> 0 <= n <= max,
{
    lemma_dec_value_nonneg(s);
    if s.len() > 0 {
        lemma_dec_value_nonneg(s.drop_first());
    }
}

/// The digits of a prefix never denote more than the digits of the whole.
pub proof fn lemma_dec_value_prefix(s: Seq<char>, n: int)
    requires
        0 <= n <= s.len(),
    ensures
        0 <= dec_value(s.take(n)) <= dec_value(s),
    decreases s.len(),
{
    if n == s.len() {
        assert(s.take(n) == s);
        lemma_dec_value_nonneg(s);
    } else {
        lemma_dec_value_prefix(s.drop_last(), n);
        assert(s.drop_last().take(n) == s.take(n));
    }
}

/// A decimal rendering is a non-empty run of digits, does not start with a
/// sign, and denotes the number it was made from: reading it back gives the
/// number, under every bound that the number meets.
pub proof fn lemma_dec_digits(v: int)
    requires
        0 <= v,
    ensures
        dec_digits(v).len() > 0,
        is_dec(dec_digits(v)),
        dec_digits(v)[0] != '+',
        dec_value(dec_digits(v)) == v,
        forall|max: int| v <= max ==> #[trigger] dec_numeral(dec_digits(v), max) == Some(v),
    decreases v,
{
    let all = dec_digits(v);
    if v < 10 {
        assert(all.drop_last() == Seq::<char>::empty());
        assert(dec_value(all.drop_last()) == 0);
        assert(dec_digit_value(all.last()) == Some(v));
        assert(dec_digit_value(all[0]) is Some);
    } else {
        lemma_dec_digits(v / 10);
        let head = dec_digits(v / 10);
        assert(all.drop_last() == head);
        assert(all.last() == digit_char(v % 10));
        assert(dec_digit_value(all.last()) == Some(v % 10));
        assert(all[0] == head[0]);
        assert forall|i: int| 0 <= i < all.len() implies (#[trigger] dec_digit_value(
            all[i],
        )) is Some by {
            if i < head.len() {
                assert(all[i] == head[i]);
            }
        }
    }
}

/// Reads one decimal digit.
pub fn dec_digit(c: char) -> (r: Option<u8>)
    ensures
        match r {
            Some(d) => dec_digit_value(c) == Some(d as int) && d < 10,
            None => dec_digit_value(c) is None,
        },
{
    if '0' <= c && c <= '9' {
        Some((c as u32 - '0' as u32) as u8)
    } else {
        None
    }
}

/// Parses the characters `chars[from..to]` as a run of decimal digits of at most `max`.
pub fn parse_dec(chars: &Vec<char>, from: usize, to: usize, max: u64) -> (r: Option<u64>)
    requires
        from <= to <= chars.len(),
        max <= 0xFFFF_FFFF,
    ensures
        match r {
            Some(v) => dec_field(chars@.subrange(from as int, to as int), max as int) == Some(
                v as int,
            ),
            None => dec_field(chars@.subrange(from as int, to as int), max as int) is None,
        },
{
    let ghost field = chars@.subrange(from as int, to as int);
    if from == to {
        return None;
    }
    let mut acc: u64 = 0;
    let mut i: usize = from;
    while i < to
        invariant
            from <= i <= to <= chars.len(),
            max <= 0xFFFF_FFFF,
            field == chars@.subrange(from as int, to as int),
            is_dec(field.take(i - from)),
            acc == dec_value(field.take(i - from)),
            acc <= max,
        decreases to - i,
    {
        let ghost before = field.take(i - from);
        let ghost after = field.take(i - from + 1);
        proof {
            assert(after.drop_last() == before);
            assert(after.last() == chars@[i as int]);
        }
        match dec_digit(chars[i]) {
            None => {
                proof {
                    assert(field[i - from] == chars@[i as int]);
                    assert(dec_digit_value(field[i - from]) is None);
                }
                return None;
            },
            Some(d) => {
                let next: u64 = acc * 10 + d as u64;
                proof {
                    assert(next == dec_value(after));
                    assert forall|k: int| 0 <= k < after.len() implies (#[trigger] dec_digit_value(
                        after[k],
                    )) is Some by {
                        if k < before.len() {
                            assert(after[k] == before[k]);
                        }
                    }
                }
                if next > max {
                    proof {
                        lemma_dec_value_prefix(field, i - from + 1);
                    }
                    return None;
                }
                acc = next;
            },
        }
        i = i + 1;
    }
    proof {
        assert(field.take(to - from) == field);
    }
    Some(acc)
}

/// Parses a decimal numeral of at most `u32::MAX`: an optional `+`, then digits.
pub fn parse_decimal_u32(s: &str) -> (r: Option<u32>)
    ensures
        match r {
            Some(v) => dec_numeral(s@, u32::MAX as int) == Some(v as int),
            None => dec_numeral(s@, u32::MAX as int) is None,
        },
{
    let chars = chars_of(s);
    let start: usize = if chars.len() > 0 && chars[0] == '+' {
        1
    } else {
        0
    };
    proof {
        if start == 1 {
            assert(chars@.subrange(1, chars.len() as int) == s@.drop_first());
        } else {
            assert(chars@.subrange(0, chars.len() as int) == s@);
        }
    }
    match parse_dec(&chars, start, chars.len(), 0xFFFF_FFFF) {
        Some(v) => Some(v as u32),
        None => None,
    }
}

/// Appends to `out` the shortest decimal rendering of `v`.
pub fn push_decimal(out: &mut String, v: u64)
    ensures
        final(out)@ == old(out)@ + dec_digits(v as int),
    decreases v,
{
    if v < 10 {
        out.push(digit_to_char(v as u8));
    } else {
        push_decimal(out, v / 10);
        out.push(digit_to_char((v % 10) as u8));
    }
}

} // verus!
