//! Text handling over sequences of characters.
use vstd::prelude::*;

verus! {

broadcast use vstd::string::group_string_axioms;

/// `String::push` appends one character.
pub assume_specification[ String::push ](s: &mut String, c: char)
    ensures
        final(s)@ == old(s)@.push(c),
;

/// What `str::to_lowercase` makes of a text: its characters mapped by Unicode.
pub uninterp spec fn lowercase_text(s: Seq<char>) -> Seq<char>;

/// `str::to_lowercase`. The result depends on the characters alone.
#[verifier::external_body]
pub(crate) fn lowercase(s: &str) -> (r: String)
    ensures
        r@ == lowercase_text(s@),
{
    s.to_lowercase()
}

/// `std::str::from_utf8` reads bytes as text, where they are well-formed UTF-8.
#[verifier::external_body]
pub(crate) fn from_utf8(bytes: &Vec<u8>) -> (r: Option<String>)
    ensures
        r is Some <==> vstd::utf8::valid_utf8(bytes@),
        r matches Some(s) ==> s@ == vstd::utf8::decode_utf8(bytes@),
{
    std::str::from_utf8(bytes).ok().map(String::from)
}

/// The characters of `s`.
pub fn to_chars(s: &str) -> (v: Vec<char>)
    ensures
        v@ == s@,
{
    let mut v: Vec<char> = Vec::new();
    for c in it: s.chars()
        invariant
            v@ == s@.take(it.index() as int),
            it.seq() == s@,
    {
        v.push(c);
    }
    assert(s@.take(s@.len() as int) == s@);
    v
}

/// The text made of `chars[from..to]`.
pub fn from_chars(chars: &Vec<char>, from: usize, to: usize) -> (s: String)
    requires
        from <= to <= chars@.len(),
    ensures
        s@ == chars@.subrange(from as int, to as int),
{
    let mut s = String::new();
    let mut i: usize = from;
    while i < to
        invariant
            from <= i <= to <= chars@.len(),
            s@ == chars@.subrange(from as int, i as int),
        decreases to - i,
    {
        s.push(chars[i]);
        i += 1;
    }
    s
}

/// Whether two texts hold the same characters.
pub fn same(a: &str, b: &str) -> (r: bool)
    ensures
        r == (a@ == b@),
{
    let x = to_chars(a);
    let y = to_chars(b);
    same_chars(&x, &y)
}

fn same_chars(x: &Vec<char>, y: &Vec<char>) -> (r: bool)
    ensures
        r == (x@ == y@),
{
    if x.len() != y.len() {
        return false;
    }
    let mut i: usize = 0;
    while i < x.len()
        invariant
            i <= x@.len(),
            x@.len() == y@.len(),
            x@.take(i as int) == y@.take(i as int),
        decreases x@.len() - i,
    {
        if x[i] != y[i] {
            return false;
        }
        proof {
            assert(x@.take(i + 1) == x@.take(i as int).push(x@[i as int]));
            assert(y@.take(i + 1) == y@.take(i as int).push(y@[i as int]));
        }
        i += 1;
    }
    proof {
        assert(x@.take(x@.len() as int) == x@);
        assert(y@.take(y@.len() as int) == y@);
    }
    true
}

/// `s` begins with `prefix`.
pub open spec fn begins_with(s: Seq<char>, prefix: Seq<char>) -> bool {
    prefix.len() <= s.len() && s.take(prefix.len() as int) == prefix
}

/// `part` stands in `s` from character `at` on.
pub open spec fn stands_at(s: Seq<char>, part: Seq<char>, at: int) -> bool {
    0 <= at && at + part.len() <= s.len() && s.subrange(at, at + part.len()) == part
}

/// `part` stands somewhere in `s`.
pub open spec fn holds_text(s: Seq<char>, part: Seq<char>) -> bool {
    exists|at: int| #[trigger] stands_at(s, part, at)
}

fn stands_here(s: &Vec<char>, part: &Vec<char>, at: usize) -> (r: bool)
    requires
        at <= s@.len(),
    ensures
        r == stands_at(s@, part@, at as int),
{
    let n = s.len();
    if n - at < part.len() {
        return false;
    }
    let mut i: usize = 0;
    while i < part.len()
        invariant
            i <= part@.len(),
            at + part@.len() <= n == s@.len(),
            s@.subrange(at as int, at + i) == part@.take(i as int),
        decreases part@.len() - i,
    {
        if s[at + i] != part[i] {
            proof {
                assert(s@.subrange(at as int, at + part@.len())[i as int] == s@[at + i]);
            }
            return false;
        }
        proof {
            assert(s@.subrange(at as int, at + i + 1) == s@.subrange(at as int, at + i).push(
                s@[at + i],
            ));
            assert(part@.take(i + 1) == part@.take(i as int).push(part@[i as int]));
        }
        i += 1;
    }
    proof {
        assert(part@.take(part@.len() as int) == part@);
    }
    true
}

/// Whether `s` begins with `prefix`.
pub fn starts_with(s: &str, prefix: &str) -> (r: bool)
    ensures
        r == begins_with(s@, prefix@),
{
    let x = to_chars(s);
    let y = to_chars(prefix);
    proof {
        assert(begins_with(s@, prefix@) == stands_at(s@, prefix@, 0)) by {
            if prefix@.len() <= s@.len() {
                assert(s@.take(prefix@.len() as int) == s@.subrange(0, prefix@.len() as int));
            }
        }
    }
    stands_here(&x, &y, 0)
}

/// Whether `part` stands somewhere in `s`.
pub fn contains(s: &str, part: &str) -> (r: bool)
    ensures
        r == holds_text(s@, part@),
{
    let x = to_chars(s);
    let y = to_chars(part);
    let mut at: usize = 0;
    while at < x.len()
        invariant
            at <= x@.len(),
            x@ == s@,
            y@ == part@,
            forall|k: int| 0 <= k < at ==> !stands_at(s@, part@, k),
        decreases x@.len() - at,
    {
        if stands_here(&x, &y, at) {
            return true;
        }
        at += 1;
    }
    stands_here(&x, &y, at)
}

/// The characters that Unicode counts as white space.
pub open spec fn is_space(c: char) -> bool {
    ||| '\u{9}' <= c <= '\u{d}'
    ||| c == ' '
    ||| c == '\u{85}'
    ||| c == '\u{a0}'
    ||| c == '\u{1680}'
    ||| '\u{2000}' <= c <= '\u{200a}'
    ||| c == '\u{2028}'
    ||| c == '\u{2029}'
    ||| c == '\u{202f}'
    ||| c == '\u{205f}'
    ||| c == '\u{3000}'
}

/// Whether `c` is white space.
pub fn is_white_space(c: char) -> (r: bool)
    ensures
        r == is_space(c),
{
    ('\u{9}' <= c && c <= '\u{d}') || c == ' ' || c == '\u{85}' || c == '\u{a0}' || c == '\u{1680}'
        || ('\u{2000}' <= c && c <= '\u{200a}') || c == '\u{2028}' || c == '\u{2029}' || c
        == '\u{202f}' || c == '\u{205f}' || c == '\u{3000}'
}

/// `s` without the white space at its beginning.
pub open spec fn without_leading_space(s: Seq<char>) -> Seq<char>
    decreases s.len(),
{
    if s.len() > 0 && is_space(s[0]) {
        without_leading_space(s.drop_first())
    } else {
        s
    }
}

/// `s` without the white space at its end.
pub open spec fn without_trailing_space(s: Seq<char>) -> Seq<char>
    decreases s.len(),
{
    if s.len() > 0 && is_space(s.last()) {
        without_trailing_space(s.drop_last())
    } else {
        s
    }
}

/// `s` without the white space around it.
pub open spec fn trimmed(s: Seq<char>) -> Seq<char> {
    without_trailing_space(without_leading_space(s))
}

/// `s` without the white space around it.
pub fn trim(s: &str) -> (r: String)
    ensures
        r@ == trimmed(s@),
{
    let chars = to_chars(s);
    let n = chars.len();
    let r = trim_range(&chars, 0, n);
    assert(s@.subrange(0, n as int) == s@);
    r
}

/// The trimmed text of `chars[from..to]`.
fn trim_range(chars: &Vec<char>, from: usize, to: usize) -> (r: String)
    requires
        from <= to <= chars@.len(),
    ensures
        r@ == trimmed(chars@.subrange(from as int, to as int)),
{
    let ghost whole = chars@.subrange(from as int, to as int);
    let mut a: usize = from;
    while a < to && is_white_space(chars[a])
        invariant
            from <= a <= to <= chars@.len(),
            whole == chars@.subrange(from as int, to as int),
            without_leading_space(whole) == without_leading_space(
                chars@.subrange(a as int, to as int),
            ),
        decreases to - a,
    {
        assert(chars@.subrange(a as int, to as int).drop_first() == chars@.subrange(
            a + 1,
            to as int,
        ));
        a += 1;
    }
    let ghost left = chars@.subrange(a as int, to as int);
    assert(without_leading_space(whole) == left);
    let mut b: usize = to;
    while b > a && is_white_space(chars[b - 1])
        invariant
            from <= a <= b <= to <= chars@.len(),
            without_trailing_space(left) == without_trailing_space(
                chars@.subrange(a as int, b as int),
            ),
        decreases b - a,
    {
        assert(chars@.subrange(a as int, b as int).drop_last() == chars@.subrange(
            a as int,
            b - 1,
        ));
        b -= 1;
    }
    from_chars(chars, a, b)
}

/// How many characters stand before the first white space of `s`.
pub open spec fn word_len(s: Seq<char>) -> nat
    decreases s.len(),
{
    if s.len() == 0 || is_space(s[0]) {
        0
    } else {
        1 + word_len(s.drop_first())
    }
}

pub proof fn lemma_word_len(s: Seq<char>)
    ensures
        word_len(s) <= s.len(),
        s.len() > 0 && !is_space(s[0]) ==> word_len(s) > 0,
    decreases s.len(),
{
    if s.len() > 0 && !is_space(s[0]) {
        lemma_word_len(s.drop_first());
    }
}

/// The runs of characters between white space, in order.
pub open spec fn words_of(s: Seq<char>) -> Seq<Seq<char>>
    decreases s.len(),
{
    if s.len() == 0 {
        Seq::empty()
    } else if is_space(s[0]) {
        words_of(s.drop_first())
    } else {
        proof {
            lemma_word_len(s);
        }
        seq![s.take(word_len(s) as int)] + words_of(s.skip(word_len(s) as int))
    }
}

/// The words of `s`, split at white space.
pub fn words(s: &str) -> (r: Vec<String>)
    ensures
        r.deep_view() == words_of(s@),
{
    let chars = to_chars(s);
    let mut r: Vec<String> = Vec::new();
    let mut i: usize = 0;
    assert(s@.skip(0) == s@);
    assert(r.deep_view() + words_of(s@) == words_of(s@));
    while i < chars.len()
        invariant
            i <= chars@.len(),
            chars@ == s@,
            words_of(s@) == r.deep_view() + words_of(s@.skip(i as int)),
        decreases chars@.len() - i,
    {
        if is_white_space(chars[i]) {
            assert(s@.skip(i as int).drop_first() == s@.skip(i + 1));
            i += 1;
        } else {
            let start = i;
            let ghost rest = s@.skip(i as int);
            assert(rest.skip(0) == rest);
            while i < chars.len() && !is_white_space(chars[i])
                invariant
                    start <= i <= chars@.len(),
                    chars@ == s@,
                    rest == s@.skip(start as int),
                    word_len(rest) == (i - start) + word_len(s@.skip(i as int)),
                decreases chars@.len() - i,
            {
                assert(s@.skip(i as int).drop_first() == s@.skip(i + 1));
                i += 1;
            }
            assert(word_len(rest) == i - start);
            let w = from_chars(&chars, start, i);
            let ghost before = r.deep_view();
            r.push(w);
            proof {
                assert(rest.take(i - start) == chars@.subrange(start as int, i as int));
                assert(rest.skip(i - start) == s@.skip(i as int));
                assert(r.deep_view() == before.push(w@));
                assert(before.push(w@) + words_of(s@.skip(i as int)) == before + (seq![w@]
                    + words_of(s@.skip(i as int))));
            }
        }
    }
    assert(words_of(s@.skip(i as int)) == Seq::<Seq<char>>::empty());
    assert(r.deep_view() + Seq::<Seq<char>>::empty() == r.deep_view());
    r
}

/// How many characters stand before the first line break of `s`.
pub open spec fn line_len(s: Seq<char>) -> nat
    decreases s.len(),
{
    if s.len() == 0 || s[0] == '\n' {
        0
    } else {
        1 + line_len(s.drop_first())
    }
}

pub proof fn lemma_line_len(s: Seq<char>)
    ensures
        line_len(s) <= s.len(),
    decreases s.len(),
{
    if s.len() > 0 && s[0] != '\n' {
        lemma_line_len(s.drop_first());
    }
}

/// The lines of `s`, trimmed, without those that hold nothing but white space.
pub open spec fn filled_lines_of(s: Seq<char>) -> Seq<Seq<char>>
    decreases s.len(),
{
    if s.len() == 0 {
        Seq::empty()
    } else {
        let n = line_len(s);
        let line = trimmed(s.take(n as int));
        let first = if line.len() == 0 {
            Seq::<Seq<char>>::empty()
        } else {
            seq![line]
        };
        if n < s.len() {
            first + filled_lines_of(s.skip(n as int + 1))
        } else {
            first
        }
    }
}

/// The lines of `s`, trimmed, without those that hold nothing but white space.
pub fn filled_lines(s: &str) -> (r: Vec<String>)
    ensures
        r.deep_view() == filled_lines_of(s@),
{
    let chars = to_chars(s);
    let mut r: Vec<String> = Vec::new();
    let mut i: usize = 0;
    assert(s@.skip(0) == s@);
    assert(r.deep_view() + filled_lines_of(s@) == filled_lines_of(s@));
    while i < chars.len()
        invariant
            i <= chars@.len(),
            chars@ == s@,
            filled_lines_of(s@) == r.deep_view() + filled_lines_of(s@.skip(i as int)),
        decreases chars@.len() - i,
    {
        let start = i;
        let ghost rest = s@.skip(start as int);
        assert(rest.skip(0) == rest);
        while i < chars.len() && chars[i] != '\n'
            invariant
                start <= i <= chars@.len(),
                chars@ == s@,
                rest == s@.skip(start as int),
                line_len(rest) == (i - start) + line_len(s@.skip(i as int)),
            decreases chars@.len() - i,
        {
            assert(s@.skip(i as int).drop_first() == s@.skip(i + 1));
            i += 1;
        }
        let line = trim_range(&chars, start, i);
        let ghost before = r.deep_view();
        let ghost first = if line@.len() == 0 {
            Seq::<Seq<char>>::empty()
        } else {
            seq![line@]
        };
        proof {
            assert(rest.take(i - start) == chars@.subrange(start as int, i as int));
            if i < chars@.len() {
                assert(rest.skip(i - start + 1) == s@.skip(i + 1));
                assert(filled_lines_of(rest) == first + filled_lines_of(s@.skip(i + 1)));
            } else {
                assert(filled_lines_of(rest) == first);
            }
        }
        if !line.as_str().is_empty() {
            r.push(line);
            assert(r.deep_view() == before.push(line@));
        }
        proof {
            assert(r.deep_view() == before + first);
            if i < chars@.len() {
                assert(before + (first + filled_lines_of(s@.skip(i + 1))) == (before + first)
                    + filled_lines_of(s@.skip(i + 1)));
            } else {
                assert(filled_lines_of(s@.skip(i as int)) == Seq::<Seq<char>>::empty());
                assert((before + first) + Seq::<Seq<char>>::empty() == before + first);
            }
        }
        if i < chars.len() {
            i += 1;
        }
    }
    assert(filled_lines_of(s@.skip(i as int)) == Seq::<Seq<char>>::empty());
    assert(r.deep_view() + Seq::<Seq<char>>::empty() == r.deep_view());
    r
}

/// The digit `d`, 0 to 15, in lower case.
pub open spec fn digit_char(d: int) -> char {
    if d < 10 {
        ('0' as int + d) as char
    } else {
        ('a' as int + d - 10) as char
    }
}

fn digit(d: u8) -> (c: char)
    requires
        d < 16,
    ensures
        c == digit_char(d as int),
{
    if d < 10 {
        (48 + d) as char
    } else {
        (87 + d) as char
    }
}

/// `n` written in decimal.
pub open spec fn decimal_text(n: nat) -> Seq<char>
    decreases n,
{
    if n < 10 {
        seq![digit_char(n as int)]
    } else {
        decimal_text(n / 10).push(digit_char((n % 10) as int))
    }
}

/// `n` written in decimal.
pub fn decimal(n: u64) -> (s: String)
    ensures
        s@ == decimal_text(n as nat),
    decreases n,
{
    if n < 10 {
        let mut s = String::new();
        s.push(digit(n as u8));
        assert(s@ == seq![digit_char(n as int)]);
        s
    } else {
        let mut s = decimal(n / 10);
        s.push(digit((n % 10) as u8));
        s
    }
}

/// `n` written in decimal, a minus sign before it where it is negative.
pub open spec fn signed_decimal_text(n: int) -> Seq<char> {
    if n < 0 {
        seq!['-'] + decimal_text((-n) as nat)
    } else {
        decimal_text(n as nat)
    }
}

/// `n` written in decimal, a minus sign before it where it is negative.
pub fn signed_decimal(n: i32) -> (s: String)
    ensures
        s@ == signed_decimal_text(n as int),
{
    if n < 0 {
        let mut s = String::new();
        s.push('-');
        let d = decimal((-(n as i64)) as u64);
        s.append(d.as_str());
        assert(seq!['-'] == Seq::<char>::empty().push('-'));
        s
    } else {
        decimal(n as u64)
    }
}

/// `n` copies of the digit zero.
pub open spec fn zeros(n: nat) -> Seq<char> {
    Seq::new(n, |i: int| '0')
}

/// `n` in decimal, with leading zeros up to `width` characters.
pub open spec fn padded_text(n: nat, width: nat) -> Seq<char> {
    let d = decimal_text(n);
    if d.len() < width {
        zeros((width - d.len()) as nat) + d
    } else {
        d
    }
}

/// `n` in decimal, with leading zeros up to `width` characters.
pub fn padded(n: u64, width: usize) -> (s: String)
    ensures
        s@ == padded_text(n as nat, width as nat),
{
    let d = decimal(n);
    let have = to_chars(d.as_str()).len();
    let mut s = String::new();
    let mut i: usize = have;
    while i < width
        invariant
            have <= i,
            i <= width || i == have,
            s@ == zeros((i - have) as nat),
        decreases width - i,
    {
        s.push('0');
        assert(zeros((i + 1 - have) as nat) == zeros((i - have) as nat).push('0'));
        i += 1;
    }
    s.append(d.as_str());
    assert(Seq::<char>::empty() + d@ == d@);
    assert(zeros(0) == Seq::<char>::empty());
    s
}

/// The last `width` digits of `n` in base 16.
pub open spec fn hex_text(n: nat, width: nat) -> Seq<char>
    decreases width,
{
    if width == 0 {
        Seq::empty()
    } else {
        hex_text(n / 16, (width - 1) as nat).push(digit_char((n % 16) as int))
    }
}

/// The last `width` digits of `n` in base 16, in lower case.
pub fn hex(n: u64, width: usize) -> (s: String)
    ensures
        s@ == hex_text(n as nat, width as nat),
    decreases width,
{
    if width == 0 {
        String::new()
    } else {
        let mut s = hex(n / 16, width - 1);
        s.push(digit((n % 16) as u8));
        s
    }
}

/// `c` is one of the ten digits.
pub open spec fn is_digit(c: char) -> bool {
    '0' <= c <= '9'
}

/// The number that a run of digits stands for.
pub open spec fn digits_value(s: Seq<char>) -> nat
    decreases s.len(),
{
    if s.len() == 0 {
        0
    } else {
        digits_value(s.drop_last()) * 10 + (s.last() as nat - '0' as nat) as nat
    }
}

/// Every character is one of the ten digits.
pub open spec fn all_digits(s: Seq<char>) -> bool {
    forall|i: int| 0 <= i < s.len() ==> is_digit(#[trigger] s[i])
}

/// `s` without the plus sign that may stand before a number.
pub open spec fn without_plus(s: Seq<char>) -> Seq<char> {
    if s.len() > 0 && s[0] == '+' {
        s.drop_first()
    } else {
        s
    }
}

/// The number below 2^32 that `s` writes in decimal, a plus sign before it being allowed.
pub open spec fn u32_of_text(s: Seq<char>) -> Option<u32> {
    let d = without_plus(s);
    if d.len() == 0 || !all_digits(d) || digits_value(d) > u32::MAX {
        None
    } else {
        Some(digits_value(d) as u32)
    }
}

proof fn lemma_digits_value_grows(s: Seq<char>, n: int)
    requires
        0 <= n <= s.len(),
        all_digits(s),
    ensures
        digits_value(s.take(n)) <= digits_value(s),
    decreases s.len(),
{
    if n == s.len() {
        assert(s.take(n) == s);
    } else {
        lemma_digits_value_grows(s.drop_last(), n);
        assert(s.drop_last().take(n) == s.take(n));
        assert(is_digit(s[s.len() - 1]));
    }
}

/// The number that `s` writes in decimal, where it writes one below 2^32.
pub fn parse_u32(s: &str) -> (r: Option<u32>)
    ensures
        r == u32_of_text(s@),
{
    let chars = to_chars(s);
    let start: usize = if chars.len() > 0 && chars[0] == '+' {
        1
    } else {
        0
    };
    let ghost d = chars@.skip(start as int);
    proof {
        if start == 1 {
            assert(d == s@.drop_first());
        } else {
            assert(d == s@);
        }
    }
    if start == chars.len() {
        return None;
    }
    let n = chars.len();
    let mut k: usize = start;
    while k < n
        invariant
            start <= k <= n == chars@.len(),
            d == chars@.skip(start as int),
            d == without_plus(s@),
            forall|i: int| 0 <= i < k - start ==> is_digit(#[trigger] d[i]),
        decreases n - k,
    {
        if !('0' <= chars[k] && chars[k] <= '9') {
            assert(!is_digit(d[k - start]));
            return None;
        }
        k += 1;
    }
    let mut value: u64 = 0;
    let mut i: usize = start;
    while i < n
        invariant
            start <= i <= n == chars@.len(),
            d == chars@.skip(start as int),
            d == without_plus(s@),
            d.len() == n - start,
            all_digits(d),
            value == digits_value(d.take(i - start)),
            value <= u32::MAX,
        decreases n - i,
    {
        proof {
            assert(d.take(i + 1 - start).drop_last() == d.take(i - start));
            assert(d.take(i + 1 - start).last() == d[i - start]);
            assert(is_digit(d[i - start]));
        }
        value = value * 10 + (chars[i] as u64 - 48);
        if value > 0xffff_ffff {
            proof {
                lemma_digits_value_grows(d, i + 1 - start);
            }
            return None;
        }
        i += 1;
    }
    assert(d.take(n - start) == d);
    Some(value as u32)
}

/// `s` with every occurrence of `part` replaced, from left to right.
pub open spec fn replaced(s: Seq<char>, part: Seq<char>, with: Seq<char>) -> Seq<char>
    decreases s.len(),
{
    if part.len() == 0 || s.len() < part.len() {
        s
    } else if stands_at(s, part, 0) {
        with + replaced(s.skip(part.len() as int), part, with)
    } else {
        seq![s[0]] + replaced(s.drop_first(), part, with)
    }
}

/// `s` with every occurrence of `part`, which is not empty, replaced, from left to right.
pub fn replace(s: &str, part: &str, with: &str) -> (r: String)
    requires
        part@.len() > 0,
    ensures
        r@ == replaced(s@, part@, with@),
{
    let x = to_chars(s);
    let y = to_chars(part);
    let m = y.len();
    let n = x.len();
    let mut r = String::new();
    let mut i: usize = 0;
    assert(s@.skip(0) == s@);
    assert(Seq::<char>::empty() + replaced(s@, part@, with@) == replaced(s@, part@, with@));
    while i < n
        invariant
            i <= n == x@.len(),
            m == y@.len(),
            m > 0,
            x@ == s@,
            y@ == part@,
            replaced(s@, part@, with@) == r@ + replaced(s@.skip(i as int), part@, with@),
        decreases n - i,
    {
        let ghost rest = s@.skip(i as int);
        let ghost before = r@;
        let here = stands_here(&x, &y, i);
        proof {
            if m <= n - i {
                assert(rest.subrange(0, m as int) == s@.subrange(i as int, i + m));
            }
            assert(here == stands_at(rest, part@, 0));
        }
        if here {
            r.append(with);
            proof {
                assert(rest.skip(m as int) == s@.skip(i + m));
                assert(before + (with@ + replaced(s@.skip(i + m), part@, with@)) == (before + with@)
                    + replaced(s@.skip(i + m), part@, with@));
            }
            i += m;
        } else {
            r.push(x[i]);
            proof {
                assert(rest.drop_first() == s@.skip(i + 1));
                if m <= n - i {
                    assert(before + (seq![rest[0]] + replaced(s@.skip(i + 1), part@, with@))
                        == before.push(rest[0]) + replaced(s@.skip(i + 1), part@, with@));
                } else {
                    assert(replaced(s@.skip(i + 1), part@, with@) == s@.skip(i + 1));
                    assert(rest == seq![rest[0]] + s@.skip(i + 1));
                    assert(before + rest == before.push(rest[0]) + s@.skip(i + 1));
                }
            }
            i += 1;
        }
    }
    assert(s@.skip(n as int) == Seq::<char>::empty());
    assert(r@ + Seq::<char>::empty() == r@);
    r
}

/// The texts one after the other, with `sep` between them.
pub open spec fn joined(parts: Seq<Seq<char>>, sep: Seq<char>) -> Seq<char>
    decreases parts.len(),
{
    if parts.len() == 0 {
        Seq::empty()
    } else if parts.len() == 1 {
        parts[0]
    } else {
        joined(parts.drop_last(), sep) + sep + parts.last()
    }
}

/// The texts one after the other, with `sep` between them.
pub fn join(parts: &Vec<String>, sep: &str) -> (r: String)
    ensures
        r@ == joined(parts.deep_view(), sep@),
{
    let mut r = String::new();
    let mut i: usize = 0;
    while i < parts.len()
        invariant
            i <= parts@.len(),
            r@ == joined(parts.deep_view().take(i as int), sep@),
        decreases parts@.len() - i,
    {
        let ghost upto = parts.deep_view().take(i + 1);
        assert(upto.drop_last() == parts.deep_view().take(i as int));
        assert(upto.last() == parts@[i as int]@);
        if i > 0 {
            r.append(sep);
        }
        r.append(parts[i].as_str());
        assert(i == 0 ==> r@ == upto[0]);
        i += 1;
    }
    assert(parts.deep_view().take(i as int) == parts.deep_view());
    r
}

/// `a` does not come after `b` in the order of their characters.
pub open spec fn in_order(a: Seq<char>, b: Seq<char>) -> bool
    decreases a.len(),
{
    if a.len() == 0 {
        true
    } else if b.len() == 0 {
        false
    } else if a[0] != b[0] {
        a[0] < b[0]
    } else {
        in_order(a.drop_first(), b.drop_first())
    }
}

/// Of two texts one does not come after the other, and if both do not, they are one.
pub proof fn lemma_order_is_total(a: Seq<char>, b: Seq<char>)
    ensures
        in_order(a, b) || in_order(b, a),
        in_order(a, b) && in_order(b, a) ==> a == b,
    decreases a.len(),
{
    if a.len() > 0 && b.len() > 0 && a[0] == b[0] {
        lemma_order_is_total(a.drop_first(), b.drop_first());
        if in_order(a, b) && in_order(b, a) {
            assert(a == seq![a[0]] + a.drop_first());
            assert(b == seq![b[0]] + b.drop_first());
        }
    }
}

/// The order of texts is transitive.
pub proof fn lemma_order_is_transitive(a: Seq<char>, b: Seq<char>, c: Seq<char>)
    requires
        in_order(a, b),
        in_order(b, c),
    ensures
        in_order(a, c),
    decreases a.len(),
{
    if a.len() > 0 && b.len() > 0 && c.len() > 0 && a[0] == b[0] && b[0] == c[0] {
        lemma_order_is_transitive(a.drop_first(), b.drop_first(), c.drop_first());
    }
}

/// Whether `a` does not come after `b`.
pub fn is_in_order(a: &str, b: &str) -> (r: bool)
    ensures
        r == in_order(a@, b@),
{
    let x = to_chars(a);
    let y = to_chars(b);
    let mut i: usize = 0;
    assert(x@.skip(0) == x@);
    assert(y@.skip(0) == y@);
    while i < x.len() && i < y.len()
        invariant
            i <= x@.len(),
            i <= y@.len(),
            x@ == a@,
            y@ == b@,
            in_order(x@, y@) == in_order(x@.skip(i as int), y@.skip(i as int)),
        decreases x@.len() - i,
    {
        if x[i] != y[i] {
            return x[i] < y[i];
        }
        assert(x@.skip(i as int).drop_first() == x@.skip(i + 1));
        assert(y@.skip(i as int).drop_first() == y@.skip(i + 1));
        i += 1;
    }
    i >= x.len()
}

/// The texts stand in order.
pub open spec fn sorted(texts: Seq<Seq<char>>) -> bool {
    forall|i: int, j: int| 0 <= i < j < texts.len() ==> #[trigger] in_order(texts[i], texts[j])
}

/// Puts texts in order.
pub fn sort(texts: Vec<String>) -> (r: Vec<String>)
    ensures
        sorted(r.deep_view()),
        r.deep_view().to_multiset() == texts.deep_view().to_multiset(),
{
    let mut r: Vec<String> = Vec::new();
    let mut i: usize = 0;
    assert(r.deep_view() =~= texts.deep_view().take(0));
    while i < texts.len()
        invariant
            i <= texts@.len(),
            sorted(r.deep_view()),
            r.deep_view().to_multiset() == texts.deep_view().take(i as int).to_multiset(),
        decreases texts@.len() - i,
    {
        let mut at: usize = r.len();
        while at > 0 && !is_in_order(r[at - 1].as_str(), texts[i].as_str())
            invariant
                i < texts@.len(),
                at <= r@.len(),
                sorted(r.deep_view()),
                forall|k: int|
                    at <= k < r@.len() ==> #[trigger] in_order(
                        texts.deep_view()[i as int],
                        r.deep_view()[k],
                    ),
            decreases at,
        {
            proof {
                lemma_order_is_total(r.deep_view()[at - 1], texts.deep_view()[i as int]);
            }
            at -= 1;
        }
        let ghost before = r.deep_view();
        let ghost new = texts.deep_view()[i as int];
        let t = texts[i].clone();
        r.insert(at, t);
        proof {
            let after = r.deep_view();
            assert(after =~= before.insert(at as int, new));
            assert forall|j: int, k: int| 0 <= j < k < after.len() implies #[trigger] in_order(
                after[j],
                after[k],
            ) by {
                if j < at && k == at {
                    assert(in_order(before[at - 1], new));
                    if j < at - 1 {
                        assert(in_order(before[j], before[at - 1]));
                        lemma_order_is_transitive(before[j], before[at - 1], new);
                    }
                } else if j < at && k < at {
                    assert(in_order(before[j], before[k]));
                } else if j < at {
                    assert(in_order(before[j], before[k - 1]));
                } else if j == at {
                    assert(in_order(new, before[k - 1]));
                } else {
                    assert(in_order(before[j - 1], before[k - 1]));
                }
            }
            vstd::seq_lib::to_multiset_insert(before, at as int, new);
            assert(texts.deep_view().take(i + 1) == texts.deep_view().take(i as int).push(new));
            broadcast use vstd::seq_lib::group_to_multiset_ensures;

        }
        i += 1;
    }
    assert(texts.deep_view().take(i as int) == texts.deep_view());
    r
}

} // verus!
