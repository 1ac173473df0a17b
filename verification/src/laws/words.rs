//! Texts, numbers in texts, and templates.
use crate::template::{
    below_home, expanded, output_text, ratio_text, ratio_units, rounding_side, scaled,
};
use crate::text::{
    all_digits, begins_with, decimal_text, digit_char, digits_value, filled_lines_of, hex_text,
    holds_text, in_order, is_digit, is_space, joined, line_len, padded_text, replaced,
    signed_decimal_text, stands_at, trimmed, u32_of_text, without_leading_space,
    without_trailing_space, word_len, words_of, zeros,
};
use vstd::prelude::*;

verus! {

/// A number that is written out in decimal is read back as that number. It is written with digits
/// alone, and only zero begins with a zero.
pub proof fn numbers_are_read_back(n: nat)
    ensures
        digits_value(decimal_text(n)) == n,
        all_digits(decimal_text(n)),
        decimal_text(n).len() >= 1,
        n > 0 ==> decimal_text(n)[0] != '0',
        decimal_text(0) == seq!['0'],
        n <= u32::MAX ==> u32_of_text(decimal_text(n)) == Some(n as u32),
    decreases n,
{
    let t = decimal_text(n);
    if n < 10 {
        assert(t.drop_last() =~= Seq::empty());
        assert(digits_value(t.drop_last()) == 0);
        assert(t.last() == digit_char(n as int));
    } else {
        numbers_are_read_back(n / 10);
        let less = decimal_text(n / 10);
        assert(t.drop_last() == less);
        assert(t.last() == digit_char((n % 10) as int));
        assert forall|i: int| 0 <= i < t.len() implies is_digit(#[trigger] t[i]) by {
            if i < less.len() {
                assert(t[i] == less[i]);
            }
        }
        assert(t[0] == less[0]);
    }
    assert(is_digit(t[0]));
}

/// A number below zero is written as its opposite behind a minus.
pub proof fn signs_come_first(n: int)
    ensures
        n >= 0 ==> signed_decimal_text(n) == decimal_text(n as nat),
        n < 0 ==> signed_decimal_text(n).len() >= 2 && signed_decimal_text(n)[0] == '-'
            && digits_value(signed_decimal_text(n).drop_first()) == -n,
{
    if n < 0 {
        numbers_are_read_back((-n) as nat);
        assert(signed_decimal_text(n).drop_first() == decimal_text((-n) as nat));
    }
}

/// Zeros in front do not change a number.
proof fn lemma_zeros_in_front(k: nat, d: Seq<char>)
    ensures
        digits_value(zeros(k) + d) == digits_value(d),
    decreases k + d.len(),
{
    let t = zeros(k) + d;
    if d.len() > 0 {
        assert(t.drop_last() == zeros(k) + d.drop_last());
        lemma_zeros_in_front(k, d.drop_last());
    } else if k > 0 {
        assert(t.drop_last() == zeros((k - 1) as nat) + d);
        lemma_zeros_in_front((k - 1) as nat, d);
    } else {
        assert(t == d);
    }
}

/// A padded number is as wide as asked, or as wide as it has to be, and still the same number.
pub proof fn padding_keeps_the_number(n: nat, width: nat)
    ensures
        digits_value(padded_text(n, width)) == n,
        padded_text(n, width).len() >= width,
        decimal_text(n).len() <= width ==> padded_text(n, width).len() == width,
{
    numbers_are_read_back(n);
    let d = decimal_text(n);
    if d.len() < width {
        lemma_zeros_in_front((width - d.len()) as nat, d);
    }
}

/// A byte is written in hexadecimal with two digits, the higher one first.
pub proof fn bytes_have_two_digits(high: nat, low: nat)
    requires
        high < 16,
        low < 16,
    ensures
        hex_text(16 * high + low, 2) == seq![digit_char(high as int), digit_char(low as int)],
{
    reveal_with_fuel(hex_text, 3);
    assert((16 * high + low) / 16 == high);
    assert((16 * high + low) % 16 == low);
    assert(hex_text(16 * high + low, 2) =~= seq![digit_char(high as int), digit_char(low as int)]);
}

/// The sixteen digits are told apart.
pub proof fn digits_differ(a: int, b: int)
    requires
        0 <= a < b < 16,
    ensures
        digit_char(a) != digit_char(b),
        digit_char(0) == '0',
        digit_char(9) == '9',
        digit_char(10) == 'a',
        digit_char(15) == 'f',
{
}

proof fn lemma_leading(left: Seq<char>, core: Seq<char>)
    requires
        forall|i: int| 0 <= i < left.len() ==> is_space(#[trigger] left[i]),
        core.len() > 0 ==> !is_space(core[0]),
    ensures
        without_leading_space(left + core) == core,
    decreases left.len(),
{
    let s = left + core;
    if left.len() > 0 {
        assert(s[0] == left[0]);
        assert(s.drop_first() == left.drop_first() + core);
        lemma_leading(left.drop_first(), core);
    } else {
        assert(s == core);
    }
}

proof fn lemma_trailing(core: Seq<char>, right: Seq<char>)
    requires
        forall|i: int| 0 <= i < right.len() ==> is_space(#[trigger] right[i]),
        core.len() > 0 ==> !is_space(core.last()),
    ensures
        without_trailing_space(core + right) == core,
    decreases right.len(),
{
    let s = core + right;
    if right.len() > 0 {
        assert(s.last() == right.last());
        assert(s.drop_last() == core + right.drop_last());
        lemma_trailing(core, right.drop_last());
    } else {
        assert(s == core);
    }
}

/// Trimming takes away the white space at both ends, and nothing else.
pub proof fn trimming_takes_space_away(left: Seq<char>, core: Seq<char>, right: Seq<char>)
    requires
        forall|i: int| 0 <= i < left.len() ==> is_space(#[trigger] left[i]),
        forall|i: int| 0 <= i < right.len() ==> is_space(#[trigger] right[i]),
        core.len() > 0 ==> !is_space(core[0]) && !is_space(core.last()),
    ensures
        trimmed(left + core + right) == core,
{
    if core.len() > 0 {
        assert(left + core + right == left + (core + right));
        lemma_leading(left, core + right);
        lemma_trailing(core, right);
    } else {
        let all = left + core + right;
        assert forall|i: int| 0 <= i < all.len() implies is_space(#[trigger] all[i]) by {
            if i < left.len() {
                assert(all[i] == left[i]);
            } else {
                assert(all[i] == right[i - left.len()]);
            }
        }
        lemma_leading(all, core);
        assert(all + core == all);
        assert(core == Seq::<char>::empty());
    }
}

proof fn lemma_word(w: Seq<char>, rest: Seq<char>)
    requires
        forall|i: int| 0 <= i < w.len() ==> !is_space(#[trigger] w[i]),
        rest.len() > 0 ==> is_space(rest[0]),
    ensures
        word_len(w + rest) == w.len(),
    decreases w.len(),
{
    let s = w + rest;
    if w.len() > 0 {
        assert(s[0] == w[0]);
        assert(s.drop_first() == w.drop_first() + rest);
        lemma_word(w.drop_first(), rest);
    } else {
        assert(s == rest);
    }
}

/// The words of a text are its longest runs without white space, in order: what stands before the
/// next white space is a word, and the words of the rest follow it.
pub proof fn words_end_at_space(gap: Seq<char>, w: Seq<char>, rest: Seq<char>)
    requires
        forall|i: int| 0 <= i < gap.len() ==> is_space(#[trigger] gap[i]),
        forall|i: int| 0 <= i < w.len() ==> !is_space(#[trigger] w[i]),
        rest.len() > 0 ==> is_space(rest[0]),
    ensures
        w.len() > 0 ==> words_of(gap + w + rest) == seq![w] + words_of(rest),
        words_of(gap) == Seq::<Seq<char>>::empty(),
    decreases gap.len(),
{
    let s = gap + w + rest;
    if gap.len() > 0 {
        assert(s[0] == gap[0]);
        assert(s.drop_first() == gap.drop_first() + w + rest);
        words_end_at_space(gap.drop_first(), w, rest);
    } else {
        assert(s == w + rest);
        if w.len() > 0 {
            lemma_word(w, rest);
            assert(s[0] == w[0]);
            assert(s.take(w.len() as int) == w);
            assert(s.skip(w.len() as int) == rest);
        }
    }
}

proof fn lemma_line(line: Seq<char>, rest: Seq<char>)
    requires
        forall|i: int| 0 <= i < line.len() ==> #[trigger] line[i] != '\n',
        rest.len() > 0 ==> rest[0] == '\n',
    ensures
        line_len(line + rest) == line.len(),
    decreases line.len(),
{
    let s = line + rest;
    if line.len() > 0 {
        assert(s[0] == line[0]);
        assert(s.drop_first() == line.drop_first() + rest);
        lemma_line(line.drop_first(), rest);
    } else {
        assert(s == rest);
    }
}

/// The lines of a text that hold something, trimmed and in order: a line ends where the next
/// begins, and one of white space alone is passed over.
pub proof fn lines_end_at_breaks(line: Seq<char>, rest: Seq<char>)
    requires
        forall|i: int| 0 <= i < line.len() ==> #[trigger] line[i] != '\n',
    ensures
        filled_lines_of(line + seq!['\n'] + rest) == if trimmed(line).len() == 0 {
            filled_lines_of(rest)
        } else {
            seq![trimmed(line)] + filled_lines_of(rest)
        },
        filled_lines_of(line) == if trimmed(line).len() == 0 {
            Seq::<Seq<char>>::empty()
        } else {
            seq![trimmed(line)]
        },
{
    let s = line + seq!['\n'] + rest;
    let behind = seq!['\n'] + rest;
    assert(s == line + behind);
    lemma_line(line, behind);
    assert(s.take(line.len() as int) == line);
    assert(s.skip(line.len() as int + 1) == rest);
    lemma_line(line, Seq::empty());
    assert(line + Seq::<char>::empty() == line);
    assert(line.take(line.len() as int) == line);
    if line.len() == 0 {
        assert(trimmed(line).len() == 0);
    }
}

/// A text begins with another, or holds it, when the other stands there character by character.
pub proof fn texts_hold_their_parts(a: Seq<char>, part: Seq<char>, b: Seq<char>)
    ensures
        begins_with(part + b, part),
        holds_text(a + part + b, part),
        part.len() > a.len() ==> !begins_with(a, part) && !holds_text(a, part),
{
    assert((part + b).take(part.len() as int) == part);
    assert((a + part + b).subrange(a.len() as int, a.len() as int + part.len()) == part);
    assert(stands_at(a + part + b, part, a.len() as int));
}

/// Replacing changes nothing where there is nothing to replace, and puts the new text wherever the
/// old one stood at the beginning.
pub proof fn replacing_swaps_texts(s: Seq<char>, part: Seq<char>, with: Seq<char>)
    requires
        part.len() > 0,
    ensures
        !holds_text(s, part) ==> replaced(s, part, with) == s,
        replaced(part + s, part, with) == with + replaced(s, part, with),
    decreases s.len(),
{
    let t = part + s;
    assert(t.subrange(0, part.len() as int) == part);
    assert(stands_at(t, part, 0));
    assert(t.skip(part.len() as int) == s);
    if !holds_text(s, part) && s.len() >= part.len() {
        assert(!stands_at(s, part, 0));
        let rest = s.drop_first();
        assert forall|at: int| !stands_at(rest, part, at) by {
            if stands_at(rest, part, at) {
                assert(s.subrange(at + 1, at + 1 + part.len()) == rest.subrange(
                    at,
                    at + part.len(),
                ));
                assert(stands_at(s, part, at + 1));
            }
        }
        replacing_swaps_texts(rest, part, with);
        assert(seq![s[0]] + rest == s);
    }
}

/// Texts are joined in order, with the separator between each two of them.
pub proof fn joining_puts_separators_between(parts: Seq<Seq<char>>, p: Seq<char>, sep: Seq<char>)
    ensures
        joined(Seq::empty(), sep) == Seq::<char>::empty(),
        joined(seq![p], sep) == p,
        parts.len() > 0 ==> joined(parts.push(p), sep) == joined(parts, sep) + sep + p,
{
    assert(parts.push(p).drop_last() == parts);
}

/// Texts are ordered by the first character in which they differ; a text comes before every longer
/// one that begins with it.
pub proof fn the_first_difference_decides(
    common: Seq<char>,
    c: char,
    d: char,
    a: Seq<char>,
    b: Seq<char>,
)
    requires
        c < d,
    ensures
        in_order(common + seq![c] + a, common + seq![d] + b),
        !in_order(common + seq![d] + b, common + seq![c] + a),
        in_order(common, common + a),
        a.len() > 0 ==> !in_order(common + a, common),
    decreases common.len(),
{
    let x = common + seq![c] + a;
    let y = common + seq![d] + b;
    if common.len() > 0 {
        let rest = common.drop_first();
        assert(x.drop_first() == rest + seq![c] + a);
        assert(y.drop_first() == rest + seq![d] + b);
        assert((common + a).drop_first() == rest + a);
        the_first_difference_decides(rest, c, d, a, b);
    } else {
        assert(x[0] == c && y[0] == d);
    }
}

/// A template is expanded from left to right. Plain text stays; a path, a width, a height or a
/// ratio takes the place of its sign; a doubled per cent sign stands for one, and so does one at
/// the end.
pub proof fn signs_are_expanded(
    plain: Seq<char>,
    rest: Seq<char>,
    path: Seq<char>,
    w: nat,
    h: nat,
)
    requires
        forall|i: int| 0 <= i < plain.len() ==> #[trigger] plain[i] != '%',
    ensures
        expanded(plain + seq!['%', 'p'] + rest, path, w, h) == plain + path + expanded(
            rest,
            path,
            w,
            h,
        ),
        expanded(plain + seq!['%', 'd', '1'] + rest, path, w, h) == plain + decimal_text(w)
            + expanded(rest, path, w, h),
        expanded(plain + seq!['%', 'd', '2'] + rest, path, w, h) == plain + decimal_text(h)
            + expanded(rest, path, w, h),
        expanded(plain + seq!['%', 'r'] + rest, path, w, h) == plain + ratio_text(w, h) + expanded(
            rest,
            path,
            w,
            h,
        ),
        expanded(plain + seq!['%', '%'] + rest, path, w, h) == plain + seq!['%'] + expanded(
            rest,
            path,
            w,
            h,
        ),
        expanded(plain + seq!['%'], path, w, h) == plain + seq!['%'],
    decreases plain.len(),
{
    let p = plain + seq!['%', 'p'] + rest;
    let d1 = plain + seq!['%', 'd', '1'] + rest;
    let d2 = plain + seq!['%', 'd', '2'] + rest;
    let r = plain + seq!['%', 'r'] + rest;
    let q = plain + seq!['%', '%'] + rest;
    let e = plain + seq!['%'];
    if plain.len() > 0 {
        let less = plain.skip(1);
        assert forall|i: int| 0 <= i < less.len() implies #[trigger] less[i] != '%' by {
            assert(less[i] == plain[i + 1]);
        }
        signs_are_expanded(less, rest, path, w, h);
        assert(p.skip(1) == less + seq!['%', 'p'] + rest);
        assert(d1.skip(1) == less + seq!['%', 'd', '1'] + rest);
        assert(d2.skip(1) == less + seq!['%', 'd', '2'] + rest);
        assert(r.skip(1) == less + seq!['%', 'r'] + rest);
        assert(q.skip(1) == less + seq!['%', '%'] + rest);
        assert(e.skip(1) == less + seq!['%']);
        assert(p[0] == plain[0] && d1[0] == plain[0] && d2[0] == plain[0] && r[0] == plain[0]
            && q[0] == plain[0] && e[0] == plain[0]);
        assert(seq![plain[0]] + less == plain);
        let x = expanded(rest, path, w, h);
        assert(seq![plain[0]] + (less + path + x) == plain + path + x);
        assert(seq![plain[0]] + (less + decimal_text(w) + x) == plain + decimal_text(w) + x);
        assert(seq![plain[0]] + (less + decimal_text(h) + x) == plain + decimal_text(h) + x);
        assert(seq![plain[0]] + (less + ratio_text(w, h) + x) == plain + ratio_text(w, h) + x);
        assert(seq![plain[0]] + (less + seq!['%'] + x) == plain + seq!['%'] + x);
        assert(seq![plain[0]] + (less + seq!['%']) == plain + seq!['%']);
    } else {
        assert(p.skip(2) == rest);
        assert(d1.skip(3) == rest);
        assert(d2.skip(3) == rest);
        assert(r.skip(2) == rest);
        assert(q.skip(2) == rest);
        let x = expanded(rest, path, w, h);
        assert(plain + path + x == path + x);
        assert(plain + decimal_text(w) + x == decimal_text(w) + x);
        assert(plain + decimal_text(h) + x == decimal_text(h) + x);
        assert(plain + ratio_text(w, h) + x == ratio_text(w, h) + x);
        assert(plain + seq!['%'] + x == seq!['%'] + x);
        assert(e == seq!['%']);
    }
}

/// A ratio is written with four decimals. It is the width divided by the height, up to half of the
/// last decimal, and zero where there is no height.
pub proof fn ratios_are_rounded(w: nat, h: nat)
    requires
        h > 0,
    ensures
        -(h as int) <= 2 * (ratio_units(w, h) * h - 10000 * w) <= h,
        ratio_text(w, h) == decimal_text(ratio_units(w, h) / 10000) + "."@ + padded_text(
            ratio_units(w, h) % 10000,
            4,
        ),
        ratio_text(w, 0) == decimal_text(0) + "."@ + padded_text(0, 4),
{
    let n = (10000 * w) as int;
    let down = n / h as int;
    let rest = n % h as int;
    vstd::arithmetic::div_mod::lemma_fundamental_div_mod(n, h as int);
    assert(down * h == h * down) by (nonlinear_arith);
    assert((down + 1) * h == down * h + h) by (nonlinear_arith);
}

/// A path below the home directory begins with a tilde and a slash; what follows them lies there.
pub proof fn tildes_stand_for_home(path: Seq<char>, other: Seq<char>)
    requires
        other.len() > 0,
        other[0] != '~',
    ensures
        below_home(seq!['~', '/'] + path) == Some(path),
        below_home(other) == None::<Seq<char>>,
        below_home(seq!['~']) == None::<Seq<char>>,
{
    assert((seq!['~', '/'] + path).skip(2) == path);
}

/// What a script printed is told; what it complained of is told where it printed nothing; and where
/// it did neither, that is told.
pub proof fn scripts_are_quoted(stdout: Seq<char>, stderr: Seq<char>)
    ensures
        trimmed(stdout).len() > 0 ==> output_text(stdout, stderr) == trimmed(stdout),
        trimmed(stdout).len() == 0 && trimmed(stderr).len() > 0 ==> output_text(stdout, stderr)
            == "stderr: "@ + trimmed(stderr),
        trimmed(stdout).len() == 0 && trimmed(stderr).len() == 0 ==> output_text(stdout, stderr)
            == "(no output)"@,
{
}

/// Among plain characters, white space is the blank, the tab and the characters that end a line or
/// a page; no letter, digit or sign is. No-break and wide blanks are white space too.
pub proof fn white_space_is_blank(c: char)
    requires
        (c as int) < 128,
    ensures
        is_space(c) <==> c == ' ' || c == '\t' || c == '\n' || c == '\r' || c == '\u{b}' || c == '\u{c}',
        is_space('\u{a0}'),
        is_space('\u{2003}'),
        is_space('\u{3000}'),
        !is_space('é'),
        !is_space('★'),
{
}

/// A number is written in base 16 digit by digit, the lowest last, with as many digits as asked.
pub proof fn hexadecimal_goes_digit_by_digit(n: nat, d: nat, width: nat)
    requires
        d < 16,
    ensures
        hex_text(n, width).len() == width,
        hex_text(16 * n + d, width + 1) == hex_text(n, width).push(digit_char(d as int)),
    decreases width,
{
    assert((16 * n + d) / 16 == n);
    assert((16 * n + d) % 16 == d);
    if width > 0 {
        hexadecimal_goes_digit_by_digit(n / 16, n % 16, (width - 1) as nat);
    }
}

/// A ratio that lies exactly between two of four decimals, and that the machine holds exactly, is
/// rounded to the even one.
pub proof fn exact_ties_go_to_even(w: nat, h: nat)
    requires
        h > 0,
        2 * ((10000 * w) % h) == h,
        scaled(w, h) % h == 0,
    ensures
        ratio_units(w, h) % 2 == 0,
{
}

/// Each digit of a number counts ten times the one behind it. A number may be written with zeros or
/// a plus in front; what is not made of digits, or is too large, is no number.
pub proof fn digits_count_by_tens(s: Seq<char>, d: int, c: char)
    requires
        0 <= d < 10,
        all_digits(s),
    ensures
        digits_value(s.push(digit_char(d))) == 10 * digits_value(s) + d,
        digits_value(seq!['0'] + s) == digits_value(s),
        s.len() > 0 && digits_value(s) <= u32::MAX ==> u32_of_text(s) == Some(
            digits_value(s) as u32,
        ) && u32_of_text(seq!['+'] + s) == Some(digits_value(s) as u32),
        digits_value(s) > u32::MAX ==> u32_of_text(s) is None,
        u32_of_text(Seq::empty()) is None,
        !is_digit(c) ==> u32_of_text(s.push(c)) is None,
{
    assert(s.push(digit_char(d)).drop_last() == s);
    lemma_zeros_in_front(1, s);
    assert(zeros(1) + s == seq!['0'] + s);
    let t = seq!['+'] + s;
    assert(t.drop_first() == s);
    if s.len() > 0 {
        assert(is_digit(s[0]));
    }
    let u = s.push(c);
    if !is_digit(c) {
        if s.len() > 0 {
            assert(u[0] == s[0]);
            assert(!is_digit(u[s.len() as int]));
        } else {
            assert(u[0] == c);
            if c == '+' {
                assert(u.drop_first().len() == 0);
            } else {
                assert(!is_digit(u[0]));
            }
        }
    }
}

/// The quotient that the machine holds lies below the ratio, on it or above it: it is the nearest
/// that fits, and of two equally near ones the even one.
pub proof fn machine_quotients_are_nearest(w: nat, h: nat)
    requires
        h > 0,
    ensures
        ({
            let whole = scaled(w, h) / h;
            let rest = scaled(w, h) % h;
            &&& rounding_side(w, h) == 0 <==> rest == 0
            &&& rounding_side(w, h) < 0 <==> 0 < rest && (2 * rest < h || 2 * rest == h && whole % 2
                == 0)
            &&& rounding_side(w, h) > 0 <==> 2 * rest > h || 2 * rest == h && whole % 2 == 1
        }),
{
    if 2 * (scaled(w, h) % h) == h {
        assert(scaled(w, h) % h > 0);
    }
}

} // verus!
