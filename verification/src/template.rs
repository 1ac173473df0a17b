//! The arguments of scripts.
use crate::text::{self, decimal_text, padded_text};
use vstd::prelude::*;

verus! {

broadcast use vstd::string::group_string_axioms;

/// Two to the 52nd: a double-precision number has 53 binary digits.
pub const TOP_DIGIT: u64 = 0x10_0000_0000_0000;

/// `m` doubled until the quotient by `d` has 53 binary digits.
pub open spec fn scaled(m: nat, d: nat) -> nat
    decreases 2 * (TOP_DIGIT * d) - m,
{
    if m == 0 || m >= TOP_DIGIT * d {
        m
    } else {
        scaled(2 * m, d)
    }
}

/// Whether the double-precision number nearest to `w / h` lies above it (1), below it (-1), or
/// neither (0).
pub open spec fn rounding_side(w: nat, h: nat) -> int {
    let m = scaled(w, h);
    let rest = m % h;
    if rest == 0 {
        0
    } else if 2 * rest < h {
        -1
    } else if 2 * rest > h {
        1
    } else if (m / h) % 2 == 0 {
        -1
    } else {
        1
    }
}

/// `w / h` in ten-thousandths, as a double-precision number is rounded: to the nearest, and from the
/// middle to where the number lies, or to the even neighbour if it lies in the middle itself.
pub open spec fn ratio_units(w: nat, h: nat) -> nat {
    let down = 10000 * w / h;
    let rest = 10000 * w % h;
    if 2 * rest < h {
        down
    } else if 2 * rest > h {
        down + 1
    } else if rounding_side(w, h) < 0 {
        down
    } else if rounding_side(w, h) > 0 {
        down + 1
    } else if down % 2 == 0 {
        down
    } else {
        down + 1
    }
}

/// The ratio of two lengths with four decimals; 0 where there is no height.
pub open spec fn ratio_text(w: nat, h: nat) -> Seq<char> {
    let units = if h == 0 {
        0
    } else {
        ratio_units(w, h)
    };
    decimal_text(units / 10000) + "."@ + padded_text(units % 10000, 4)
}

fn side(w: u32, h: u32) -> (r: i32)
    requires
        h > 0,
    ensures
        r == rounding_side(w as nat, h as nat),
{
    let d: u128 = h as u128;
    let top: u128 = 0x10_0000_0000_0000u128 * d;
    let mut m: u128 = w as u128;
    while m != 0 && m < top
        invariant
            d == h,
            h > 0,
            top == TOP_DIGIT * d,
            m < 2 * top,
            scaled(m as nat, h as nat) == scaled(w as nat, h as nat),
        decreases 2 * top - m,
    {
        m = 2 * m;
    }
    let rest = m % d;
    if rest == 0 {
        0
    } else if 2 * rest < d {
        -1
    } else if 2 * rest > d {
        1
    } else if (m / d) % 2 == 0 {
        -1
    } else {
        1
    }
}

fn units(w: u32, h: u32) -> (r: u64)
    requires
        h > 0,
    ensures
        r == ratio_units(w as nat, h as nat),
{
    let n: u64 = 10000 * (w as u64);
    let d: u64 = h as u64;
    let down: u64 = n / d;
    let rest: u64 = n % d;
    assert(down <= n) by (nonlinear_arith)
        requires
            d > 0,
            down == n / d,
    ;
    if 2 * rest < d {
        down
    } else if 2 * rest > d {
        down + 1
    } else {
        let s = side(w, h);
        if s < 0 {
            down
        } else if s > 0 {
            down + 1
        } else if down % 2 == 0 {
            down
        } else {
            down + 1
        }
    }
}

/// The ratio of two lengths with four decimals; 0 where there is no height.
pub fn ratio(w: u32, h: u32) -> (s: String)
    ensures
        s@ == ratio_text(w as nat, h as nat),
{
    let n: u64 = if h == 0 {
        0
    } else {
        units(w, h)
    };
    let mut s = text::decimal(n / 10000);
    s.append(".");
    s.append(text::padded(n % 10000, 4).as_str());
    s
}

/// The text of a template for a photo of `w` times `h` pixels. `%p` stands for the photo's path,
/// `%d1` for its width, `%d2` for its height, `%r` for the ratio of the two and `%%` for a per cent
/// sign. A per cent sign before anything else stands for itself.
pub open spec fn expanded(t: Seq<char>, path: Seq<char>, w: nat, h: nat) -> Seq<char>
    decreases t.len(),
{
    if t.len() == 0 {
        Seq::empty()
    } else if t[0] != '%' {
        seq![t[0]] + expanded(t.skip(1), path, w, h)
    } else if t.len() == 1 {
        seq!['%']
    } else if t[1] == 'p' {
        path + expanded(t.skip(2), path, w, h)
    } else if t[1] == 'd' {
        if t.len() == 2 {
            seq!['%', 'd']
        } else if t[2] == '1' {
            decimal_text(w) + expanded(t.skip(3), path, w, h)
        } else if t[2] == '2' {
            decimal_text(h) + expanded(t.skip(3), path, w, h)
        } else {
            seq!['%', 'd', t[2]] + expanded(t.skip(3), path, w, h)
        }
    } else if t[1] == 'r' {
        ratio_text(w, h) + expanded(t.skip(2), path, w, h)
    } else if t[1] == '%' {
        seq!['%'] + expanded(t.skip(2), path, w, h)
    } else {
        seq!['%'] + expanded(t.skip(1), path, w, h)
    }
}

/// The text of a template for a photo of `d1` times `d2` pixels.
pub fn expand_template(template: &str, path: &str, d1: u32, d2: u32) -> (r: String)
    ensures
        r@ == expanded(template@, path@, d1 as nat, d2 as nat),
{
    let chars = text::to_chars(template);
    let n = chars.len();
    let ghost t = template@;
    let ghost w = d1 as nat;
    let ghost h = d2 as nat;
    let mut out = String::new();
    let mut i: usize = 0;
    assert(t.skip(0) == t);
    assert(out@ + expanded(t, path@, w, h) =~= expanded(t, path@, w, h));
    while i < n
        invariant
            i <= n == chars@.len(),
            chars@ == t,
            t == template@,
            w == d1,
            h == d2,
            out@ + expanded(t.skip(i as int), path@, w, h) == expanded(t, path@, w, h),
        decreases n - i,
    {
        let ghost rest = t.skip(i as int);
        let ghost before = out@;
        let c = chars[i];
        assert(rest[0] == c);
        proof {
            assert(rest.skip(1) == t.skip(i + 1));
            if i + 2 <= n {
                assert(rest[1] == t[i + 1]);
                assert(rest.skip(2) == t.skip(i + 2));
            }
            if i + 3 <= n {
                assert(rest[2] == t[i + 2]);
                assert(rest.skip(3) == t.skip(i + 3));
            }
        }
        if c != '%' {
            out.push(c);
            assert(out@ + expanded(t.skip(i + 1), path@, w, h) =~= before + expanded(
                rest,
                path@,
                w,
                h,
            ));
            i += 1;
        } else if n - i == 1 {
            out.push('%');
            i += 1;
            assert(t.skip(i as int) =~= Seq::empty());
            assert(out@ + expanded(t.skip(i as int), path@, w, h) =~= before + expanded(
                rest,
                path@,
                w,
                h,
            ));
        } else {
            let k = chars[i + 1];
            if k == 'p' {
                out.append(path);
                i += 2;
            } else if k == 'd' {
                if n - i == 2 {
                    out.push('%');
                    out.push('d');
                    i += 2;
                    assert(t.skip(i as int) =~= Seq::empty());
                } else {
                    let z = chars[i + 2];
                    if z == '1' {
                        out.append(text::decimal(d1 as u64).as_str());
                    } else if z == '2' {
                        out.append(text::decimal(d2 as u64).as_str());
                    } else {
                        out.push('%');
                        out.push('d');
                        out.push(z);
                    }
                    i += 3;
                }
            } else if k == 'r' {
                out.append(ratio(d1, d2).as_str());
                i += 2;
            } else if k == '%' {
                out.push('%');
                i += 2;
            } else {
                out.push('%');
                i += 1;
            }
            assert(out@ + expanded(t.skip(i as int), path@, w, h) =~= before + expanded(
                rest,
                path@,
                w,
                h,
            ));
        }
    }
    assert(t.skip(i as int) =~= Seq::empty());
    assert(out@ + expanded(t.skip(i as int), path@, w, h) =~= out@);
    out
}

/// A template without a per cent sign stands for itself.
pub proof fn plain_templates_stay(t: Seq<char>, path: Seq<char>, w: nat, h: nat)
    requires
        forall|i: int| 0 <= i < t.len() ==> #[trigger] t[i] != '%',
    ensures
        expanded(t, path, w, h) == t,
    decreases t.len(),
{
    if t.len() > 0 {
        assert forall|i: int| 0 <= i < t.skip(1).len() implies #[trigger] t.skip(1)[i] != '%' by {
            assert(t.skip(1)[i] == t[i + 1]);
        }
        plain_templates_stay(t.skip(1), path, w, h);
        assert(seq![t[0]] + t.skip(1) =~= t);
    }
}

/// The part of `path` below the home directory, if it begins with that.
pub open spec fn below_home(path: Seq<char>) -> Option<Seq<char>> {
    if path.len() >= 2 && path[0] == '~' && path[1] == '/' {
        Some(path.skip(2))
    } else {
        None
    }
}

/// The part of `path` below the home directory, if it begins with that.
pub fn expand_tilde(path: &str) -> (r: Option<String>)
    ensures
        r is Some <==> below_home(path@) is Some,
        r matches Some(s) ==> below_home(path@) == Some(s@),
{
    let chars = text::to_chars(path);
    if chars.len() >= 2 && chars[0] == '~' && chars[1] == '/' {
        let r = text::from_chars(&chars, 2, chars.len());
        assert(r@ =~= path@.skip(2));
        Some(r)
    } else {
        None
    }
}

/// What a script had to say: what it wrote, or else its complaints.
pub open spec fn output_text(stdout: Seq<char>, stderr: Seq<char>) -> Seq<char> {
    let out = text::trimmed(stdout);
    let err = text::trimmed(stderr);
    if out.len() == 0 && err.len() > 0 {
        "stderr: "@ + err
    } else if out.len() == 0 {
        "(no output)"@
    } else {
        out
    }
}

/// What a script had to say: what it wrote, or else its complaints.
pub fn script_output(stdout: &str, stderr: &str) -> (r: String)
    ensures
        r@ == output_text(stdout@, stderr@),
{
    let out = text::trim(stdout);
    let err = text::trim(stderr);
    let none = text::to_chars(out.as_str()).len() == 0;
    if none && text::to_chars(err.as_str()).len() > 0 {
        let mut r = "stderr: ".to_owned();
        r.append(err.as_str());
        r
    } else if none {
        "(no output)".to_owned()
    } else {
        out
    }
}

} // verus!
