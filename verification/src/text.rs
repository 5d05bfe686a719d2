//! Rendering numbers as text: hexadecimal and decimal digits.

use vstd::prelude::*;
use vstd::string::{StrSliceExecFns, StringExecFns};

verus! {

/// The hexadecimal digit for `d` (`0-9`, then `A-F` or `a-f`).
pub open spec fn hex_digit(d: nat, upper: bool) -> char {
    if d < 10 {
        (48 + d) as char
    } else if upper {
        (55 + d) as char
    } else {
        (87 + d) as char
    }
}

/// The decimal digit for `d`.
pub open spec fn dec_digit(d: nat) -> char {
    (48 + d) as char
}

/// `v` in hexadecimal, padded with zeros to at least `width` digits.
pub open spec fn hex_chars(v: nat, width: nat, upper: bool) -> Seq<char>
    decreases v, width,
{
    if v < 16 && width <= 1 {
        seq![hex_digit(v, upper)]
    } else {
        hex_chars(v / 16, if width > 0 {
            (width - 1) as nat
        } else {
            0
        }, upper).push(hex_digit(v % 16, upper))
    }
}

/// `v` in decimal.
pub open spec fn dec_chars(v: nat) -> Seq<char>
    decreases v,
{
    if v < 10 {
        seq![dec_digit(v)]
    } else {
        dec_chars(v / 10).push(dec_digit(v % 10))
    }
}

/// The one-character text of hexadecimal digit `d`.
fn hex_digit_str(d: u64, upper: bool) -> (r: &'static str)
    requires
        d < 16,
    ensures
        r@ == seq![hex_digit(d as nat, upper)],
{
    let table = if upper {
        "0123456789ABCDEF"
    } else {
        "0123456789abcdef"
    };
    proof {
        reveal_strlit("0123456789ABCDEF");
        reveal_strlit("0123456789abcdef");
        assert(table@[d as int] == hex_digit(d as nat, upper));
    }
    let r = table.substring_ascii(d as usize, d as usize + 1);
    assert(r@ =~= seq![hex_digit(d as nat, upper)]);
    r
}

/// Appends `v` in hexadecimal, padded with zeros to at least `width`
/// digits.
pub fn push_hex(out: &mut String, v: u64, width: usize, upper: bool)
    ensures
        final(out)@ == old(out)@ + hex_chars(v as nat, width as nat, upper),
    decreases v, width,
{
    if v < 16 && width <= 1 {
        out.append(hex_digit_str(v, upper));
    } else {
        let w = if width > 0 {
            width - 1
        } else {
            0
        };
        push_hex(out, v / 16, w, upper);
        out.append(hex_digit_str(v % 16, upper));
        proof {
            let h = hex_chars((v / 16) as nat, w as nat, upper);
            assert(old(out)@ + h + seq![hex_digit((v % 16) as nat, upper)] =~= old(out)@ + h.push(
                hex_digit((v % 16) as nat, upper),
            ));
        }
    }
}

/// Appends `v` in decimal.
pub fn push_dec(out: &mut String, v: u64)
    ensures
        final(out)@ == old(out)@ + dec_chars(v as nat),
    decreases v,
{
    if v < 10 {
        out.append(hex_digit_str(v, true));
    } else {
        push_dec(out, v / 10);
        out.append(hex_digit_str(v % 10, true));
        proof {
            let h = dec_chars((v / 10) as nat);
            assert(old(out)@ + h + seq![dec_digit((v % 10) as nat)] =~= old(out)@ + h.push(
                dec_digit((v % 10) as nat),
            ));
        }
    }
}

/// `n` spaces.
pub open spec fn spaces(n: nat) -> Seq<char> {
    Seq::new(n, |i: int| ' ')
}

/// `s` right-aligned in a field of `width` characters.
pub open spec fn pad_left(s: Seq<char>, width: nat) -> Seq<char> {
    if s.len() < width {
        spaces((width - s.len()) as nat) + s
    } else {
        s
    }
}

/// `s` left-aligned in a field of `width` characters.
pub open spec fn pad_right(s: Seq<char>, width: nat) -> Seq<char> {
    if s.len() < width {
        s + spaces((width - s.len()) as nat)
    } else {
        s
    }
}

/// Appends `n` spaces.
pub fn push_spaces(out: &mut String, n: usize)
    ensures
        final(out)@ == old(out)@ + spaces(n as nat),
{
    let mut k: usize = 0;
    proof {
        assert(out@ =~= old(out)@ + spaces(0));
    }
    while k < n
        invariant
            k <= n,
            out@ == old(out)@ + spaces(k as nat),
        decreases n - k,
    {
        out.append(" ");
        proof {
            reveal_strlit(" ");
            assert(old(out)@ + spaces(k as nat) + " "@ =~= old(out)@ + spaces((k + 1) as nat));
        }
        k = k + 1;
    }
}

/// Appends `s` right-aligned in a field of `width` characters.
pub fn push_right_aligned(out: &mut String, s: &str, width: usize)
    ensures
        final(out)@ == old(out)@ + pad_left(s@, width as nat),
{
    let n = s.unicode_len();
    if n < width {
        push_spaces(out, width - n);
    } else {
        assert(old(out)@ =~= old(out)@ + Seq::<char>::empty());
    }
    out.append(s);
    proof {
        if n < width {
            assert(old(out)@ + spaces((width - n) as nat) + s@ =~= old(out)@ + pad_left(
                s@,
                width as nat,
            ));
        }
    }
}

/// Appends `s` left-aligned in a field of `width` characters.
pub fn push_left_aligned(out: &mut String, s: &str, width: usize)
    ensures
        final(out)@ == old(out)@ + pad_right(s@, width as nat),
{
    let n = s.unicode_len();
    out.append(s);
    if n < width {
        push_spaces(out, width - n);
        assert(old(out)@ + s@ + spaces((width - n) as nat) =~= old(out)@ + pad_right(
            s@,
            width as nat,
        ));
    }
}

/// Appends `v` in decimal, right-aligned in a field of `width` characters.
pub fn push_dec_aligned(out: &mut String, v: u64, width: usize)
    ensures
        final(out)@ == old(out)@ + pad_left(dec_chars(v as nat), width as nat),
{
    let mut t = String::new();
    push_dec(&mut t, v);
    assert(t@ =~= dec_chars(v as nat));
    push_right_aligned(out, t.as_str(), width);
}

// ---------------------------------------------------------------------------
// Reading digits back
// ---------------------------------------------------------------------------

/// The value of a hexadecimal digit character (either case), or -1.
pub open spec fn hex_digit_value(c: char) -> int {
    if 48 <= (c as int) <= 57 {
        c as int - 48
    } else if 65 <= (c as int) <= 70 {
        c as int - 55
    } else if 97 <= (c as int) <= 102 {
        c as int - 87
    } else {
        -1
    }
}

/// Every character of `s` is a hexadecimal digit.
pub open spec fn all_hex_digits(s: Seq<char>) -> bool {
    forall|i: int| 0 <= i < s.len() ==> hex_digit_value(#[trigger] s[i]) >= 0
}

/// The number that the hexadecimal digits `s` denote, most significant
/// first.
pub open spec fn hex_value(s: Seq<char>) -> int
    decreases s.len(),
{
    if s.len() == 0 {
        0
    } else {
        hex_value(s.drop_last()) * 16 + hex_digit_value(s.last())
    }
}

/// Every character of `s` is a decimal digit.
pub open spec fn all_dec_digits(s: Seq<char>) -> bool {
    forall|i: int| 0 <= i < s.len() ==> 48 <= (#[trigger] s[i] as int) <= 57
}

/// The number that the decimal digits `s` denote, most significant first.
pub open spec fn dec_value(s: Seq<char>) -> int
    decreases s.len(),
{
    if s.len() == 0 {
        0
    } else {
        dec_value(s.drop_last()) * 10 + (s.last() as int - 48)
    }
}

/// No character of `s` is a lowercase hexadecimal letter (`a-f`).
pub open spec fn no_lower_hex(s: Seq<char>) -> bool {
    forall|i: int| 0 <= i < s.len() ==> !(97 <= (#[trigger] s[i] as int) <= 102)
}

/// No character of `s` is an uppercase hexadecimal letter (`A-F`).
pub open spec fn no_upper_hex(s: Seq<char>) -> bool {
    forall|i: int| 0 <= i < s.len() ==> !(65 <= (#[trigger] s[i] as int) <= 70)
}

/// `s` is a non-empty run of hexadecimal digits denoting `v`.
pub open spec fn hex_text(s: Seq<char>, v: int) -> bool {
    s.len() >= 1 && all_hex_digits(s) && hex_value(s) == v
}

/// `s` is exactly four hexadecimal digits denoting `v`.
pub open spec fn hex4_text(s: Seq<char>, v: int) -> bool {
    s.len() == 4 && all_hex_digits(s) && hex_value(s) == v
}

/// `s` is a non-empty run of decimal digits denoting `v`.
pub open spec fn dec_text(s: Seq<char>, v: int) -> bool {
    s.len() >= 1 && all_dec_digits(s) && dec_value(s) == v
}

proof fn lemma_hex_digit_value(d: nat, upper: bool)
    requires
        d < 16,
    ensures
        hex_digit_value(hex_digit(d, upper)) == d,
        upper ==> !(97 <= (hex_digit(d, upper) as int) <= 102),
        !upper ==> !(65 <= (hex_digit(d, upper) as int) <= 70),
{
    if d < 10 {
        assert(((48 + d) as char) as int == 48 + d);
    } else if upper {
        assert(((55 + d) as char) as int == 55 + d);
    } else {
        assert(((87 + d) as char) as int == 87 + d);
    }
}

/// Hexadecimal text read back gives its number: at least `width` digits
/// and at least one, exactly `width` when the number fits in them.
pub proof fn hex_chars_reads_back(v: nat, width: nat, upper: bool)
    ensures
        hex_text(hex_chars(v, width, upper), v as int),
        hex_chars(v, width, upper).len() >= width,
        upper ==> no_lower_hex(hex_chars(v, width, upper)),
        !upper ==> no_upper_hex(hex_chars(v, width, upper)),
        width == 4 && v < 0x10000 ==> hex_chars(v, width, upper).len() == 4,
        width == 2 && v < 0x100 ==> hex_chars(v, width, upper).len() == 2,
    decreases v, width,
{
    let s = hex_chars(v, width, upper);
    lemma_hex_digit_value(v % 16, upper);
    if v < 16 && width <= 1 {
        assert(s.drop_last() =~= Seq::<char>::empty());
        assert(hex_value(s) == hex_value(s.drop_last()) * 16 + hex_digit_value(s.last()));
    } else {
        let w = if width > 0 {
            (width - 1) as nat
        } else {
            0
        };
        hex_chars_reads_back(v / 16, w, upper);
        let t = hex_chars(v / 16, w, upper);
        assert(s.drop_last() =~= t);
        assert(s.last() == hex_digit(v % 16, upper));
        assert forall|i: int| 0 <= i < s.len() implies hex_digit_value(#[trigger] s[i]) >= 0 && (
        upper ==> !(97 <= (s[i] as int) <= 102)) && (!upper ==> !(65 <= (s[i] as int) <= 70)) by {
            if i < t.len() {
                assert(s[i] == t[i]);
            }
        }
        if width == 4 && v < 0x10000 {
            assert(v / 16 < 0x1000);
            if v / 16 >= 16 {
                hex_chars_reads_back(v / 256, 2, upper);
                if v / 256 >= 16 {
                    hex_chars_reads_back(v / 4096, 1, upper);
                }
            }
            lemma_hex_len_fits(v / 16, 3, upper);
        }
        if width == 2 && v < 0x100 {
            lemma_hex_len_fits(v / 16, 1, upper);
        }
    }
}

proof fn lemma_hex_len_fits(v: nat, width: nat, upper: bool)
    requires
        1 <= width <= 3,
        width == 1 ==> v < 16,
        width == 2 ==> v < 0x100,
        width == 3 ==> v < 0x1000,
    ensures
        hex_chars(v, width, upper).len() == width,
    decreases width,
{
    if width > 1 {
        lemma_hex_len_fits(v / 16, (width - 1) as nat, upper);
    }
}

/// Decimal text read back gives its number.
pub proof fn dec_chars_reads_back(v: nat)
    ensures
        dec_text(dec_chars(v), v as int),
    decreases v,
{
    let s = dec_chars(v);
    assert(((48 + v % 10) as char) as int == 48 + v % 10);
    if v < 10 {
        assert(s.drop_last() =~= Seq::<char>::empty());
        assert(dec_value(s) == dec_value(s.drop_last()) * 10 + (s.last() as int - 48));
    } else {
        dec_chars_reads_back(v / 10);
        let t = dec_chars(v / 10);
        assert(s.drop_last() =~= t);
        assert forall|i: int| 0 <= i < s.len() implies 48 <= (#[trigger] s[i] as int) <= 57 by {
            if i < t.len() {
                assert(s[i] == t[i]);
            }
        }
    }
}

} // verus!
