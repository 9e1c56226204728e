//! Text rendering of numbers as the reports use it: fixed-width lower-case
//! hexadecimal and plain decimal.

use vstd::prelude::*;

verus! {

/// The lower-case hexadecimal digit for `d < 16`.
pub open spec fn hex_digit(d: nat) -> char {
    if d < 10 {
        (('0' as nat) + d) as char
    } else {
        (('a' as nat) + d - 10) as char
    }
}

/// The decimal digit for `d < 10`.
pub open spec fn dec_digit(d: nat) -> char {
    (('0' as nat) + d) as char
}

/// The low `width` hexadecimal digits of `v`, most significant first
/// (`{:0width$x}` for values that fit in `width` digits).
pub open spec fn hex_text(v: nat, width: nat) -> Seq<char>
    decreases width,
{
    if width == 0 {
        Seq::empty()
    } else {
        hex_text(v / 16, (width - 1) as nat).push(hex_digit(v % 16))
    }
}

/// The decimal text of `v` without leading zeros (`{}`).
pub open spec fn dec_text(v: nat) -> Seq<char>
    decreases v,
{
    if v < 10 {
        seq![dec_digit(v)]
    } else {
        dec_text(v / 10).push(dec_digit(v % 10))
    }
}

/// The text of a boolean (`{}`).
pub open spec fn bool_text(b: bool) -> Seq<char> {
    if b {
        seq!['t', 'r', 'u', 'e']
    } else {
        seq!['f', 'a', 'l', 's', 'e']
    }
}

/// The one-character string of hexadecimal digit `d`.
fn hex_digit_str(d: u128) -> (r: &'static str)
    requires
        d < 16,
    ensures
        r@ == seq![hex_digit(d as nat)],
{
    proof {
        reveal_strlit("0");
        reveal_strlit("1");
        reveal_strlit("2");
        reveal_strlit("3");
        reveal_strlit("4");
        reveal_strlit("5");
        reveal_strlit("6");
        reveal_strlit("7");
        reveal_strlit("8");
        reveal_strlit("9");
        reveal_strlit("a");
        reveal_strlit("b");
        reveal_strlit("c");
        reveal_strlit("d");
        reveal_strlit("e");
        reveal_strlit("f");
    }
    match d {
        0 => "0",
        1 => "1",
        2 => "2",
        3 => "3",
        4 => "4",
        5 => "5",
        6 => "6",
        7 => "7",
        8 => "8",
        9 => "9",
        10 => "a",
        11 => "b",
        12 => "c",
        13 => "d",
        14 => "e",
        _ => "f",
    }
}

/// Appends the low `width` hexadecimal digits of `v`.
pub fn push_hex(s: &mut String, v: u128, width: usize)
    ensures
        final(s)@ == old(s)@ + hex_text(v as nat, width as nat),
    decreases width,
{
    if width == 0 {
        assert(hex_text(v as nat, 0) =~= Seq::<char>::empty());
        assert(old(s)@ + Seq::<char>::empty() =~= old(s)@);
        return ;
    }
    push_hex(s, v / 16, width - 1);
    let d = hex_digit_str(v % 16);
    s.append(d);
    assert(hex_text(v as nat, width as nat) == hex_text((v / 16) as nat, (width - 1) as nat).push(
        hex_digit((v % 16) as nat),
    ));
    assert(s@ =~= old(s)@ + hex_text(v as nat, width as nat));
}

/// Appends the decimal text of `v`.
pub fn push_dec(s: &mut String, v: u128)
    ensures
        final(s)@ == old(s)@ + dec_text(v as nat),
    decreases v,
{
    if v >= 10 {
        push_dec(s, v / 10);
    }
    let d = hex_digit_str(v % 10);
    s.append(d);
    assert(s@ =~= old(s)@ + dec_text(v as nat));
}

/// Appends `true` or `false`.
pub fn push_bool(s: &mut String, b: bool)
    ensures
        final(s)@ == old(s)@ + bool_text(b),
{
    proof {
        reveal_strlit("true");
        reveal_strlit("false");
    }
    if b {
        s.append("true");
    } else {
        s.append("false");
    }
}

/// The text `name: <a> vs <b>` with both values as `width` hex digits.
pub open spec fn hex_diff_text(name: Seq<char>, a: nat, b: nat, width: nat) -> Seq<char> {
    name + seq![':', ' '] + hex_text(a, width) + seq![' ', 'v', 's', ' '] + hex_text(b, width)
}

/// Renders `name: <a> vs <b>` with both values as `width` hex digits.
pub fn hex_diff(name: &str, a: u128, b: u128, width: usize) -> (r: String)
    ensures
        r@ == hex_diff_text(name@, a as nat, b as nat, width as nat),
{
    proof {
        reveal_strlit(": ");
        reveal_strlit(" vs ");
    }
    let mut s = String::from_str(name);
    s.append(": ");
    push_hex(&mut s, a, width);
    s.append(" vs ");
    push_hex(&mut s, b, width);
    assert(s@ =~= hex_diff_text(name@, a as nat, b as nat, width as nat));
    s
}

/// `prefix` followed by the decimal text of `i`.
pub fn indexed_name(prefix: &str, i: u128) -> (r: String)
    ensures
        r@ == prefix@ + dec_text(i as nat),
{
    let mut s = String::from_str(prefix);
    push_dec(&mut s, i);
    s
}

/// Whether two strings have the same characters.
pub fn str_eq(a: &str, b: &str) -> (r: bool)
    ensures
        r == (a@ == b@),
{
    a.to_owned() == b.to_owned()
}

/// A copy of a list of strings.
pub fn copy_strings(v: &Vec<String>) -> (r: Vec<String>)
    ensures
        r@ == v@,
{
    let mut r: Vec<String> = Vec::new();
    let mut i: usize = 0;
    while i < v.len()
        invariant
            i <= v.len(),
            r@ == v@.subrange(0, i as int),
        decreases v.len() - i,
    {
        r.push(v[i].clone());
        i += 1;
    }
    assert(r@ =~= v@);
    r
}

} // verus!
