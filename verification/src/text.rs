//! Small helpers on strings and lists of strings.

use vstd::prelude::*;

verus! {

/// What a list of strings holds, each string as its characters.
pub open spec fn texts(names: Vec<String>) -> Seq<Seq<char>> {
    Seq::new(names.len() as nat, |i: int| names[i]@)
}

/// A copy of the list.
pub fn clone_texts(names: &Vec<String>) -> (r: Vec<String>)
    ensures
        texts(r) == texts(*names),
{
    let mut out: Vec<String> = Vec::new();
    let mut i: usize = 0;
    while i < names.len()
        invariant
            i <= names.len(),
            out.len() == i,
            forall|k: int| 0 <= k < i ==> out[k]@ == names[k]@,
        decreases names.len() - i,
    {
        out.push(names[i].clone());
        i += 1;
    }
    assert(texts(out) =~= texts(*names));
    out
}

/// Whether the two lists hold the same strings in the same order.
pub fn texts_equal(a: &Vec<String>, b: &Vec<String>) -> (r: bool)
    ensures
        r == (texts(*a) == texts(*b)),
{
    if a.len() != b.len() {
        assert(texts(*a).len() != texts(*b).len());
        return false;
    }
    let mut i: usize = 0;
    while i < a.len()
        invariant
            i <= a.len(),
            a.len() == b.len(),
            forall|k: int| 0 <= k < i ==> a[k]@ == b[k]@,
        decreases a.len() - i,
    {
        if a[i] != b[i] {
            assert(texts(*a)[i as int] != texts(*b)[i as int]);
            return false;
        }
        i += 1;
    }
    assert(texts(*a) =~= texts(*b));
    true
}

/// The string made of the characters of the list, in their order.
///
/// Calls `Iterator::collect` on the list's characters, which for a `String`
/// puts the characters together in the order in which they come.
#[verifier::external_body]
pub(crate) fn string_from_chars(chars: &Vec<char>) -> (s: String)
    ensures
        s@ == chars@,
{
    chars.iter().collect()
}

/// Adds a string to a list.
pub fn push_text(names: &mut Vec<String>, name: String)
    ensures
        texts(*final(names)) == texts(*old(names)).push(name@),
{
    let ghost view = name@;
    names.push(name);
    assert(texts(*names) =~= texts(*old(names)).push(view));
}

/// The character that stands for a digit.
pub open spec fn digit_char(d: nat) -> char {
    if d == 0 {
        '0'
    } else if d == 1 {
        '1'
    } else if d == 2 {
        '2'
    } else if d == 3 {
        '3'
    } else if d == 4 {
        '4'
    } else if d == 5 {
        '5'
    } else if d == 6 {
        '6'
    } else if d == 7 {
        '7'
    } else if d == 8 {
        '8'
    } else {
        '9'
    }
}

/// The number in decimal digits, without leading zeros.
pub open spec fn decimal(n: nat) -> Seq<char>
    decreases n,
{
    if n < 10 {
        seq![digit_char(n)]
    } else {
        decimal(n / 10).push(digit_char(n % 10))
    }
}

fn digit(d: usize) -> (c: char)
    requires
        d < 10,
    ensures
        c == digit_char(d as nat),
{
    if d == 0 {
        '0'
    } else if d == 1 {
        '1'
    } else if d == 2 {
        '2'
    } else if d == 3 {
        '3'
    } else if d == 4 {
        '4'
    } else if d == 5 {
        '5'
    } else if d == 6 {
        '6'
    } else if d == 7 {
        '7'
    } else if d == 8 {
        '8'
    } else {
        '9'
    }
}

/// The number in decimal digits.
pub fn decimal_text(n: usize) -> (r: String)
    ensures
        r@ == decimal(n as nat),
{
    let mut reversed: Vec<char> = Vec::new();
    let mut rest: usize = n;
    assert(decimal(rest as nat) + reversed@.reverse() =~= decimal(n as nat));
    while rest >= 10
        invariant
            decimal(n as nat) == decimal(rest as nat) + reversed@.reverse(),
        decreases rest,
    {
        let ghost before = reversed@;
        let ghost old_rest = rest;
        reversed.push(digit(rest % 10));
        rest = rest / 10;
        proof {
            let d = digit_char((old_rest % 10) as nat);
            assert(reversed@.reverse() =~= seq![d] + before.reverse());
            assert(decimal(old_rest as nat) == decimal(rest as nat).push(d));
            assert(decimal(rest as nat) + reversed@.reverse() =~= decimal(old_rest as nat)
                + before.reverse());
        }
    }
    let ghost before = reversed@;
    reversed.push(digit(rest));
    proof {
        assert(reversed@.reverse() =~= seq![digit_char(rest as nat)] + before.reverse());
        assert(decimal(rest as nat) == seq![digit_char(rest as nat)]);
        assert(reversed@.reverse() =~= decimal(n as nat));
    }
    let mut digits: Vec<char> = Vec::new();
    let mut i: usize = reversed.len();
    assert(reversed@.reverse().take(0) =~= digits@);
    while i > 0
        invariant
            i <= reversed.len(),
            digits@ == reversed@.reverse().take(reversed.len() - i),
        decreases i,
    {
        i -= 1;
        digits.push(reversed[i]);
        assert(reversed@.reverse().take(reversed.len() - i) =~= reversed@.reverse().take(
            reversed.len() - i - 1,
        ).push(reversed[i as int]));
    }
    assert(digits@ =~= reversed@.reverse());
    string_from_chars(&digits)
}

/// Whether the string spells the literal.
pub fn spells(text: &String, literal: &str) -> (r: bool)
    ensures
        r == (text@ == literal@),
{
    let other: String = String::from_str(literal);
    *text == other
}

} // verus!
