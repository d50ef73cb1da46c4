//! The few string operations the renderer is built from.

use vstd::prelude::*;
use vstd::string::*;

verus! {

/// `str::eq` of std: two string slices are equal exactly when they hold the
/// same characters.
#[verifier::external_body]
pub(crate) fn same(a: &str, b: &str) -> (res: bool)
    ensures
        res == (a@ == b@),
{
    a == b
}

/// `String::push` of std: appends one character and keeps what was there.
pub assume_specification[ std::string::String::push ](s: &mut std::string::String, c: char)
    ensures
        final(s)@ == old(s)@.push(c),
;

/// The decimal digit that stands for `d`.
pub open spec fn digit(d: nat) -> char {
    (('0' as nat) + d) as char
}

/// `n` in decimal notation, without leading zeros.
pub open spec fn decimal(n: nat) -> Seq<char>
    decreases n,
{
    if n < 10 {
        seq![digit(n)]
    } else {
        decimal(n / 10).push(digit(n % 10))
    }
}

/// The texts in order, with `separator` between each two neighbours.
pub open spec fn joined(parts: Seq<Seq<char>>, separator: Seq<char>) -> Seq<char>
    decreases parts.len(),
{
    if parts.len() == 0 {
        Seq::empty()
    } else if parts.len() == 1 {
        parts[0]
    } else {
        joined(parts.drop_last(), separator) + separator + parts.last()
    }
}

/// The views of a list of strings.
pub open spec fn texts(parts: Seq<String>) -> Seq<Seq<char>> {
    parts.map_values(|part: String| part@)
}

/// Writes `n` in decimal notation.
pub(crate) fn to_decimal(n: usize) -> (res: String)
    ensures
        res@ == decimal(n as nat),
    decreases n,
{
    let d: u8 = (n % 10) as u8;
    let c = (48u8 + d) as char;
    assert(c == digit((n % 10) as nat));
    let mut res = if n < 10 {
        String::new()
    } else {
        to_decimal(n / 10)
    };
    res.push(c);
    assert(n < 10 ==> res@ =~= seq![c]);
    res
}

/// Joins the texts, with `separator` between each two neighbours.
pub(crate) fn join(parts: &Vec<String>, separator: &str) -> (res: String)
    ensures
        res@ == joined(texts(parts@), separator@),
{
    let mut res = String::new();
    for i in 0..parts.len()
        invariant
            res@ == joined(texts(parts@).take(i as int), separator@),
    {
        let ghost done = texts(parts@).take(i as int);
        let ghost next = texts(parts@).take(i + 1);
        assert(next.drop_last() =~= done);
        assert(next.last() == parts@[i as int]@);
        if i > 0 {
            res.append(separator);
        }
        res.append(parts[i].as_str());
        assert(i == 0 ==> res@ =~= parts@[0]@);
    }
    assert(texts(parts@).take(parts@.len() as int) =~= texts(parts@));
    res
}

} // verus!
