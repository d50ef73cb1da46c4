//! Keeps names and search texts from being read as SQL or as wildcards.

use vstd::prelude::*;
use vstd::string::*;

verus! {

/// The text with every double quote written twice.
pub open spec fn doubled(text: Seq<char>) -> Seq<char>
    decreases text.len(),
{
    if text.len() == 0 {
        Seq::empty()
    } else if text.last() == '"' {
        doubled(text.drop_last()) + seq!['"', '"']
    } else {
        doubled(text.drop_last()) + seq![text.last()]
    }
}

/// The name as a quoted SQL identifier.
pub open spec fn quoted(name: Seq<char>) -> Seq<char> {
    seq!['"'] + doubled(name) + seq!['"']
}

/// Whether a character has a meaning of its own in a `LIKE` pattern.
pub open spec fn is_like_special(c: char) -> bool {
    c == '\\' || c == '%' || c == '_'
}

/// The text with a backslash before every character that has a meaning of its
/// own in a `LIKE` pattern.
pub open spec fn escaped(text: Seq<char>) -> Seq<char>
    decreases text.len(),
{
    if text.len() == 0 {
        Seq::empty()
    } else if is_like_special(text.last()) {
        escaped(text.drop_last()) + seq!['\\', text.last()]
    } else {
        escaped(text.drop_last()) + seq![text.last()]
    }
}

/// Quotes a name that came from the schema, never from the request. Doubling any
/// quote inside keeps the output well-formed even if someone puts a strange
/// column name in the schema.
pub fn identifier(name: &str) -> (res: String)
    ensures
        res@ == quoted(name@),
{
    let mut res = String::new();
    res.push('"');
    assert(res@ =~= seq!['"'] + doubled(name@.take(0)));
    for c in it: name.chars()
        invariant
            it.seq() == name@,
            res@ == seq!['"'] + doubled(name@.take(it.index() as int)),
    {
        let ghost next = name@.take(it.index() + 1);
        assert(next.drop_last() =~= name@.take(it.index() as int));
        assert(next.last() == c);
        if c == '"' {
            res.push('"');
        }
        res.push(c);
        assert(res@ =~= seq!['"'] + doubled(next));
    }
    assert(name@.take(name@.len() as int) =~= name@);
    res.push('"');
    assert(res@ =~= quoted(name@));
    res
}

/// Escapes a text, so that a `LIKE` pattern matches it literally.
pub fn escape_like(value: &str) -> (res: String)
    ensures
        res@ == escaped(value@),
{
    let mut res = String::new();
    assert(res@ =~= escaped(value@.take(0)));
    for c in it: value.chars()
        invariant
            it.seq() == value@,
            res@ == escaped(value@.take(it.index() as int)),
    {
        let ghost next = value@.take(it.index() + 1);
        assert(next.drop_last() =~= value@.take(it.index() as int));
        assert(next.last() == c);
        if c == '\\' || c == '%' || c == '_' {
            res.push('\\');
        }
        res.push(c);
        assert(res@ =~= escaped(next));
    }
    assert(value@.take(value@.len() as int) =~= value@);
    res
}

} // verus!
