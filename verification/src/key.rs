use vstd::prelude::*;

verus! {

/// `String::push` appends one character to the end of the string.
pub assume_specification[ String::push ](s: &mut String, c: char)
    ensures
        final(s)@ == old(s)@.push(c),
;

/// The separator that a key uses in place of a backslash.
pub open spec fn canonical_char(c: char) -> char {
    if c == '\\' {
        '/'
    } else {
        c
    }
}

/// The logical key of a path: the same characters, with every backslash
/// rewritten to a forward slash.
pub open spec fn normalized(path: Seq<char>) -> Seq<char> {
    Seq::new(path.len(), |i: int| canonical_char(path[i]))
}

/// Whether a key is in canonical form, that is, holds no backslash.
pub open spec fn is_key(key: Seq<char>) -> bool {
    forall|i: int| 0 <= i < key.len() ==> key[i] != '\\'
}

/// Turns a path into its logical key.
pub fn as_key(path: &str) -> (key: String)
    ensures
        key@ == normalized(path@),
{
    let mut key = String::new();
    for c in it: path.chars()
        invariant
            it.seq() == path@,
            key@ == normalized(path@.take(it.index() as int)),
    {
        proof {
            let n = it.index() as int;
            assert(path@.take(n + 1) == path@.take(n).push(path@[n]));
            assert(normalized(path@.take(n + 1)) == normalized(path@.take(n)).push(
                canonical_char(path@[n]),
            ));
        }
        if c == '\\' {
            key.push('/');
        } else {
            key.push(c);
        }
    }
    proof {
        assert(path@.take(path@.len() as int) == path@);
    }
    key
}

} // verus!
