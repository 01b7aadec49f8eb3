//! Comparing entity and mesh names.

use vstd::prelude::*;

verus! {

/// The prefix by which asteroids of every size are recognised.
pub open spec fn asteroid_prefix() -> Seq<char> {
    "Asteroid"@
}

/// `prefix` is an initial part of `text`.
pub open spec fn has_prefix_spec(text: Seq<char>, prefix: Seq<char>) -> bool {
    prefix.len() <= text.len() && text.subrange(0, prefix.len() as int) == prefix
}

/// The name marks an asteroid: it starts with `Asteroid`.
pub open spec fn is_asteroid_name_spec(name: Seq<char>) -> bool {
    has_prefix_spec(name, asteroid_prefix())
}

/// Whether two texts hold the same characters.
pub fn same_text(a: &str, b: &str) -> (same: bool)
    ensures
        same == (a@ == b@),
{
    let n = a.unicode_len();
    if n != b.unicode_len() {
        return false;
    }
    let mut i: usize = 0;
    while i < n
        invariant
            i <= n,
            n == a@.len(),
            n == b@.len(),
            forall|k: int| 0 <= k < i ==> a@[k] == b@[k],
        decreases n - i,
    {
        if a.get_char(i) != b.get_char(i) {
            return false;
        }
        i = i + 1;
    }
    assert(a@ =~= b@);
    true
}

/// Whether `text` starts with `prefix`.
pub fn has_prefix(text: &str, prefix: &str) -> (found: bool)
    ensures
        found == has_prefix_spec(text@, prefix@),
{
    let n = prefix.unicode_len();
    if text.unicode_len() < n {
        return false;
    }
    let mut i: usize = 0;
    while i < n
        invariant
            i <= n,
            n == prefix@.len(),
            n <= text@.len(),
            forall|k: int| 0 <= k < i ==> text@[k] == prefix@[k],
        decreases n - i,
    {
        if text.get_char(i) != prefix.get_char(i) {
            assert(text@.subrange(0, n as int)[i as int] != prefix@[i as int]);
            return false;
        }
        i = i + 1;
    }
    assert(text@.subrange(0, n as int) =~= prefix@);
    true
}

/// Whether the name marks an asteroid.
pub fn is_asteroid_name(name: &str) -> (found: bool)
    ensures
        found == is_asteroid_name_spec(name@),
{
    has_prefix(name, "Asteroid")
}

} // verus!
