//! Comparing texts character by character.

use vstd::prelude::*;
use vstd::std_specs::iter::IteratorSpec;

verus! {

/// Whether the two texts hold the same characters.
pub fn same_text(a: &str, b: &str) -> (same: bool)
    ensures
        same == (a@ == b@),
{
    let mut left = a.chars();
    let mut right = b.chars();
    let ghost mut done: int = 0;
    loop
        invariant
            0 <= done <= a@.len(),
            done <= b@.len(),
            left.obeys_prophetic_iter_laws(),
            right.obeys_prophetic_iter_laws(),
            left.remaining() == a@.skip(done),
            right.remaining() == b@.skip(done),
            a@.subrange(0, done) == b@.subrange(0, done),
            left.decrease() is Some,
        decreases a@.len() - done,
    {
        let x = left.next();
        let y = right.next();
        match (x, y) {
            (None, None) => {
                proof {
                    assert(a@.subrange(0, done) =~= a@);
                    assert(b@.subrange(0, done) =~= b@);
                }
                return true;
            },
            (Some(c), Some(d)) => {
                if c != d {
                    proof {
                        assert(a@[done] == c);
                        assert(b@[done] == d);
                    }
                    return false;
                }
                proof {
                    assert(a@.skip(done).drop_first() =~= a@.skip(done + 1));
                    assert(b@.skip(done).drop_first() =~= b@.skip(done + 1));
                    assert(a@.subrange(0, done + 1) =~= a@.subrange(0, done).push(c));
                    assert(b@.subrange(0, done + 1) =~= b@.subrange(0, done).push(d));
                    done = done + 1;
                }
            },
            _ => {
                return false;
            },
        }
    }
}

} // verus!
