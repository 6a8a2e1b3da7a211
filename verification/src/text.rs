use vstd::prelude::*;
use vstd::string::*;

verus! {

/// Whether two strings hold the same characters.
pub fn str_eq(a: &str, b: &str) -> (r: bool)
    ensures
        r == (a@ == b@),
{
    let n = a.unicode_len();
    let m = b.unicode_len();
    if n != m {
        return false;
    }
    let mut i: usize = 0;
    while i < n
        invariant
            n == a@.len(),
            m == b@.len(),
            n == m,
            i <= n,
            forall|j: int| 0 <= j < i ==> a@[j] == b@[j],
        decreases n - i,
    {
        if a.get_char(i) != b.get_char(i) {
            return false;
        }
        i = i + 1;
    }
    assert(a@ =~= b@);
    true
}

/// Whether the first three characters of `a` and `b` agree.
pub fn prefix3_eq(a: &str, b: &str) -> (r: bool)
    requires
        a@.len() >= 3,
        b@.len() >= 3,
    ensures
        r == (a@.subrange(0, 3) == b@.subrange(0, 3)),
{
    let mut i: usize = 0;
    while i < 3
        invariant
            i <= 3,
            a@.len() >= 3,
            b@.len() >= 3,
            forall|j: int| 0 <= j < i ==> a@[j] == b@[j],
        decreases 3 - i,
    {
        if a.get_char(i) != b.get_char(i) {
            assert(a@.subrange(0, 3)[i as int] != b@.subrange(0, 3)[i as int]);
            return false;
        }
        i = i + 1;
    }
    assert(a@.subrange(0, 3) =~= b@.subrange(0, 3));
    true
}

} // verus!
