use vstd::prelude::*;

verus! {

/// Creates a zeroed out `u8` array of size `N`.
pub fn zeroed<const N: usize>() -> (arr: [u8; N])
    ensures
        forall|i: int| 0 <= i < N ==> arr@[i] == 0,
{
    let mut arr = [0u8; N];
    let mut idx: usize = 0;
    while idx < N
        invariant
            arr@.len() == N,
            forall|i: int| 0 <= i < N ==> arr@[i] == 0,
        decreases N - idx,
    {
        arr[idx] = 0;
        idx += 1;
    }
    arr
}

/// Whether two strings hold the same characters.
pub fn str_eq(a: &str, b: &str) -> (r: bool)
    ensures
        r == (a@ == b@),
{
    let n = a.unicode_len();
    if n != b.unicode_len() {
        return false;
    }
    let mut i: usize = 0;
    while i < n
        invariant
            n == a@.len(),
            n == b@.len(),
            i <= n,
            forall|j: int| 0 <= j < i ==> a@[j] == b@[j],
        decreases n - i,
    {
        if a.get_char(i) != b.get_char(i) {
            return false;
        }
        i += 1;
    }
    assert(a@ =~= b@);
    true
}

/// Relies on `ToString` for `char`: the string holds that one character.
#[verifier::external_body]
pub(crate) fn char_to_string(c: char) -> (r: String)
    ensures
        r@ == seq![c],
{
    c.to_string()
}

} // verus!
