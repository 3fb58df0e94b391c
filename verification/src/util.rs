//! Small helpers shared by the resolver's modules.

use vstd::prelude::*;

verus! {

/// The same elements in reverse order.  Consuming loops pop from the end of
/// the reversed vector to take ownership of elements in original order.
pub fn reverse_vec<T>(v: Vec<T>) -> (r: Vec<T>)
    ensures
        r@ == v@.reverse(),
{
    let ghost g_v0 = v@;
    let mut v = v;
    let mut r: Vec<T> = Vec::new();
    while v.len() > 0
        invariant
            v@ == g_v0.subrange(0, v@.len() as int),
            r@ == g_v0.subrange(v@.len() as int, g_v0.len() as int).reverse(),
            v@.len() <= g_v0.len(),
        decreases v@.len(),
    {
        let ghost g_pre = v@;
        let last = match v.pop() {
            Some(x) => x,
            None => {
                proof {
                    assert(false);
                }
                unreached()
            },
        };
        r.push(last);
        proof {
            assert(v@ =~= g_v0.subrange(0, v@.len() as int));
            assert(r@ =~= g_v0.subrange(v@.len() as int, g_v0.len() as int).reverse());
        }
    }
    proof {
        assert(r@ =~= g_v0.reverse());
    }
    r
}

/// Whether two string slices hold the same text.
pub fn str_eq(a: &str, b: &str) -> (r: bool)
    ensures
        r == (a@ == b@),
{
    let sa = a.to_owned();
    let sb = b.to_owned();
    sa == sb
}

} // verus!
