//! Small helpers for building byte strings.
use vstd::prelude::*;

verus! {

/// Append every byte of `s` to `out`.
pub fn append_slice(out: &mut Vec<u8>, s: &[u8])
    ensures
        final(out)@ == old(out)@ + s@,
{
    let mut k: usize = 0;
    while k < s.len()
        invariant
            k <= s@.len(),
            out@ == old(out)@ + s@.subrange(0, k as int),
        decreases s@.len() - k,
    {
        out.push(s[k]);
        proof {
            assert(old(out)@ + s@.subrange(0, k + 1) =~= (old(out)@ + s@.subrange(0, k as int)).push(
                s@[k as int],
            ));
        }
        k = k + 1;
    }
    proof {
        assert(s@.subrange(0, s@.len() as int) =~= s@);
    }
}

/// Append every byte of `s` to `out`.
pub fn append_vec(out: &mut Vec<u8>, s: &Vec<u8>)
    ensures
        final(out)@ == old(out)@ + s@,
{
    append_slice(out, s.as_slice());
}

} // verus!
