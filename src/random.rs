use vstd::prelude::*;

verus! {

/// Relies on rand's `thread_rng` and `Rng::fill`: the slice of `buf` is
/// overwritten in place with random bytes and keeps its length. The thread
/// generator's `try_fill_bytes` always succeeds, so `fill` does not panic
/// once the generator exists.
#[verifier::external_body]
fn fill_random(buf: &mut Vec<u8>)
    ensures
        final(buf)@.len() == old(buf)@.len(),
{
    rand::Rng::fill(&mut rand::thread_rng(), &mut buf[..]);
}

/// A buffer of `length` random bytes, the overwrite data of one range.
pub fn generate_random_array(length: u64) -> (r: Vec<u8>)
    requires
        length <= usize::MAX,
    ensures
        r@.len() == length,
{
    let mut buf: Vec<u8> = vec![0u8; length as usize];
    fill_random(&mut buf);
    buf
}

} // verus!
