//! The retry policy for connecting to the broker and the remote store.
use vstd::prelude::*;

verus! {

/// How many times a failed connection is retried before giving up.
pub const CONNECT_RETRIES: u32 = 5;

/// The wait before retry `n` (counted from one): one second, doubling
/// with each retry.
pub open spec fn retry_wait(n: nat) -> nat
    decreases n,
{
    if n <= 1 {
        1
    } else {
        2 * retry_wait((n - 1) as nat)
    }
}

/// After `failures` failed attempts to connect: the seconds to wait before
/// trying again, or nothing once every retry is spent.
pub fn retry_delay(failures: u32) -> (r: Option<u64>)
    ensures
        1 <= failures <= CONNECT_RETRIES ==> r == Some(retry_wait(failures as nat) as u64),
        !(1 <= failures <= CONNECT_RETRIES) ==> r is None,
{
    if failures == 0 || failures > CONNECT_RETRIES {
        return None;
    }
    let mut wait: u64 = 1;
    let mut n: u32 = 1;
    while n < failures
        invariant
            1 <= n <= failures <= CONNECT_RETRIES,
            wait == retry_wait(n as nat),
            wait <= 16,
        decreases failures - n,
    {
        assert(retry_wait((n + 1) as nat) == 2 * retry_wait(n as nat));
        assert(n <= 4);
        proof {
            if n == 1 {
                assert(wait == 1);
            } else if n == 2 {
                assert(retry_wait(1) == 1);
            } else if n == 3 {
                assert(retry_wait(1) == 1);
                assert(retry_wait(2) == 2);
            } else {
                assert(retry_wait(1) == 1);
                assert(retry_wait(2) == 2);
                assert(retry_wait(3) == 4);
            }
        }
        wait = wait * 2;
        n = n + 1;
    }
    Some(wait)
}

} // verus!
