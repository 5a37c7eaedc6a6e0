//! A token bucket that paces discovery polling. Refill is lazy: it is worked
//! out from the time elapsed whenever tokens are asked for.
use vstd::prelude::*;

use crate::text::{decimal, u64_to_decimal};

verus! {

#[verifier::external_type_specification]
#[verifier::external_body]
pub struct ExInstant(tokio::time::Instant);

/// Relies on `tokio::time::Instant::now`: the current instant of tokio's clock.
#[verifier::external_body]
fn instant_now() -> (r: tokio::time::Instant) {
    tokio::time::Instant::now()
}

/// Relies on `tokio::time::Instant::elapsed` and `Duration::as_secs`: whole
/// seconds elapsed since `since`, which depend on the clock.
#[verifier::external_body]
fn elapsed_secs(since: &tokio::time::Instant) -> (r: u64) {
    since.elapsed().as_secs()
}

/// Tokens available after `elapsed` seconds of refill, never above the capacity.
pub open spec fn refilled(available: nat, capacity: nat, quantum: nat, elapsed: nat) -> nat {
    if available + elapsed * quantum < capacity {
        available + elapsed * quantum
    } else {
        capacity
    }
}

/// Text of the error for a request above the capacity.
pub open spec fn exceeded_message(requested: u64, capacity: u64) -> Seq<char> {
    "Number of requested token ("@ + decimal(requested as nat) + ") is greater than the capacity ("@
        + decimal(capacity as nat) + ") of the token bucket"@
}

/// A request for more tokens than the bucket can ever hold.
#[derive(Debug, PartialEq, Eq, Clone, Copy, Structural)]
pub struct RateLimitExceeded {
    pub requested: u64,
    pub capacity: u64,
}

impl RateLimitExceeded {
    pub fn to_string(&self) -> (r: String)
        ensures
            r@ == exceeded_message(self.requested, self.capacity),
    {
        let mut s = "Number of requested token (".to_string();
        s.append(u64_to_decimal(self.requested).as_str());
        s.append(") is greater than the capacity (");
        s.append(u64_to_decimal(self.capacity).as_str());
        s.append(") of the token bucket");
        s
    }
}

pub struct TokenBucket {
    /// Most tokens the bucket holds; also what it holds at the start.
    pub capacity: u64,
    /// Tokens added per second.
    pub quantum: u64,
    /// Tokens available as of `last`.
    pub available: u64,
    /// When `available` was last worked out.
    pub last: tokio::time::Instant,
}

impl TokenBucket {
    /// The available tokens never exceed the capacity.
    pub open spec fn wf(&self) -> bool {
        self.available <= self.capacity
    }

    /// A full bucket.
    pub fn new(capacity: u64, quantum: u64) -> (r: TokenBucket)
        ensures
            r.wf(),
            r.capacity == capacity,
            r.quantum == quantum,
            r.available == capacity,
    {
        TokenBucket { capacity, quantum, available: capacity, last: instant_now() }
    }

    /// Tokens that would be available after `elapsed` more seconds.
    pub fn available_token_since(&self, elapsed: u64) -> (r: u64)
        ensures
            r == refilled(self.available as nat, self.capacity as nat, self.quantum as nat, elapsed as nat),
    {
        match elapsed.checked_mul(self.quantum) {
            None => {
                assert(elapsed * self.quantum > u64::MAX);
                self.capacity
            },
            Some(added) => match self.available.checked_add(added) {
                None => self.capacity,
                Some(total) => if total < self.capacity {
                    total
                } else {
                    self.capacity
                },
            },
        }
    }

    /// Takes `token` tokens out and restarts the refill clock.
    pub fn update_counter(&mut self, token: u64)
        requires
            token <= old(self).available,
        ensures
            final(self).available == old(self).available - token,
            final(self).capacity == old(self).capacity,
            final(self).quantum == old(self).quantum,
    {
        self.available = self.available - token;
        self.last = instant_now();
    }

    /// Time to wait, as whole seconds and nanoseconds, until `token` tokens
    /// have come in, starting from what is available now.
    pub fn compute_wait_duration(&self, token: u64) -> (r: (u64, u32))
        requires
            self.available <= token,
            self.quantum > 0,
        ensures
            r.0 == (token - self.available) / (self.quantum as int),
            r.1 == ((token - self.available) % (self.quantum as int)) * 1_000_000_000 / (self.quantum as int),
            r.1 < 1_000_000_000,
    {
        let token_needed: u64 = token - self.available;
        let secs = token_needed / self.quantum;
        let rest = (token_needed % self.quantum) as u128;
        assert(rest < self.quantum);
        assert(rest * 1_000_000_000 < (self.quantum as u128) * 1_000_000_000) by (nonlinear_arith)
            requires rest < self.quantum;
        let q = self.quantum as u128;
        let nanos = rest * 1_000_000_000 / q;
        assert(rest * 1_000_000_000 / (q as int) < 1_000_000_000) by (nonlinear_arith)
            requires rest < q, q > 0;
        (secs, nanos as u32)
    }

    /// Refills from `elapsed` seconds and takes `token` tokens if there are
    /// enough. `Ok(true)` means the caller has to wait; a request above the
    /// capacity fails and changes nothing.
    pub fn need_to_wait_after(&mut self, token: u64, elapsed: u64) -> (r: Result<bool, RateLimitExceeded>)
        requires
            old(self).wf(),
        ensures
            final(self).wf(),
            final(self).capacity == old(self).capacity,
            final(self).quantum == old(self).quantum,
            old(self).capacity < token ==> r == Err::<bool, RateLimitExceeded>(
                RateLimitExceeded { requested: token, capacity: old(self).capacity },
            ) && *final(self) == *old(self),
            token == 0 ==> r == Ok::<bool, RateLimitExceeded>(false) && *final(self) == *old(self),
            // When the caller has to wait, the refill clock keeps running from where it was.
            r == Ok::<bool, RateLimitExceeded>(true) ==> final(self).last == old(self).last,
            ({
                let now = refilled(old(self).available as nat, old(self).capacity as nat, old(self).quantum as nat, elapsed as nat);
                0 < token <= old(self).capacity ==> {
                    &&& now >= token ==> r == Ok::<bool, RateLimitExceeded>(false) && final(self).available == now - token
                    &&& now < token ==> r == Ok::<bool, RateLimitExceeded>(true) && final(self).available == now
                }
            }),
    {
        if self.capacity < token {
            return Err(RateLimitExceeded { requested: token, capacity: self.capacity });
        }
        if token == 0 {
            return Ok(false);
        }
        self.available = self.available_token_since(elapsed);
        if self.available >= token {
            self.update_counter(token);
            return Ok(false);
        }
        Ok(true)
    }

    /// Refills from the time elapsed since the last refill and takes `token`
    /// tokens if there are enough. `Ok(true)` means the caller has to wait.
    pub fn need_to_wait(&mut self, token: u64) -> (r: Result<bool, RateLimitExceeded>)
        requires
            old(self).wf(),
        ensures
            final(self).wf(),
            final(self).capacity == old(self).capacity,
            final(self).quantum == old(self).quantum,
            old(self).capacity < token ==> r == Err::<bool, RateLimitExceeded>(
                RateLimitExceeded { requested: token, capacity: old(self).capacity },
            ) && *final(self) == *old(self),
            token == 0 ==> r == Ok::<bool, RateLimitExceeded>(false) && *final(self) == *old(self),
            // When the caller has to wait, the refill clock keeps running from where it was.
            r == Ok::<bool, RateLimitExceeded>(true) ==> final(self).last == old(self).last,
            0 < token <= old(self).capacity ==> exists|elapsed: nat| {
                let now = #[trigger] refilled(old(self).available as nat, old(self).capacity as nat, old(self).quantum as nat, elapsed);
                &&& now >= token ==> r == Ok::<bool, RateLimitExceeded>(false) && final(self).available == now - token
                &&& now < token ==> r == Ok::<bool, RateLimitExceeded>(true) && final(self).available == now
            },
    {
        if self.capacity < token {
            return Err(RateLimitExceeded { requested: token, capacity: self.capacity });
        }
        if token == 0 {
            return Ok(false);
        }
        let elapsed = elapsed_secs(&self.last);
        let r = self.need_to_wait_after(token, elapsed);
        assert(r is Ok);
        r
    }

    /// Marks the end of a wait: what was waited for has been used up.
    pub fn finish_wait(&mut self)
        ensures
            final(self).available == 0,
            final(self).capacity == old(self).capacity,
            final(self).quantum == old(self).quantum,
    {
        self.available = 0;
        self.last = instant_now();
    }
}

} // verus!
