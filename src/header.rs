use vstd::prelude::*;

verus! {

/// The header of a call message: when it expires (seconds) and when it was made
/// (milliseconds).
#[derive(Clone, Copy, Debug, PartialEq, Eq, Structural)]
pub struct Header {
    pub expire: u32,
    pub time: u64,
}

/// An expiry that fits the header's 32-bit field.
pub open spec fn header_fits(lifetime: u32, now_ms: u64) -> bool {
    now_ms / 1000 + lifetime <= u32::MAX
}

pub open spec fn header_at(lifetime: u32, now_ms: u64) -> Header {
    Header { expire: (now_ms / 1000 + lifetime) as u32, time: now_ms }
}

/// Builds the header of a call made at `now_ms` that stays valid for `lifetime`
/// seconds; `None` when the expiry does not fit in 32 bits.
pub fn compose_header(lifetime: u32, now_ms: u64) -> (r: Option<Header>)
    ensures
        r is Some <==> header_fits(lifetime, now_ms),
        r matches Some(h) ==> h == header_at(lifetime, now_ms),
{
    let now_s = now_ms / 1000;
    if now_s > (u32::MAX - lifetime) as u64 {
        None
    } else {
        Some(Header { expire: (now_s + lifetime as u64) as u32, time: now_ms })
    }
}

/// A header expires `lifetime` seconds after the moment it was made, and a
/// positive lifetime puts its expiry after its own time.
pub proof fn lemma_header_expires_after_time(lifetime: u32, now_ms: u64)
    requires
        lifetime > 0,
        header_fits(lifetime, now_ms),
    ensures
        header_at(lifetime, now_ms).expire == now_ms / 1000 + lifetime,
        header_at(lifetime, now_ms).time == now_ms,
        header_at(lifetime, now_ms).expire * 1000 > header_at(lifetime, now_ms).time,
{
    let n = now_ms as int;
    let l = lifetime as int;
    assert((n / 1000 + l) * 1000 > n) by (nonlinear_arith)
        requires
            l >= 1,
            n >= 0,
    {
        assert(n == (n / 1000) * 1000 + n % 1000);
        assert(n % 1000 < 1000);
    }
}

} // verus!
