use vstd::prelude::*;

verus! {

/// A user is on cooldown while a marker exists whose expiry lies after `now`.
pub open spec fn on_cooldown(marker: Option<i64>, now: int) -> bool {
    match marker {
        Some(expires_at) => expires_at > now,
        None => false,
    }
}

/// Whether a cooldown armed at `now` for `cooldown_secs` seconds has an
/// expiry that an `i64` can hold.
pub open spec fn expiry_fits(now: int, cooldown_secs: int) -> bool {
    i64::MIN <= now + cooldown_secs <= i64::MAX
}

/// Tells whether the stored marker still debounces events at time `now`.
pub fn is_on_cooldown(marker: Option<i64>, now: i64) -> (r: bool)
    ensures
        r == on_cooldown(marker, now as int),
{
    match marker {
        Some(expires_at) => expires_at > now,
        None => false,
    }
}

/// The expiry to store when arming a cooldown at `now`, or `None` where it
/// leaves the range of an `i64`.
pub fn cooldown_expiry(now: i64, cooldown_secs: i64) -> (r: Option<i64>)
    ensures
        r.is_some() <==> expiry_fits(now as int, cooldown_secs as int),
        r matches Some(e) ==> e == now + cooldown_secs,
{
    now.checked_add(cooldown_secs)
}

/// The marker that an accepted event arms keeps every later event before its
/// expiry on cooldown, so an event replayed while it stands changes nothing.
pub proof fn lemma_armed_marker_blocks_replay(now: int, cooldown_secs: int, later: int)
    requires
        expiry_fits(now, cooldown_secs),
        cooldown_secs > 0,
        now <= later < now + cooldown_secs,
    ensures
        on_cooldown(Some((now + cooldown_secs) as i64), later),
{
}

} // verus!
