//! The limit on pairing attempts: so many for each address within a minute.

use crate::address::IpAddress;
use crate::clock::{elapsed, elapsed_nanos};
use crate::table::{live_part, Expiring, Table, TableKey};
use vstd::prelude::*;

verus! {

pub const AUTH_ATTEMPT_LIMIT: u32 = 8;

/// One minute.
pub const AUTH_ATTEMPT_WINDOW: u128 = 60_000_000_000;

pub const MAX_AUTH_ATTEMPT_ADDRESSES: usize = 1_024;

impl TableKey for IpAddress {
    type Id = IpAddress;

    open spec fn id(&self) -> IpAddress {
        *self
    }

    fn same(&self, other: &Self) -> (same: bool) {
        *self == *other
    }
}

/// The attempts of one address since the first of them.
#[derive(Debug, Clone, Copy, PartialEq, Eq, Structural)]
pub struct AuthAttemptWindow {
    pub started: u128,
    pub attempts: u32,
}

impl Expiring for AuthAttemptWindow {
    open spec fn live(self, now: u128) -> bool {
        elapsed(self.started, now) < AUTH_ATTEMPT_WINDOW
    }

    fn is_live(self, now: u128) -> (live: bool) {
        elapsed_nanos(self.started, now) < AUTH_ATTEMPT_WINDOW
    }
}

/// The windows of all addresses.
pub type Windows = Map<IpAddress, AuthAttemptWindow>;

/// The window of an address, or a new one.
pub open spec fn window_of(windows: Windows, remote: IpAddress, now: u128) -> AuthAttemptWindow {
    if windows.contains_key(remote) {
        windows[remote]
    } else {
        AuthAttemptWindow { started: now, attempts: 0 }
    }
}

/// Whether an address may make another attempt: it has made fewer than the limit in its window,
/// and a new address finds room.
pub open spec fn attempt_allowed(windows: Windows, remote: IpAddress, now: u128) -> bool {
    let live = live_part(windows, now);
    (live.contains_key(remote) || live.len() < MAX_AUTH_ATTEMPT_ADDRESSES) && window_of(
        live,
        remote,
        now,
    ).attempts < AUTH_ATTEMPT_LIMIT
}

/// The windows after an attempt. A refused attempt does not count.
pub open spec fn attempted(windows: Windows, remote: IpAddress, now: u128) -> Windows {
    let live = live_part(windows, now);
    let window = window_of(live, remote, now);
    if attempt_allowed(windows, remote, now) {
        live.insert(
            remote,
            AuthAttemptWindow { started: window.started, attempts: (window.attempts + 1) as u32 },
        )
    } else {
        live
    }
}

/// The attempts of all addresses.
pub struct AuthAttempts {
    windows: Table<IpAddress, AuthAttemptWindow>,
}

impl View for AuthAttempts {
    type V = Windows;

    closed spec fn view(&self) -> Windows {
        self.windows@
    }
}

impl AuthAttempts {
    pub fn new() -> (attempts: Self)
        ensures
            attempts@ == Windows::empty(),
    {
        AuthAttempts { windows: Table::new() }
    }

    /// Makes an attempt, and says whether it is allowed.
    pub fn allow_at(&mut self, remote: IpAddress, now: u128) -> (allowed: bool)
        ensures
            allowed == attempt_allowed(old(self)@, remote, now),
            final(self)@ == attempted(old(self)@, remote, now),
    {
        self.windows.retain_live(now);
        let window = match self.windows.get(&remote) {
            Some(window) => window,
            None => {
                if self.windows.len() >= MAX_AUTH_ATTEMPT_ADDRESSES {
                    return false;
                }
                AuthAttemptWindow { started: now, attempts: 0 }
            },
        };
        if window.attempts >= AUTH_ATTEMPT_LIMIT {
            return false;
        }
        self.windows.insert(
            remote,
            AuthAttemptWindow { started: window.started, attempts: window.attempts + 1 },
        );
        true
    }

    /// Forgets the attempts of an address.
    pub fn clear(&mut self, remote: IpAddress)
        ensures
            final(self)@ == old(self)@.remove(remote),
    {
        self.windows.remove(&remote);
    }
}

/// The windows after a series of attempts, each by an address at a time.
pub open spec fn after_attempts(windows: Windows, attempts: Seq<(IpAddress, u128)>) -> Windows
    decreases attempts.len(),
{
    if attempts.len() == 0 {
        windows
    } else {
        let (remote, now) = attempts.last();
        attempted(after_attempts(windows, attempts.drop_last()), remote, now)
    }
}

/// How many attempts of a series by one address are allowed.
pub open spec fn allowed_count(
    windows: Windows,
    attempts: Seq<(IpAddress, u128)>,
    address: IpAddress,
) -> nat
    decreases attempts.len(),
{
    if attempts.len() == 0 {
        0
    } else {
        let (remote, now) = attempts.last();
        let before = after_attempts(windows, attempts.drop_last());
        allowed_count(windows, attempts.drop_last(), address) + if remote == address
            && attempt_allowed(before, remote, now) {
            1nat
        } else {
            0
        }
    }
}

/// Every attempt of a series lies within a minute from a time.
pub open spec fn within_a_window(attempts: Seq<(IpAddress, u128)>, start: u128) -> bool {
    forall|i: int|
        0 <= i < attempts.len() ==> start <= (#[trigger] attempts[i]).1 < start
            + AUTH_ATTEMPT_WINDOW
}

/// The window of an address counts what was allowed since it had none.
proof fn lemma_window_counts(
    windows: Windows,
    attempts: Seq<(IpAddress, u128)>,
    address: IpAddress,
    start: u128,
)
    requires
        within_a_window(attempts, start),
        !windows.contains_key(address),
    ensures
        ({
            let after = after_attempts(windows, attempts);
            let count = allowed_count(windows, attempts, address);
            &&& count <= AUTH_ATTEMPT_LIMIT
            &&& after.contains_key(address) == (count > 0)
            &&& after.contains_key(address) ==> after[address].attempts == count
                && after[address].started >= start
        }),
    decreases attempts.len(),
{
    if attempts.len() > 0 {
        let rest = attempts.drop_last();
        assert forall|i: int| 0 <= i < rest.len() implies start <= (#[trigger] rest[i]).1 < start
            + AUTH_ATTEMPT_WINDOW by {
            assert(rest[i] == attempts[i]);
        }
        lemma_window_counts(windows, rest, address, start);
        let (remote, now) = attempts.last();
        assert(attempts[attempts.len() - 1] == (remote, now));
        let before = after_attempts(windows, rest);
        let live = live_part(before, now);
        if before.contains_key(address) {
            assert(before[address].live(now));
            assert(live.contains_key(address) && live[address] == before[address]);
        } else {
            assert(!live.contains_key(address));
        }
    }
}

/// An address that starts with a clean slate gets no more than the limit within a minute, however
/// many attempts it and all other addresses make.
pub proof fn law_attempts_are_limited(
    windows: Windows,
    attempts: Seq<(IpAddress, u128)>,
    address: IpAddress,
    start: u128,
)
    requires
        within_a_window(attempts, start),
        !windows.contains_key(address),
    ensures
        allowed_count(windows, attempts, address) <= AUTH_ATTEMPT_LIMIT,
{
    lemma_window_counts(windows, attempts, address, start);
}

/// An address is not held up by others: as long as there is room for its window, it gets its first
/// attempt.
pub proof fn law_first_attempt_is_allowed(windows: Windows, remote: IpAddress, now: u128)
    requires
        !live_part(windows, now).contains_key(remote),
        live_part(windows, now).len() < MAX_AUTH_ATTEMPT_ADDRESSES,
    ensures
        attempt_allowed(windows, remote, now),
{
}

/// Once its attempts are forgotten, an address may try again.
pub proof fn law_cleared_address_may_try_again(windows: Windows, remote: IpAddress, now: u128)
    requires
        windows.dom().finite(),
        windows.contains_key(remote),
        windows.len() <= MAX_AUTH_ATTEMPT_ADDRESSES,
    ensures
        attempt_allowed(windows.remove(remote), remote, now),
{
    let rest = windows.remove(remote);
    assert(rest.dom() =~= windows.dom().remove(remote));
    vstd::set_lib::lemma_len_subset(live_part(rest, now).dom(), rest.dom());
    assert(!live_part(rest, now).contains_key(remote));
}

/// The number of remembered addresses stays within its limit.
pub proof fn law_addresses_stay_bounded(windows: Windows, remote: IpAddress, now: u128)
    requires
        windows.dom().finite(),
        windows.len() <= MAX_AUTH_ATTEMPT_ADDRESSES,
    ensures
        attempted(windows, remote, now).dom().finite(),
        attempted(windows, remote, now).len() <= MAX_AUTH_ATTEMPT_ADDRESSES,
{
    let live = live_part(windows, now);
    vstd::set_lib::lemma_len_subset(live.dom(), windows.dom());
    let after = attempted(windows, remote, now);
    if attempt_allowed(windows, remote, now) {
        assert(after.dom() =~= live.dom().insert(remote));
    }
}

/// An address gets eight attempts in the minute from its first one: a ninth is refused until the
/// minute is over, and then the count begins again. A refused attempt does not count, and the
/// attempts of one address are no other's.
pub proof fn law_eight_attempts_a_minute(
    windows: Windows,
    remote: IpAddress,
    other: IpAddress,
    now: u128,
)
    requires
        windows.contains_key(remote) ==> windows[remote].started <= now,
    ensures
        ({
            let after = attempted(windows, remote, now);
            let running = windows.contains_key(remote) && now - windows[remote].started
                < 60_000_000_000;
            &&& running ==> {
                &&& attempt_allowed(windows, remote, now) <==> windows[remote].attempts < 8
                &&& after.contains_key(remote)
                &&& after[remote].started == windows[remote].started
                &&& after[remote].attempts == windows[remote].attempts + if windows[remote].attempts
                    < 8 {
                    1int
                } else {
                    0
                }
            }
            &&& !running && attempt_allowed(windows, remote, now) ==> {
                &&& after.contains_key(remote)
                &&& after[remote].started == now
                &&& after[remote].attempts == 1
            }
            &&& !running && !attempt_allowed(windows, remote, now) ==> live_part(
                windows,
                now,
            ).len() >= 1_024
            &&& other != remote ==> {
                &&& after.contains_key(other) == live_part(windows, now).contains_key(other)
                &&& after.contains_key(other) ==> after[other] == windows[other]
            }
        }),
{
    let live = live_part(windows, now);
    crate::table::law_live_part(windows, now, remote);
    crate::table::law_live_part(windows, now, other);
}

} // verus!
