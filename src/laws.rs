//! Properties that relate several operations of the controller.
use vstd::prelude::*;
use crate::engine::expired_in;
use crate::firewall::{has_id, live_ban, live_limit, Firewall};
use crate::types::{Address, Config, FirewallRule};

verus! {

/// At most one entry of `rules` satisfies `live`.
pub open spec fn at_most_one(rules: Seq<FirewallRule>, live: spec_fn(FirewallRule) -> bool) -> bool {
    forall|i: int, j: int| 0 <= i < rules.len() && 0 <= j < rules.len() && live(#[trigger] rules[i])
        && live(#[trigger] rules[j]) ==> i == j
}

/// One install step keeps at most one entry in force per address and kind. A step either
/// reuses an entry (the registry stays as it was) or, finding none in force, records one
/// new entry after dropping at most one old one; `live` says which entries are in force
/// (`live_ban`, `live_limit` for the step's address, duration and time).
pub proof fn lemma_single_live(
    before: Seq<FirewallRule>,
    after: Seq<FirewallRule>,
    live: spec_fn(FirewallRule) -> bool,
)
    requires
        at_most_one(before, live),
        after == before || {
            &&& forall|i: int| 0 <= i < before.len() ==> !live(#[trigger] before[i])
            &&& after.len() > 0
            &&& (after.drop_last() == before
                || exists|k: int| 0 <= k < before.len() && after.drop_last() == before.remove(k))
        },
    ensures
        at_most_one(after, live),
{
    if after != before {
        let mid = after.drop_last();
        assert forall|i: int| 0 <= i < mid.len() implies !live(#[trigger] mid[i]) by {
            if mid != before {
                let k = choose|k: int| 0 <= k < before.len() && mid == before.remove(k);
                assert(mid[i] == before[if i < k { i } else { i + 1 }]);
            }
        }
        assert forall|i: int, j: int| 0 <= i < after.len() && 0 <= j < after.len() && live(#[trigger] after[i])
            && live(#[trigger] after[j]) implies i == j by {
            if i < after.len() - 1 {
                assert(after[i] == mid[i]);
            }
            if j < after.len() - 1 {
                assert(after[j] == mid[j]);
            }
        }
    }
}

/// The ban form of the previous law, for an address, duration and time.
pub proof fn lemma_single_live_ban(
    before: Seq<FirewallRule>,
    after: Seq<FirewallRule>,
    ip: Address,
    seconds: u64,
    now: i64,
)
    requires
        at_most_one(before, |r: FirewallRule| live_ban(r, ip, seconds, now)),
        after == before || {
            &&& forall|i: int| 0 <= i < before.len() ==> !live_ban(#[trigger] before[i], ip, seconds, now)
            &&& after.len() > 0
            &&& (after.drop_last() == before
                || exists|k: int| 0 <= k < before.len() && after.drop_last() == before.remove(k))
        },
    ensures
        at_most_one(after, |r: FirewallRule| live_ban(r, ip, seconds, now)),
{
    lemma_single_live(before, after, |r: FirewallRule| live_ban(r, ip, seconds, now));
}

/// The rate-limit form, for an address, rate, duration and time.
pub proof fn lemma_single_live_limit(
    before: Seq<FirewallRule>,
    after: Seq<FirewallRule>,
    ip: Address,
    kbps: u64,
    seconds: u64,
    now: i64,
)
    requires
        at_most_one(before, |r: FirewallRule| live_limit(r, ip, kbps, seconds, now)),
        after == before || {
            &&& forall|i: int| 0 <= i < before.len() ==> !live_limit(#[trigger] before[i], ip, kbps, seconds, now)
            &&& after.len() > 0
            &&& (after.drop_last() == before
                || exists|k: int| 0 <= k < before.len() && after.drop_last() == before.remove(k))
        },
    ensures
        at_most_one(after, |r: FirewallRule| live_limit(r, ip, kbps, seconds, now)),
{
    lemma_single_live(before, after, |r: FirewallRule| live_limit(r, ip, kbps, seconds, now));
}

/// An id that the registry no longer holds (as after `finish_unblock`) is never reported
/// expired again, so the expiration sweep unblocks each rule at most once.
pub proof fn lemma_gone_never_expired(fw: Firewall, id: Seq<char>, seconds: u64, now: i64)
    requires
        !has_id(fw.rules@, id),
    ensures
        !expired_in(fw, id, seconds, now),
{
}

/// Two controllers built from one configuration send the same initialisation batch, so
/// initialising twice leaves the firewall in one state.
pub proof fn lemma_init_idempotent(a: Firewall, b: Firewall, cfg: Config)
    requires
        a.configured_by(cfg),
        b.configured_by(cfg),
    ensures
        a.init_batch() == b.init_batch(),
{
}

} // verus!
