//! Subscriber bookkeeping for the notification planes. A subscriber is a
//! remote endpoint with a bitmask of accepted message kinds; one that has
//! not been heard from for fifteen minutes is dropped before the next
//! outbound send. The sockets themselves live outside the core.

use vstd::prelude::*;
use crate::protocol::{mask_contains, spec_mask_contains, MessageKind};

verus! {

/// How long a silent subscriber is kept, in seconds.
pub const SUBSCRIBER_TIMEOUT_S: u64 = 900;

/// A version-four network address, octet by octet.
#[derive(Clone, Copy, Debug, PartialEq, Eq, Structural)]
pub struct IpAddress {
    pub a: u8,
    pub b: u8,
    pub c: u8,
    pub d: u8,
}

/// A remote endpoint registered for notifications.
#[derive(Clone, Copy, Debug, PartialEq, Eq, Structural)]
pub struct SubscriberInfo {
    pub addr: IpAddress,
    pub port: u16,
    pub message_kinds: u32,
    pub last_contact: u64,
}

/// Whether a subscriber is still fresh at `now`: heard from within the
/// timeout (a contact stamped in the future counts as fresh).
pub open spec fn spec_fresh(s: SubscriberInfo, now: u64) -> bool {
    s.last_contact >= now || now - s.last_contact < SUBSCRIBER_TIMEOUT_S
}

/// The subscribers of `s` still fresh at `now`, in order.
pub open spec fn spec_prune(s: Seq<SubscriberInfo>, now: u64) -> Seq<SubscriberInfo>
    decreases s.len(),
{
    if s.len() == 0 {
        Seq::empty()
    } else {
        spec_prune(s.drop_last(), now) + if spec_fresh(s.last(), now) {
            seq![s.last()]
        } else {
            Seq::empty()
        }
    }
}

/// The subscribers of `s` that are not at the given endpoint, in order.
pub open spec fn spec_drop_endpoint(s: Seq<SubscriberInfo>, addr: IpAddress, port: u16)
    -> Seq<SubscriberInfo>
    decreases s.len(),
{
    if s.len() == 0 {
        Seq::empty()
    } else {
        spec_drop_endpoint(s.drop_last(), addr, port) + if s.last().addr == addr
            && s.last().port == port {
            Seq::empty()
        } else {
            seq![s.last()]
        }
    }
}

/// Whether any subscriber of `s` sits at the given endpoint.
pub open spec fn spec_has_endpoint(s: Seq<SubscriberInfo>, addr: IpAddress, port: u16) -> bool
    decreases s.len(),
{
    if s.len() == 0 {
        false
    } else {
        spec_has_endpoint(s.drop_last(), addr, port) || (s.last().addr == addr && s.last().port
            == port)
    }
}

/// The subscribers of `s` with the message kinds of every entry at the
/// given endpoint replaced.
pub open spec fn spec_update_kinds(s: Seq<SubscriberInfo>, info: SubscriberInfo)
    -> Seq<SubscriberInfo>
    decreases s.len(),
{
    if s.len() == 0 {
        Seq::empty()
    } else {
        spec_update_kinds(s.drop_last(), info) + seq![
            if s.last().addr == info.addr && s.last().port == info.port {
                SubscriberInfo { message_kinds: info.message_kinds, ..s.last() }
            } else {
                s.last()
            },
        ]
    }
}

/// The subscribers of `s` with the contact stamp of every entry at the
/// given endpoint set to `now`.
pub open spec fn spec_touch(s: Seq<SubscriberInfo>, addr: IpAddress, port: u16, now: u64)
    -> Seq<SubscriberInfo>
    decreases s.len(),
{
    if s.len() == 0 {
        Seq::empty()
    } else {
        spec_touch(s.drop_last(), addr, port, now) + seq![
            if s.last().addr == addr && s.last().port == port {
                SubscriberInfo { last_contact: now, ..s.last() }
            } else {
                s.last()
            },
        ]
    }
}

/// The subscribers of `s` that accept a kind, in order.
pub open spec fn spec_recipients(s: Seq<SubscriberInfo>, kind: MessageKind)
    -> Seq<SubscriberInfo>
    decreases s.len(),
{
    if s.len() == 0 {
        Seq::empty()
    } else {
        spec_recipients(s.drop_last(), kind) + if spec_mask_contains(
            s.last().message_kinds,
            kind,
        ) {
            seq![s.last()]
        } else {
            Seq::empty()
        }
    }
}

/// Relies on chrono::Utc::now and chrono::DateTime::timestamp: the wall
/// clock's seconds since the epoch, clamped below at zero. The clock is
/// the machine's, so nothing more is promised of the result.
#[verifier::external_body]
pub fn now_epoch_s() -> u64 {
    let t: i64 = chrono::Utc::now().timestamp();
    if t < 0 {
        0
    } else {
        t as u64
    }
}

/// The registered subscribers, owned by a network plane.
pub struct SubscriberTable {
    pub subs: Vec<SubscriberInfo>,
}

impl SubscriberTable {
    /// An empty table.
    pub fn new() -> (r: SubscriberTable)
        ensures
            r.subs@.len() == 0,
    {
        SubscriberTable { subs: Vec::new() }
    }

    /// Register a subscriber: a known endpoint has its message kinds
    /// replaced; an unknown one is appended. Reports whether the
    /// endpoint was already known.
    pub fn subscribe(&mut self, info: SubscriberInfo) -> (known: bool)
        ensures
            known == spec_has_endpoint(old(self).subs@, info.addr, info.port),
            known ==> final(self).subs@ == spec_update_kinds(old(self).subs@, info),
            !known ==> final(self).subs@ == old(self).subs@.push(info),
    {
        let n = self.subs.len();
        let mut out: Vec<SubscriberInfo> = Vec::new();
        let mut found: bool = false;
        let mut i: usize = 0;
        while i < n
            invariant
                n == self.subs@.len(),
                i <= n,
                found == spec_has_endpoint(self.subs@.subrange(0, i as int), info.addr,
                    info.port),
                out@ == spec_update_kinds(self.subs@.subrange(0, i as int), info),
            decreases n - i,
        {
            proof {
                assert(self.subs@.subrange(0, i + 1 as int).drop_last() =~= self.subs@.subrange(
                    0,
                    i as int,
                ));
            }
            let s = self.subs[i];
            if s.addr == info.addr && s.port == info.port {
                out.push(SubscriberInfo { message_kinds: info.message_kinds, ..s });
                found = true;
            } else {
                out.push(s);
            }
            i += 1;
        }
        proof {
            assert(self.subs@.subrange(0, n as int) =~= self.subs@);
            if !found {
                lemma_update_kinds_absent(self.subs@, info);
            }
        }
        if found {
            self.subs = out;
        } else {
            self.subs.push(info);
        }
        found
    }

    /// Remove every subscriber at an endpoint.
    pub fn unsubscribe(&mut self, addr: IpAddress, port: u16)
        ensures
            final(self).subs@ == spec_drop_endpoint(old(self).subs@, addr, port),
    {
        let n = self.subs.len();
        let mut out: Vec<SubscriberInfo> = Vec::new();
        let mut i: usize = 0;
        while i < n
            invariant
                n == self.subs@.len(),
                self.subs@ == old(self).subs@,
                i <= n,
                out@ == spec_drop_endpoint(self.subs@.subrange(0, i as int), addr, port),
            decreases n - i,
        {
            proof {
                assert(self.subs@.subrange(0, i + 1 as int).drop_last() =~= self.subs@.subrange(
                    0,
                    i as int,
                ));
            }
            let s = self.subs[i];
            if !(s.addr == addr && s.port == port) {
                out.push(s);
            }
            i += 1;
        }
        proof {
            assert(self.subs@.subrange(0, n as int) =~= self.subs@);
        }
        self.subs = out;
    }

    /// Stamp fresh contact from an endpoint.
    pub fn touch(&mut self, addr: IpAddress, port: u16, now: u64)
        ensures
            final(self).subs@ == spec_touch(old(self).subs@, addr, port, now),
    {
        let n = self.subs.len();
        let mut out: Vec<SubscriberInfo> = Vec::new();
        let mut i: usize = 0;
        while i < n
            invariant
                n == self.subs@.len(),
                self.subs@ == old(self).subs@,
                i <= n,
                out@ == spec_touch(self.subs@.subrange(0, i as int), addr, port, now),
            decreases n - i,
        {
            proof {
                assert(self.subs@.subrange(0, i + 1 as int).drop_last() =~= self.subs@.subrange(
                    0,
                    i as int,
                ));
            }
            let s = self.subs[i];
            if s.addr == addr && s.port == port {
                out.push(SubscriberInfo { last_contact: now, ..s });
            } else {
                out.push(s);
            }
            i += 1;
        }
        proof {
            assert(self.subs@.subrange(0, n as int) =~= self.subs@);
        }
        self.subs = out;
    }

    /// Drop every subscriber not heard from within the timeout.
    pub fn prune(&mut self, now: u64)
        ensures
            final(self).subs@ == spec_prune(old(self).subs@, now),
    {
        let n = self.subs.len();
        let mut out: Vec<SubscriberInfo> = Vec::new();
        let mut i: usize = 0;
        while i < n
            invariant
                n == self.subs@.len(),
                self.subs@ == old(self).subs@,
                i <= n,
                out@ == spec_prune(self.subs@.subrange(0, i as int), now),
            decreases n - i,
        {
            proof {
                assert(self.subs@.subrange(0, i + 1 as int).drop_last() =~= self.subs@.subrange(
                    0,
                    i as int,
                ));
            }
            let s = self.subs[i];
            if s.last_contact >= now || now - s.last_contact < SUBSCRIBER_TIMEOUT_S {
                out.push(s);
            }
            i += 1;
        }
        proof {
            assert(self.subs@.subrange(0, n as int) =~= self.subs@);
        }
        self.subs = out;
    }

    /// Prune at `now`, then list the subscribers that accept a kind: the
    /// send plan for one outbound notification. A subscriber dropped by
    /// the prune gets nothing.
    pub fn plan_notify(&mut self, now: u64, kind: MessageKind) -> (r: Vec<SubscriberInfo>)
        ensures
            final(self).subs@ == spec_prune(old(self).subs@, now),
            r@ == spec_recipients(spec_prune(old(self).subs@, now), kind),
    {
        self.prune(now);
        let n = self.subs.len();
        let mut r: Vec<SubscriberInfo> = Vec::new();
        let mut i: usize = 0;
        while i < n
            invariant
                n == self.subs@.len(),
                self.subs@ == spec_prune(old(self).subs@, now),
                i <= n,
                r@ == spec_recipients(self.subs@.subrange(0, i as int), kind),
            decreases n - i,
        {
            proof {
                assert(self.subs@.subrange(0, i + 1 as int).drop_last() =~= self.subs@.subrange(
                    0,
                    i as int,
                ));
            }
            let s = self.subs[i];
            if mask_contains(s.message_kinds, kind) {
                r.push(s);
            }
            i += 1;
        }
        proof {
            assert(self.subs@.subrange(0, n as int) =~= self.subs@);
        }
        r
    }
}

/// Updating the kinds of an endpoint no entry sits at changes nothing.
proof fn lemma_update_kinds_absent(s: Seq<SubscriberInfo>, info: SubscriberInfo)
    requires
        !spec_has_endpoint(s, info.addr, info.port),
    ensures
        spec_update_kinds(s, info) == s,
    decreases s.len(),
{
    if s.len() > 0 {
        lemma_update_kinds_absent(s.drop_last(), info);
        assert(spec_update_kinds(s, info) =~= s);
    } else {
        assert(spec_update_kinds(s, info) =~= s);
    }
}

/// The size-class byte opening a binary frame: small messages carry
/// `0xE1`, large ones `0xD2`, so the two layouts cannot be mistaken for
/// one another on the wire.
pub fn frame_class_byte(small: bool) -> (r: u8)
    ensures
        r == if small {
            0xE1u8
        } else {
            0xD2u8
        },
{
    if small {
        0xE1
    } else {
        0xD2
    }
}

/// Prefix an encoded message with its size-class byte.
pub fn frame_message(payload: Vec<u8>, small: bool) -> (r: Vec<u8>)
    ensures
        r@.len() == payload@.len() + 1,
        r@[0] == if small {
            0xE1u8
        } else {
            0xD2u8
        },
        r@.subrange(1, r@.len() as int) == payload@,
{
    let mut r: Vec<u8> = Vec::new();
    r.push(frame_class_byte(small));
    let mut i: usize = 0;
    while i < payload.len()
        invariant
            i <= payload@.len(),
            r@.len() == i + 1,
            r@[0] == if small {
                0xE1u8
            } else {
                0xD2u8
            },
            forall|j: int| 0 <= j < i ==> r@[j + 1] == payload@[j],
        decreases payload@.len() - i,
    {
        r.push(payload[i]);
        i += 1;
    }
    proof {
        assert(r@.subrange(1, r@.len() as int) =~= payload@);
    }
    r
}

/// Read a frame's size-class byte back: `Some(true)` for a small frame,
/// `Some(false)` for a large one, `None` for anything else.
pub fn parse_frame_class(bytes: &Vec<u8>) -> (r: Option<bool>)
    ensures
        r == if bytes@.len() >= 1 && bytes@[0] == 0xE1u8 {
            Some(true)
        } else if bytes@.len() >= 1 && bytes@[0] == 0xD2u8 {
            Some(false)
        } else {
            None::<bool>
        },
{
    if bytes.len() >= 1 && bytes[0] == 0xE1 {
        Some(true)
    } else if bytes.len() >= 1 && bytes[0] == 0xD2 {
        Some(false)
    } else {
        None
    }
}

} // verus!
