use vstd::prelude::*;

verus! {

broadcast use vstd::seq_lib::group_seq_properties;

use std::sync::Arc;
use crate::converter::CharacteristicValue;
use crate::events::CharacteristicPayload;
use crate::model::arc_clone;
use crate::model::Fqcn;

/// One stored reading: its creation time (epoch milliseconds) and value.
#[derive(Debug, PartialEq)]
pub struct DataPoint {
    pub ts: u64,
    pub value: Arc<CharacteristicValue>,
}

impl Clone for DataPoint {
    fn clone(&self) -> (r: Self)
        ensures
            r == *self,
    {
        DataPoint { ts: self.ts, value: arc_clone(&self.value) }
    }
}

/// One characteristic's recent history: its configured name, the bounded
/// ring of latest readings, and how many updates ever arrived.
#[derive(Debug)]
pub struct CharacteristicStorage {
    pub name: Option<String>,
    pub values: Vec<DataPoint>,
    pub num_updates: usize,
}

/// Update bookkeeping kept per peripheral and per service.
#[derive(Debug, Clone, Copy, PartialEq, Eq, Structural)]
pub struct UpdateMeta {
    pub updated_at: u64,
    pub num_updates: usize,
}

/// The ring after one more point arrives: the oldest entries fall out so
/// that at most `history_size` stay.
pub open spec fn spec_ring_after(values: Seq<DataPoint>, p: DataPoint, history_size: nat) -> Seq<
    DataPoint,
> {
    let all = values.push(p);
    if all.len() <= history_size {
        all
    } else {
        all.skip(all.len() - history_size)
    }
}

/// A saturating count of updates.
pub open spec fn spec_bump(n: usize) -> usize {
    if n < usize::MAX {
        (n + 1) as usize
    } else {
        n
    }
}

/// The counter after one more update: one for a fresh entry, bumped else.
pub open spec fn spec_bump_opt(n: Option<usize>) -> usize {
    match n {
        Some(v) => spec_bump(v),
        None => 1,
    }
}

/// The bookkeeping counter after one more update.
pub open spec fn spec_bump_meta(m: Option<UpdateMeta>) -> usize {
    match m {
        Some(u) => spec_bump(u.num_updates),
        None => 1,
    }
}

/// The in-memory time-series store behind the data endpoint: per
/// characteristic a bounded FIFO ring of the latest readings, and update
/// counters per peripheral and per service.
#[derive(Debug)]
pub struct ApiPublisher {
    pub rings: Vec<(Fqcn, CharacteristicStorage)>,
    pub peripheral_meta: Vec<(u64, UpdateMeta)>,
    pub service_meta: Vec<(u64, u128, UpdateMeta)>,
}

impl ApiPublisher {
    /// One ring per characteristic, one counter per peripheral and service.
    pub open spec fn wf(self) -> bool {
        (forall|i: int, j: int|
            0 <= i < j < self.rings@.len() ==> (#[trigger] self.rings@[i]).0 != (
            #[trigger] self.rings@[j]).0) && (forall|i: int, j: int|
            0 <= i < j < self.peripheral_meta@.len() ==> (#[trigger] self.peripheral_meta@[i]).0
                != (#[trigger] self.peripheral_meta@[j]).0) && (forall|i: int, j: int|
            0 <= i < j < self.service_meta@.len() ==> ((#[trigger] self.service_meta@[i]).0, (
            self.service_meta@[i]).1) != ((#[trigger] self.service_meta@[j]).0, (
            self.service_meta@[j]).1))
    }

    pub open spec fn spec_ring_of(self, fqcn: Fqcn) -> Option<Seq<DataPoint>> {
        if exists|i: int| 0 <= i < self.rings@.len() && (#[trigger] self.rings@[i]).0 == fqcn {
            let i = choose|i: int|
                0 <= i < self.rings@.len() && (#[trigger] self.rings@[i]).0 == fqcn;
            Some(self.rings@[i].1.values@)
        } else {
            None
        }
    }

    /// The stored update count for one characteristic, when a ring exists.
    pub open spec fn spec_updates_of(self, fqcn: Fqcn) -> Option<usize> {
        if exists|i: int| 0 <= i < self.rings@.len() && (#[trigger] self.rings@[i]).0 == fqcn {
            let i = choose|i: int|
                0 <= i < self.rings@.len() && (#[trigger] self.rings@[i]).0 == fqcn;
            Some(self.rings@[i].1.num_updates)
        } else {
            None
        }
    }

    /// The stored bookkeeping for one peripheral, when any exists.
    pub open spec fn spec_peripheral_meta_of(self, address: u64) -> Option<UpdateMeta> {
        if exists|i: int|
            0 <= i < self.peripheral_meta@.len() && (#[trigger] self.peripheral_meta@[i]).0
                == address {
            let i = choose|i: int|
                0 <= i < self.peripheral_meta@.len() && (#[trigger] self.peripheral_meta@[i]).0
                    == address;
            Some(self.peripheral_meta@[i].1)
        } else {
            None
        }
    }

    /// The stored bookkeeping for one service of one peripheral.
    pub open spec fn spec_service_meta_of(self, address: u64, service: u128) -> Option<
        UpdateMeta,
    > {
        if exists|i: int|
            0 <= i < self.service_meta@.len() && (#[trigger] self.service_meta@[i]).0 == address
                && self.service_meta@[i].1 == service {
            let i = choose|i: int|
                0 <= i < self.service_meta@.len() && (#[trigger] self.service_meta@[i]).0
                    == address && self.service_meta@[i].1 == service;
            Some(self.service_meta@[i].2)
        } else {
            None
        }
    }

    pub fn new() -> (r: Self)
        ensures
            r.rings@.len() == 0,
            r.peripheral_meta@.len() == 0,
            r.service_meta@.len() == 0,
            r.wf(),
    {
        ApiPublisher { rings: Vec::new(), peripheral_meta: Vec::new(), service_meta: Vec::new() }
    }

    /// The readings stored for one characteristic, oldest first.
    #[verifier::loop_isolation(false)]
    pub fn ring_of(&self, fqcn: Fqcn) -> (r: Option<&Vec<DataPoint>>)
        requires
            self.wf(),
        ensures
            r is Some <==> self.spec_ring_of(fqcn) is Some,
            r matches Some(v) ==> self.spec_ring_of(fqcn) == Some(v@),
    {
        let mut i: usize = 0;
        while i < self.rings.len()
            invariant
                i <= self.rings@.len(),
                forall|j: int| 0 <= j < i ==> (#[trigger] self.rings@[j]).0 != fqcn,
            decreases self.rings@.len() - i,
        {
            if self.rings[i].0 == fqcn {
                proof {
                    let w = choose|w: int|
                        0 <= w < self.rings@.len() && (#[trigger] self.rings@[w]).0 == fqcn;
                    assert(w == i as int);
                }
                return Some(&self.rings[i].1.values);
            }
            i = i + 1;
        }
        None
    }

    /// Stores one payload: the point joins its characteristic's ring, the
    /// ring is trimmed to the configured history size, the name follows the
    /// configuration, and all three update counters advance. The ring never
    /// exceeds the characteristic's history size afterwards.
    #[verifier::loop_isolation(false)]
    pub fn process(&mut self, payload: &CharacteristicPayload)
        requires
            old(self).wf(),
        ensures
            final(self).wf(),
            exists|i: int|
                0 <= i < final(self).rings@.len() && (#[trigger] final(self).rings@[i]).0
                    == payload.fqcn && final(self).rings@[i].1.values@ == spec_ring_after(
                    match old(self).spec_ring_of(payload.fqcn) {
                        Some(v) => v,
                        None => Seq::empty(),
                    },
                    DataPoint { ts: payload.created_at, value: payload.value },
                    payload.conf.spec_history_size() as nat,
                ) && final(self).rings@[i].1.values@.len()
                    <= payload.conf.spec_history_size() && final(self).rings@[i].1.name
                    == payload.conf.spec_name() && final(self).rings@[i].1.num_updates
                    == spec_bump_opt(old(self).spec_updates_of(payload.fqcn)),
            forall|i: int|
                0 <= i < final(self).rings@.len() && (#[trigger] final(self).rings@[i]).0
                    != payload.fqcn ==> exists|j: int|
                    0 <= j < old(self).rings@.len() && (#[trigger] old(self).rings@[j]).0
                        == final(self).rings@[i].0 && old(self).rings@[j].1.values@ == final(self).rings@[i].1.values@ && old(self).rings@[j].1.num_updates == final(self).rings@[i].1.num_updates,
            final(self).spec_peripheral_meta_of(payload.fqcn.peripheral) == Some(
                UpdateMeta {
                    updated_at: payload.created_at,
                    num_updates: spec_bump_meta(
                        old(self).spec_peripheral_meta_of(payload.fqcn.peripheral),
                    ),
                },
            ),
            final(self).spec_service_meta_of(payload.fqcn.peripheral, payload.fqcn.service)
                == Some(
                UpdateMeta {
                    updated_at: payload.created_at,
                    num_updates: spec_bump_meta(
                        old(self).spec_service_meta_of(
                            payload.fqcn.peripheral,
                            payload.fqcn.service,
                        ),
                    ),
                },
            ),
            forall|i: int|
                0 <= i < final(self).peripheral_meta@.len() && (
                #[trigger] final(self).peripheral_meta@[i]).0 != payload.fqcn.peripheral ==> old(self).peripheral_meta@.contains(final(self).peripheral_meta@[i]),
            forall|i: int|
                0 <= i < final(self).service_meta@.len() && ((
                #[trigger] final(self).service_meta@[i]).0, final(self).service_meta@[i].1) != (
                payload.fqcn.peripheral,
                payload.fqcn.service,
            ) ==> old(self).service_meta@.contains(final(self).service_meta@[i]),
    {
        let fqcn = payload.fqcn;
        let point = DataPoint { ts: payload.created_at, value: arc_clone(&payload.value) };
        let hs = payload.conf.history_size();
        let mut idx: Option<usize> = None;
        let mut i: usize = 0;
        while i < self.rings.len()
            invariant
                i <= self.rings@.len(),
                idx matches Some(k) ==> k < i && self.rings@[k as int].0 == fqcn,
                idx is None ==> forall|j: int|
                    0 <= j < i ==> (#[trigger] self.rings@[j]).0 != fqcn,
            decreases self.rings@.len() - i,
        {
            if self.rings[i].0 == fqcn {
                idx = Some(i);
                break;
            }
            i = i + 1;
        }
        match idx {
            Some(k) => {
                let mut entry = self.rings.remove(k);
                let ghost pre = entry.1.values@;
                let ghost prenum = entry.1.num_updates;
                let ghost all = pre.push(point);
                entry.1.values.push(point);
                let ghost mut dropped: int = 0;
                proof {
                    assert(entry.1.values@ =~= all.skip(0));
                }
                while entry.1.values.len() > hs
                    invariant
                        0 <= dropped <= all.len(),
                        entry.0 == fqcn,
                        entry.1.num_updates == prenum,
                        entry.1.values@ == all.skip(dropped),
                        entry.1.values@.len() >= hs || dropped == 0,
                    decreases entry.1.values@.len(),
                {
                    proof {
                        assert(dropped < all.len());
                    }
                    let _ = entry.1.values.remove(0);
                    proof {
                        assert(all.skip(dropped).subrange(
                            1,
                            all.skip(dropped).len() as int,
                        ) =~= all.skip(dropped + 1));
                        dropped = dropped + 1;
                    }
                }
                proof {
                    if all.len() <= hs {
                        assert(dropped == 0);
                        assert(entry.1.values@ =~= spec_ring_after(pre, point, hs as nat));
                    } else {
                        assert(entry.1.values@.len() == all.len() - dropped);
                        assert(entry.1.values@.len() == hs);
                        assert(dropped == all.len() - hs);
                        assert(entry.1.values@ =~= spec_ring_after(pre, point, hs as nat));
                    }
                }
                entry.1.name = crate::conf::clone_opt_name(payload.conf.name());
                entry.1.num_updates = bump(entry.1.num_updates);
                let ghost ent = entry;
                self.rings.insert(k, entry);
                proof {
                    assert(self.rings@[k as int] == ent);
                    assert(ent.0 == fqcn);
                    assert forall|x: int|
                        0 <= x < self.rings@.len() && x != k implies #[trigger] self.rings@[x]
                            == old(self).rings@[x] by {
                        let mid = old(self).rings@.remove(k as int);
                        if x < k {
                            assert(self.rings@[x] == mid[x]);
                            assert(mid[x] == old(self).rings@[x]);
                        } else {
                            assert(self.rings@[x] == mid[x - 1]);
                            assert(mid[x - 1] == old(self).rings@[x]);
                        }
                    }
                    assert(self.rings@.len() == old(self).rings@.len());
                    assert(self.rings@[k as int].0 == fqcn);
                    assert forall|a: int, b: int|
                        0 <= a < b < self.rings@.len() implies (#[trigger] self.rings@[a]).0 != (
                        #[trigger] self.rings@[b]).0 by {
                        assert(old(self).rings@[a].0 != old(self).rings@[b].0);
                        if a == k {
                            assert(self.rings@[b] == old(self).rings@[b]);
                            assert(old(self).rings@[k as int].0 == fqcn);
                        } else if b == k {
                            assert(self.rings@[a] == old(self).rings@[a]);
                            assert(old(self).rings@[k as int].0 == fqcn);
                        }
                    }
                    let w = choose|w: int|
                        0 <= w < old(self).rings@.len() && (#[trigger] old(self).rings@[w]).0
                            == fqcn;
                    assert(w == k as int);
                    assert(old(self).spec_ring_of(fqcn) == Some(pre));
                    assert(old(self).spec_updates_of(fqcn) == Some(prenum));
                    assert(self.rings@[k as int].1.num_updates == spec_bump(prenum));
                }
            },
            None => {
                let mut values: Vec<DataPoint> = Vec::new();
                if hs > 0 {
                    values.push(point);
                }
                proof {
                    let all = Seq::<DataPoint>::empty().push(point);
                    if hs == 0 {
                        assert(values@ =~= all.skip(1));
                        assert(values@ =~= spec_ring_after(Seq::empty(), point, hs as nat));
                    } else {
                        assert(values@ =~= spec_ring_after(Seq::empty(), point, hs as nat));
                    }
                }
                let entry = CharacteristicStorage {
                    name: crate::conf::clone_opt_name(payload.conf.name()),
                    values,
                    num_updates: 1,
                };
                self.rings.push((fqcn, entry));
                proof {
                    assert(old(self).spec_ring_of(fqcn) is None);
                    assert(old(self).spec_updates_of(fqcn) is None);
                    assert(self.rings@[self.rings@.len() - 1].0 == fqcn);
                    assert forall|x: int|
                        0 <= x < self.rings@.len() - 1 implies #[trigger] self.rings@[x] == old(self).rings@[x] by {}
                }
            },
        }
        let ghost after_rings = *self;
        proof {
            lemma_peripheral_meta_field(after_rings, *old(self), fqcn.peripheral);
            lemma_service_meta_field(after_rings, *old(self), fqcn.peripheral, fqcn.service);
        }
        self.touch_peripheral(fqcn.peripheral, payload.created_at);
        let ghost after_peripheral = *self;
        proof {
            lemma_service_meta_field(after_peripheral, after_rings, fqcn.peripheral, fqcn.service);
        }
        self.touch_service(fqcn.peripheral, fqcn.service, payload.created_at);
        proof {
            lemma_peripheral_meta_field(*self, after_peripheral, fqcn.peripheral);
        }
    }

    #[verifier::loop_isolation(false)]
    fn touch_peripheral(&mut self, address: u64, now: u64)
        requires
            old(self).wf(),
        ensures
            final(self).wf(),
            final(self).rings == old(self).rings,
            final(self).service_meta == old(self).service_meta,
            final(self).spec_peripheral_meta_of(address) == Some(
                UpdateMeta {
                    updated_at: now,
                    num_updates: spec_bump_meta(old(self).spec_peripheral_meta_of(address)),
                },
            ),
            forall|i: int|
                0 <= i < final(self).peripheral_meta@.len() && (
                #[trigger] final(self).peripheral_meta@[i]).0 != address ==> old(self).peripheral_meta@.contains(final(self).peripheral_meta@[i]),
    {
        let mut i: usize = 0;
        while i < self.peripheral_meta.len()
            invariant
                i <= self.peripheral_meta@.len(),
                *self == *old(self),
                forall|j: int| 0 <= j < i ==> (#[trigger] self.peripheral_meta@[j]).0 != address,
            decreases self.peripheral_meta@.len() - i,
        {
            if self.peripheral_meta[i].0 == address {
                let m = self.peripheral_meta[i].1;
                let updated = (
                    address,
                    UpdateMeta { updated_at: now, num_updates: bump(m.num_updates) },
                );
                let ghost pre = self.peripheral_meta@;
                proof {
                    let w = choose|w: int|
                        0 <= w < pre.len() && (#[trigger] pre[w]).0 == address;
                    assert(w == i as int);
                    assert(old(self).spec_peripheral_meta_of(address) == Some(m));
                }
                let _ = self.peripheral_meta.remove(i);
                self.peripheral_meta.insert(i, updated);
                proof {
                    assert(self.peripheral_meta@ =~= pre.update(i as int, updated));
                    assert(self.peripheral_meta@[i as int] == updated);
                    let w = choose|w: int|
                        0 <= w < self.peripheral_meta@.len() && (
                        #[trigger] self.peripheral_meta@[w]).0 == address;
                    assert(w == i as int);
                }
                return ;
            }
            i = i + 1;
        }
        proof {
            assert(old(self).spec_peripheral_meta_of(address) is None);
        }
        self.peripheral_meta.push((address, UpdateMeta { updated_at: now, num_updates: 1 }));
        proof {
            let n = self.peripheral_meta@.len() - 1;
            assert(self.peripheral_meta@[n] == (
            address,
            UpdateMeta { updated_at: now, num_updates: 1 },
        ));
            let w = choose|w: int|
                0 <= w < self.peripheral_meta@.len() && (#[trigger] self.peripheral_meta@[w]).0
                    == address;
            assert(w == n);
        }
    }

    #[verifier::loop_isolation(false)]
    fn touch_service(&mut self, address: u64, service: u128, now: u64)
        requires
            old(self).wf(),
        ensures
            final(self).wf(),
            final(self).rings == old(self).rings,
            final(self).peripheral_meta == old(self).peripheral_meta,
            final(self).spec_service_meta_of(address, service) == Some(
                UpdateMeta {
                    updated_at: now,
                    num_updates: spec_bump_meta(old(self).spec_service_meta_of(address, service)),
                },
            ),
            forall|i: int|
                0 <= i < final(self).service_meta@.len() && ((
                #[trigger] final(self).service_meta@[i]).0, final(self).service_meta@[i].1) != (
                address,
                service,
            ) ==> old(self).service_meta@.contains(final(self).service_meta@[i]),
    {
        let mut i: usize = 0;
        while i < self.service_meta.len()
            invariant
                i <= self.service_meta@.len(),
                *self == *old(self),
                forall|j: int|
                    0 <= j < i ==> ((#[trigger] self.service_meta@[j]).0, (
                    self.service_meta@[j]).1) != (address, service),
            decreases self.service_meta@.len() - i,
        {
            if self.service_meta[i].0 == address && self.service_meta[i].1 == service {
                let m = self.service_meta[i].2;
                let updated = (
                    address,
                    service,
                    UpdateMeta { updated_at: now, num_updates: bump(m.num_updates) },
                );
                let ghost pre = self.service_meta@;
                proof {
                    let w = choose|w: int|
                        0 <= w < pre.len() && (#[trigger] pre[w]).0 == address && pre[w].1
                            == service;
                    assert(w == i as int);
                    assert(old(self).spec_service_meta_of(address, service) == Some(m));
                }
                let _ = self.service_meta.remove(i);
                self.service_meta.insert(i, updated);
                proof {
                    assert(self.service_meta@ =~= pre.update(i as int, updated));
                    assert(self.service_meta@[i as int] == updated);
                    let w = choose|w: int|
                        0 <= w < self.service_meta@.len() && (
                        #[trigger] self.service_meta@[w]).0 == address
                            && self.service_meta@[w].1 == service;
                    assert(w == i as int);
                }
                return ;
            }
            i = i + 1;
        }
        proof {
            assert(old(self).spec_service_meta_of(address, service) is None);
        }
        self.service_meta.push(
            (address, service, UpdateMeta { updated_at: now, num_updates: 1 }),
        );
        proof {
            let n = self.service_meta@.len() - 1;
            assert(self.service_meta@[n] == (
            address,
            service,
            UpdateMeta { updated_at: now, num_updates: 1 },
        ));
            let w = choose|w: int|
                0 <= w < self.service_meta@.len() && (#[trigger] self.service_meta@[w]).0
                    == address && self.service_meta@[w].1 == service;
            assert(w == n);
        }
    }
}

/// The service bookkeeping lookup reads only the service table.
proof fn lemma_service_meta_field(a: ApiPublisher, b: ApiPublisher, address: u64, service: u128)
    requires
        a.service_meta@ == b.service_meta@,
    ensures
        a.spec_service_meta_of(address, service) == b.spec_service_meta_of(address, service),
{
    if exists|i: int|
        0 <= i < a.service_meta@.len() && (#[trigger] a.service_meta@[i]).0 == address
            && a.service_meta@[i].1 == service {
        let i = choose|i: int|
            0 <= i < a.service_meta@.len() && (#[trigger] a.service_meta@[i]).0 == address
                && a.service_meta@[i].1 == service;
        assert(b.service_meta@[i].0 == address && b.service_meta@[i].1 == service);
    }
    if exists|i: int|
        0 <= i < b.service_meta@.len() && (#[trigger] b.service_meta@[i]).0 == address
            && b.service_meta@[i].1 == service {
        let i = choose|i: int|
            0 <= i < b.service_meta@.len() && (#[trigger] b.service_meta@[i]).0 == address
                && b.service_meta@[i].1 == service;
        assert(a.service_meta@[i].0 == address && a.service_meta@[i].1 == service);
    }
}

/// The peripheral bookkeeping lookup reads only the peripheral table.
proof fn lemma_peripheral_meta_field(a: ApiPublisher, b: ApiPublisher, address: u64)
    requires
        a.peripheral_meta@ == b.peripheral_meta@,
    ensures
        a.spec_peripheral_meta_of(address) == b.spec_peripheral_meta_of(address),
{
    if exists|i: int|
        0 <= i < a.peripheral_meta@.len() && (#[trigger] a.peripheral_meta@[i]).0 == address {
        let i = choose|i: int|
            0 <= i < a.peripheral_meta@.len() && (#[trigger] a.peripheral_meta@[i]).0 == address;
        assert(b.peripheral_meta@[i].0 == address);
    }
    if exists|i: int|
        0 <= i < b.peripheral_meta@.len() && (#[trigger] b.peripheral_meta@[i]).0 == address {
        let i = choose|i: int|
            0 <= i < b.peripheral_meta@.len() && (#[trigger] b.peripheral_meta@[i]).0 == address;
        assert(a.peripheral_meta@[i].0 == address);
    }
}

/// Advances an update counter, saturating at the machine limit.
fn bump(n: usize) -> (r: usize)
    ensures
        r == spec_bump(n),
{
    if n < usize::MAX {
        n + 1
    } else {
        n
    }
}

/// The API store's rings never exceed their characteristic's history size:
/// after every `process` the updated ring is bounded, and untouched rings
/// keep their contents.
pub proof fn lemma_ring_bounded(values: Seq<DataPoint>, p: DataPoint, history_size: nat)
    ensures
        spec_ring_after(values, p, history_size).len() <= history_size || history_size == 0,
        history_size == 0 ==> spec_ring_after(values, p, history_size).len() == 0,
{
    let all = values.push(p);
    if all.len() > history_size {
        assert(all.skip(all.len() - history_size).len() == history_size);
    }
}

} // verus!
