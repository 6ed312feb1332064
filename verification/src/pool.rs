//! State machine of the guest execution pool.
//!
//! The pool amortizes VM store setup across requests. Its bookkeeping is
//! modelled here exactly: a concurrency counter bounded by the permit cap, a
//! monotonic module generation, and a LIFO free list of store tags. The
//! unverified shell owns the actual VM stores, keyed by the slot numbers this
//! model hands out, and consults the model at every decision point: leasing,
//! recycling at the instantiation bound, the one retry after an
//! instance-count failure, the module swap, and the release on drop.

use vstd::prelude::*;

verus! {

/// Upper bound on instantiations of one pooled store before it is retired
/// pre-emptively; a safety margin against the VM's internal instance ceiling.
pub const MAX_STORE_INSTANTIATIONS: u32 = 1000;

/// Fuel units a guest consumes between cooperative yields to the scheduler.
pub const FUEL_YIELD_INTERVAL: u64 = 10000;

/// What the pool remembers about one store on the free list: the shell slot
/// holding the live VM store, the generation it was last leased under, and
/// how many instantiations it has served.
#[derive(Clone, Copy, Debug)]
pub struct StoreTag {
    pub slot: u64,
    pub generation: u64,
    pub instantiations: u32,
}

/// An exclusive borrow of one pooled store plus one concurrency permit.
/// The shell holds it for the duration of a request and hands it back
/// through [`PoolState::release`].
#[derive(Clone, Copy, Debug)]
pub struct Lease {
    pub slot: u64,
    pub generation: u64,
    pub instantiations: u32,
}

/// Where the store of a fresh lease comes from: reused off the free list, or
/// newly allocated (possibly displacing a stale store the shell must drop).
pub enum StoreSource {
    Reused,
    Allocated { discard: Option<u64> },
}

/// What to do after an instantiation failure: recycle the store and retry
/// exactly once (the shell drops the old slot), or give up and report.
pub enum RetryPlan {
    RetryOnce { discard: u64 },
    GiveUp,
}

/// Ghost image of a store tag.
pub struct TagAbs {
    pub slot: int,
    pub generation: int,
    pub instantiations: int,
}

/// Ghost image of the pool state, over unbounded integers.
pub struct PoolAbs {
    pub max_concurrency: int,
    pub active: int,
    pub generation: int,
    pub free: Seq<TagAbs>,
    pub next_slot: int,
}

/// One observable pool transition. `Release` carries the tag of whatever
/// lease comes back; in-flight leases may return stale tags at any time.
pub enum PoolEvent {
    Acquire,
    TakeStore,
    Update,
    Release { tag: TagAbs },
}

/// Whether a `TakeStore` step in state `s` reuses the top of the free list:
/// only a tag of the current generation is ever reused.
pub open spec fn take_reuses(s: PoolAbs) -> bool {
    s.free.len() > 0 && s.free.last().generation == s.generation
}

/// Transition function of the pool model.
pub open spec fn pool_step(s: PoolAbs, e: PoolEvent) -> PoolAbs {
    match e {
        PoolEvent::Acquire => {
            if s.active < s.max_concurrency {
                PoolAbs { active: s.active + 1, ..s }
            } else {
                s
            }
        },
        PoolEvent::TakeStore => {
            if take_reuses(s) {
                PoolAbs { free: s.free.drop_last(), ..s }
            } else if s.free.len() > 0 {
                PoolAbs { free: s.free.drop_last(), next_slot: s.next_slot + 1, ..s }
            } else {
                PoolAbs { next_slot: s.next_slot + 1, ..s }
            }
        },
        PoolEvent::Update => {
            PoolAbs { generation: s.generation + 1, free: Seq::empty(), ..s }
        },
        PoolEvent::Release { tag } => {
            if s.active > 0 {
                PoolAbs { active: s.active - 1, free: s.free.push(tag), ..s }
            } else {
                s
            }
        },
    }
}

/// Iterated transitions.
pub open spec fn pool_steps(s: PoolAbs, es: Seq<PoolEvent>) -> PoolAbs
    decreases es.len(),
{
    if es.len() == 0 {
        s
    } else {
        pool_steps(pool_step(s, es[0]), es.drop_first())
    }
}

impl StoreTag {
    pub open spec fn abs(self) -> TagAbs {
        TagAbs {
            slot: self.slot as int,
            generation: self.generation as int,
            instantiations: self.instantiations as int,
        }
    }
}

/// The verified bookkeeping of the execution pool.
pub struct PoolState {
    pub max_concurrency: usize,
    pub active: usize,
    pub generation: u64,
    pub free: Vec<StoreTag>,
    pub next_slot: u64,
}

impl PoolState {
    /// The number of live leases never exceeds the concurrency cap.
    pub open spec fn wf(self) -> bool {
        &&& self.max_concurrency >= 1
        &&& self.active <= self.max_concurrency
    }

    pub open spec fn abs(self) -> PoolAbs {
        PoolAbs {
            max_concurrency: self.max_concurrency as int,
            active: self.active as int,
            generation: self.generation as int,
            free: self.free@.map_values(|t: StoreTag| t.abs()),
            next_slot: self.next_slot as int,
        }
    }

    /// Whether the next lease would reuse the top of the free list.
    pub open spec fn reusable(self) -> bool {
        self.free@.len() > 0 && self.free@.last().generation == self.generation
    }

    /// A fresh pool: no leases, generation zero, empty free list. A cap of
    /// zero is lifted to one, so at least one guest can ever run.
    pub fn new(max_concurrency: usize) -> (s: Self)
        ensures
            s.wf(),
            s.max_concurrency == if max_concurrency == 0 { 1usize } else { max_concurrency },
            s.active == 0,
            s.generation == 0,
            s.free@ == Seq::<StoreTag>::empty(),
            s.next_slot == 0,
    {
        let max: usize = if max_concurrency == 0 { 1 } else { max_concurrency };
        PoolState { max_concurrency: max, active: 0, generation: 0, free: Vec::new(), next_slot: 0 }
    }

    /// Take one concurrency permit if one is available. The shell blocks on
    /// its semaphore until this succeeds, so live leases never exceed the cap.
    pub fn try_acquire(&mut self) -> (ok: bool)
        requires
            old(self).wf(),
        ensures
            final(self).wf(),
            ok == (old(self).active < old(self).max_concurrency),
            final(self).active == if ok { old(self).active + 1 } else { old(self).active as int },
            final(self).max_concurrency == old(self).max_concurrency,
            final(self).generation == old(self).generation,
            final(self).free@ == old(self).free@,
            final(self).next_slot == old(self).next_slot,
            final(self).abs() == pool_step(old(self).abs(), PoolEvent::Acquire),
    {
        if self.active < self.max_concurrency {
            self.active = self.active + 1;
            true
        } else {
            false
        }
    }

    /// Pick the store for a new lease: reuse the most recently returned store
    /// if it carries the current generation, otherwise discard it (if any)
    /// and allocate a fresh slot. The lease is always tagged with the
    /// generation sampled here.
    pub fn take_store(&mut self) -> (r: (Lease, StoreSource))
        requires
            old(self).wf(),
            old(self).next_slot < u64::MAX,
        ensures
            final(self).wf(),
            final(self).max_concurrency == old(self).max_concurrency,
            final(self).active == old(self).active,
            final(self).generation == old(self).generation,
            r.0.generation == old(self).generation,
            old(self).reusable() ==> {
                &&& r.1 is Reused
                &&& r.0.slot == old(self).free@.last().slot
                &&& r.0.instantiations == old(self).free@.last().instantiations
                &&& final(self).free@ == old(self).free@.drop_last()
                &&& final(self).next_slot == old(self).next_slot
            },
            !old(self).reusable() ==> {
                &&& r.1 matches StoreSource::Allocated { discard } && discard == (
                    if old(self).free@.len() > 0 {
                        Some(old(self).free@.last().slot)
                    } else {
                        None::<u64>
                    }
                )
                &&& r.0.slot == old(self).next_slot
                &&& r.0.instantiations == 0
                &&& final(self).free@ == (
                    if old(self).free@.len() > 0 {
                        old(self).free@.drop_last()
                    } else {
                        old(self).free@
                    }
                )
                &&& final(self).next_slot == old(self).next_slot + 1
            },
            final(self).abs() == pool_step(old(self).abs(), PoolEvent::TakeStore),
    {
        let popped: Option<StoreTag> = self.free.pop();
        let r: (Lease, StoreSource) = match popped {
            Some(tag) => {
                if tag.generation == self.generation {
                    (
                        Lease {
                            slot: tag.slot,
                            generation: self.generation,
                            instantiations: tag.instantiations,
                        },
                        StoreSource::Reused,
                    )
                } else {
                    let slot: u64 = self.next_slot;
                    self.next_slot = self.next_slot + 1;
                    (
                        Lease { slot, generation: self.generation, instantiations: 0 },
                        StoreSource::Allocated { discard: Some(tag.slot) },
                    )
                }
            },
            None => {
                let slot: u64 = self.next_slot;
                self.next_slot = self.next_slot + 1;
                (
                    Lease { slot, generation: self.generation, instantiations: 0 },
                    StoreSource::Allocated { discard: None },
                )
            },
        };
        proof {
            assert(final(self).abs().free =~= pool_step(old(self).abs(), PoolEvent::TakeStore).free);
        }
        r
    }

    /// Publish a new module: bump the generation and clear the free list, so
    /// no store leased under an older module is ever reused. In-flight
    /// leases are untouched.
    pub fn update_module(&mut self)
        requires
            old(self).wf(),
            old(self).generation < u64::MAX,
        ensures
            final(self).wf(),
            final(self).max_concurrency == old(self).max_concurrency,
            final(self).active == old(self).active,
            final(self).generation == old(self).generation + 1,
            final(self).free@ == Seq::<StoreTag>::empty(),
            final(self).next_slot == old(self).next_slot,
            final(self).abs() == pool_step(old(self).abs(), PoolEvent::Update),
    {
        self.generation = self.generation + 1;
        self.free.clear();
        proof {
            assert(final(self).abs().free =~= pool_step(old(self).abs(), PoolEvent::Update).free);
        }
    }

    /// Pre-emptive recycling: a lease about to run on a store that has
    /// reached the instantiation bound gets a fresh slot instead, and the
    /// shell drops the exhausted store. Afterwards the store is always
    /// strictly under the bound.
    pub fn refresh_exhausted(&mut self, lease: &mut Lease) -> (discard: Option<u64>)
        requires
            old(self).wf(),
            old(self).next_slot < u64::MAX,
        ensures
            final(self).wf(),
            final(lease).instantiations < MAX_STORE_INSTANTIATIONS,
            final(lease).generation == old(lease).generation,
            old(lease).instantiations < MAX_STORE_INSTANTIATIONS ==> {
                &&& *final(lease) == *old(lease)
                &&& discard is None
                &&& final(self).next_slot == old(self).next_slot
            },
            old(lease).instantiations >= MAX_STORE_INSTANTIATIONS ==> {
                &&& final(lease).slot == old(self).next_slot
                &&& final(lease).instantiations == 0
                &&& discard == Some(old(lease).slot)
                &&& final(self).next_slot == old(self).next_slot + 1
            },
            final(self).max_concurrency == old(self).max_concurrency,
            final(self).active == old(self).active,
            final(self).generation == old(self).generation,
            final(self).free@ == old(self).free@,
    {
        if lease.instantiations >= MAX_STORE_INSTANTIATIONS {
            let old_slot: u64 = lease.slot;
            lease.slot = self.next_slot;
            lease.instantiations = 0;
            self.next_slot = self.next_slot + 1;
            Some(old_slot)
        } else {
            None
        }
    }

    /// Decision after a failed instantiation: when the VM reported its
    /// internal instance-count ceiling, recycle the store and retry exactly
    /// once; any other failure is final.
    pub fn retry_after_failure(&mut self, lease: &mut Lease, instance_limit_hit: bool) -> (r:
        RetryPlan)
        requires
            old(self).wf(),
            old(self).next_slot < u64::MAX,
        ensures
            final(self).wf(),
            final(lease).generation == old(lease).generation,
            !instance_limit_hit ==> {
                &&& r is GiveUp
                &&& *final(lease) == *old(lease)
                &&& final(self).next_slot == old(self).next_slot
            },
            instance_limit_hit ==> {
                &&& r matches RetryPlan::RetryOnce { discard } && discard == old(lease).slot
                &&& final(lease).slot == old(self).next_slot
                &&& final(lease).instantiations == 0
                &&& final(self).next_slot == old(self).next_slot + 1
            },
            final(self).max_concurrency == old(self).max_concurrency,
            final(self).active == old(self).active,
            final(self).generation == old(self).generation,
            final(self).free@ == old(self).free@,
    {
        if instance_limit_hit {
            let old_slot: u64 = lease.slot;
            lease.slot = self.next_slot;
            lease.instantiations = 0;
            self.next_slot = self.next_slot + 1;
            RetryPlan::RetryOnce { discard: old_slot }
        } else {
            RetryPlan::GiveUp
        }
    }

    /// Count one successful instantiation on the lease's store, saturating.
    pub fn record_instantiation(lease: &mut Lease)
        ensures
            final(lease).slot == old(lease).slot,
            final(lease).generation == old(lease).generation,
            final(lease).instantiations == if old(lease).instantiations == u32::MAX {
                u32::MAX as int
            } else {
                old(lease).instantiations + 1
            },
    {
        if lease.instantiations < u32::MAX {
            lease.instantiations = lease.instantiations + 1;
        }
    }

    /// Return a lease: give back the permit and push the store tag onto the
    /// free list, tagged with the generation the lease was taken under.
    pub fn release(&mut self, lease: Lease)
        requires
            old(self).wf(),
            old(self).active >= 1,
        ensures
            final(self).wf(),
            final(self).max_concurrency == old(self).max_concurrency,
            final(self).active == old(self).active - 1,
            final(self).generation == old(self).generation,
            final(self).free@ == old(self).free@.push(
                StoreTag {
                    slot: lease.slot,
                    generation: lease.generation,
                    instantiations: lease.instantiations,
                },
            ),
            final(self).next_slot == old(self).next_slot,
            final(self).abs() == pool_step(
                old(self).abs(),
                PoolEvent::Release {
                    tag: TagAbs {
                        slot: lease.slot as int,
                        generation: lease.generation as int,
                        instantiations: lease.instantiations as int,
                    },
                },
            ),
    {
        self.active = self.active - 1;
        self.free.push(
            StoreTag {
                slot: lease.slot,
                generation: lease.generation,
                instantiations: lease.instantiations,
            },
        );
        proof {
            assert(final(self).abs().free =~= pool_step(
                old(self).abs(),
                PoolEvent::Release {
                    tag: TagAbs {
                        slot: lease.slot as int,
                        generation: lease.generation as int,
                        instantiations: lease.instantiations as int,
                    },
                },
            ).free);
        }
    }
}

/// However the pool is driven, the count of live leases never exceeds the
/// concurrency cap: each step preserves the bound, so every reachable state
/// satisfies it.
pub proof fn lemma_concurrency_bounded(s: PoolAbs, es: Seq<PoolEvent>)
    requires
        s.active <= s.max_concurrency,
    ensures
        pool_steps(s, es).active <= pool_steps(s, es).max_concurrency,
        pool_steps(s, es).max_concurrency == s.max_concurrency,
    decreases es.len(),
{
    if es.len() > 0 {
        lemma_concurrency_bounded(pool_step(s, es[0]), es.drop_first());
    }
}

/// The generation counter never decreases, however the pool is driven.
pub proof fn lemma_generation_monotonic(s: PoolAbs, es: Seq<PoolEvent>)
    ensures
        pool_steps(s, es).generation >= s.generation,
    decreases es.len(),
{
    if es.len() > 0 {
        lemma_generation_monotonic(pool_step(s, es[0]), es.drop_first());
    }
}

/// A module swap invalidates every store from before it: afterwards, however
/// the pool is driven, the generation stays past the pre-swap one, so a
/// reused store always carries a post-swap tag and every new lease sees the
/// new module's generation. The swap itself leaves in-flight leases (the
/// active count) untouched.
pub proof fn lemma_update_isolates(s: PoolAbs, es: Seq<PoolEvent>)
    ensures
        pool_step(s, PoolEvent::Update).active == s.active,
        pool_step(s, PoolEvent::Update).free == Seq::<TagAbs>::empty(),
        pool_steps(pool_step(s, PoolEvent::Update), es).generation >= s.generation + 1,
        take_reuses(pool_steps(pool_step(s, PoolEvent::Update), es)) ==> pool_steps(
            pool_step(s, PoolEvent::Update),
            es,
        ).free.last().generation >= s.generation + 1,
{
    lemma_generation_monotonic(pool_step(s, PoolEvent::Update), es);
}

} // verus!
