//! Replication deltas and the per-frame outbox they are collected in.
//!
//! A replicated entity produces, within a frame, `Spawn` when it gains
//! the replicate marker, `Upsert` when a registered component is added
//! or changed, `Remove` when such a component is removed while the
//! entity stays replicated, and `Despawn` when it loses the marker.
//! Each delta carries an audience: `None` broadcasts to every peer,
//! `Some(peers)` restricts it to those peers.

use vstd::prelude::*;

pub mod type_ids;

verus! {

/// Identity of a peer (connection slot).
pub type PeerId = u32;

/// Server-authoritative entity id on the wire.
#[derive(Clone, Copy, Debug, PartialEq, Eq, Hash, Structural)]
pub struct ServerEntity(pub u64);

/// One unit of replication state change.
#[derive(Clone, Debug)]
pub enum ReplicationDelta {
    Spawn { entity: ServerEntity },
    /// Insert-or-update of a component, with its encoded value.
    Upsert { entity: ServerEntity, type_id: u16, bytes: Vec<u8> },
    Remove { entity: ServerEntity, type_id: u16 },
    Despawn { entity: ServerEntity },
}

/// The four kinds of delta.
#[derive(Clone, Copy, Debug, PartialEq, Eq, Structural)]
pub enum DeltaKind {
    Spawn,
    Upsert,
    Remove,
    Despawn,
}

/// How many deltas of each kind an outbox holds.
#[derive(Clone, Copy, Debug, PartialEq, Eq, Structural)]
pub struct DeltaCounts {
    pub spawn: usize,
    pub upsert: usize,
    pub remove: usize,
    pub despawn: usize,
}

/// Per-frame outbound queue: `deltas[i]` goes to `audiences[i]`.
#[derive(Debug)]
pub struct ReplicationOutbox {
    pub deltas: Vec<ReplicationDelta>,
    /// Audience of each delta (parallel to `deltas`); `None` = broadcast.
    pub audiences: Vec<Option<Vec<PeerId>>>,
}

/// The kind of a delta.
pub open spec fn kind_of(d: ReplicationDelta) -> DeltaKind {
    match d {
        ReplicationDelta::Spawn { .. } => DeltaKind::Spawn,
        ReplicationDelta::Upsert { .. } => DeltaKind::Upsert,
        ReplicationDelta::Remove { .. } => DeltaKind::Remove,
        ReplicationDelta::Despawn { .. } => DeltaKind::Despawn,
    }
}

/// Number of deltas of kind `k` in `s`.
pub open spec fn count_kind(s: Seq<ReplicationDelta>, k: DeltaKind) -> nat
    decreases s.len(),
{
    if s.len() == 0 {
        0
    } else {
        count_kind(s.drop_last(), k) + if kind_of(s.last()) == k { 1nat } else { 0nat }
    }
}

/// The `Spawn` deltas for a list of newly replicated entities.
pub open spec fn spawn_deltas(s: Seq<(ServerEntity, Option<Vec<PeerId>>)>) -> Seq<ReplicationDelta> {
    s.map_values(|e: (ServerEntity, Option<Vec<PeerId>>)| ReplicationDelta::Spawn { entity: e.0 })
}

/// The audiences of a list of newly replicated entities.
pub open spec fn spawn_audiences(s: Seq<(ServerEntity, Option<Vec<PeerId>>)>) -> Seq<Option<Vec<PeerId>>> {
    s.map_values(|e: (ServerEntity, Option<Vec<PeerId>>)| e.1)
}

/// The `Despawn` deltas for a list of entities that lost replication.
pub open spec fn despawn_deltas(s: Seq<ServerEntity>) -> Seq<ReplicationDelta> {
    s.map_values(|e: ServerEntity| ReplicationDelta::Despawn { entity: e })
}

/// `n` broadcast audiences.
pub open spec fn broadcasts(n: nat) -> Seq<Option<Vec<PeerId>>> {
    Seq::new(n, |i: int| None)
}

/// A component change is sent as an `Upsert` only when the component
/// changed and was not added this very frame (additions are sent by
/// the added-collector), so each (entity, component) yields at most one
/// `Upsert` per frame.
pub fn should_send_change(is_changed: bool, is_added: bool) -> (b: bool)
    ensures
        b == (is_changed && !is_added),
{
    is_changed && !is_added
}

impl ReplicationDelta {
    /// The kind of this delta.
    pub fn kind(&self) -> (k: DeltaKind)
        ensures
            k == kind_of(*self),
            (k == DeltaKind::Spawn) <==> (*self is Spawn),
            (k == DeltaKind::Upsert) <==> (*self is Upsert),
            (k == DeltaKind::Remove) <==> (*self is Remove),
            (k == DeltaKind::Despawn) <==> (*self is Despawn),
    {
        match self {
            ReplicationDelta::Spawn { .. } => DeltaKind::Spawn,
            ReplicationDelta::Upsert { .. } => DeltaKind::Upsert,
            ReplicationDelta::Remove { .. } => DeltaKind::Remove,
            ReplicationDelta::Despawn { .. } => DeltaKind::Despawn,
        }
    }
}

impl ReplicationOutbox {
    /// Every delta has exactly one audience.
    pub open spec fn well_formed(&self) -> bool {
        self.deltas@.len() == self.audiences@.len()
    }

    /// An empty outbox.
    pub fn new() -> (o: Self)
        ensures
            o.well_formed(),
            o.deltas@.len() == 0,
            o.audiences@.len() == 0,
    {
        ReplicationOutbox { deltas: Vec::new(), audiences: Vec::new() }
    }

    /// Queues `delta` for `audience`.
    pub fn push(&mut self, delta: ReplicationDelta, audience: Option<Vec<PeerId>>)
        ensures
            final(self).deltas@ == old(self).deltas@.push(delta),
            final(self).audiences@ == old(self).audiences@.push(audience),
            old(self).well_formed() ==> final(self).well_formed(),
    {
        self.deltas.push(delta);
        self.audiences.push(audience);
    }

    /// Empties the outbox (done at the start of every frame).
    pub fn clear(&mut self)
        ensures
            final(self).deltas@.len() == 0,
            final(self).audiences@.len() == 0,
            final(self).well_formed(),
    {
        self.deltas.clear();
        self.audiences.clear();
    }

    /// Number of queued deltas.
    pub fn len(&self) -> (n: usize)
        ensures
            n == self.deltas@.len(),
    {
        self.deltas.len()
    }

    /// Whether no delta is queued.
    pub fn is_empty(&self) -> (b: bool)
        ensures
            b == (self.deltas@.len() == 0),
    {
        self.deltas.len() == 0
    }

    /// Queues a `Spawn` for every newly replicated entity, each with its
    /// own audience, in the given order.
    pub fn collect_spawned(&mut self, spawned: Vec<(ServerEntity, Option<Vec<PeerId>>)>)
        ensures
            final(self).deltas@ == old(self).deltas@ + spawn_deltas(spawned@),
            final(self).audiences@ == old(self).audiences@ + spawn_audiences(spawned@),
            old(self).well_formed() ==> final(self).well_formed(),
    {
        let ghost d0 = self.deltas@;
        let ghost a0 = self.audiences@;
        let ghost all = spawned@;
        let mut rest = spawned;
        let ghost mut i: int = 0;
        while rest.len() > 0
            invariant
                0 <= i <= all.len(),
                rest@ == all.skip(i),
                self.deltas@ == d0 + spawn_deltas(all.take(i)),
                self.audiences@ == a0 + spawn_audiences(all.take(i)),
            decreases rest@.len(),
        {
            let (entity, audience) = rest.remove(0);
            assert(rest@ == all.skip(i + 1));
            assert((entity, audience) == all[i]);
            assert(all.take(i + 1) == all.take(i).push(all[i]));
            self.push(ReplicationDelta::Spawn { entity }, audience);
            assert(spawn_deltas(all.take(i + 1)) == spawn_deltas(all.take(i)).push(ReplicationDelta::Spawn { entity }));
            assert(spawn_audiences(all.take(i + 1)) == spawn_audiences(all.take(i)).push(all[i].1));
            proof {
                i = i + 1;
            }
        }
        assert(all.take(i) == all);
    }

    /// Queues a broadcast `Despawn` for every entity that lost
    /// replication (its audience is gone with it), in the given order.
    pub fn collect_despawned(&mut self, despawned: &Vec<ServerEntity>)
        ensures
            final(self).deltas@ == old(self).deltas@ + despawn_deltas(despawned@),
            final(self).audiences@ == old(self).audiences@ + broadcasts(despawned@.len()),
            old(self).well_formed() ==> final(self).well_formed(),
    {
        let ghost d0 = self.deltas@;
        let ghost a0 = self.audiences@;
        let mut i: usize = 0;
        while i < despawned.len()
            invariant
                i <= despawned@.len(),
                self.deltas@ == d0 + despawn_deltas(despawned@.take(i as int)),
                self.audiences@ == a0 + broadcasts(i as nat),
            decreases despawned@.len() - i,
        {
            let entity = despawned[i];
            assert(despawned@.take(i + 1) == despawned@.take(i as int).push(entity));
            self.push(ReplicationDelta::Despawn { entity }, None);
            assert(despawn_deltas(despawned@.take(i + 1)) == despawn_deltas(despawned@.take(i as int)).push(
                ReplicationDelta::Despawn { entity },
            ));
            assert(broadcasts((i + 1) as nat) == broadcasts(i as nat).push(None));
            i = i + 1;
        }
        assert(despawned@.take(despawned@.len() as int) == despawned@);
    }

    /// Queues an `Upsert` of component `type_id` on `entity` for
    /// `audience` when its value could be encoded (`encoded` is `Some`);
    /// a value that failed to encode is skipped.
    pub fn push_upsert(
        &mut self,
        entity: ServerEntity,
        type_id: u16,
        encoded: Option<Vec<u8>>,
        audience: Option<Vec<PeerId>>,
    )
        ensures
            match encoded {
                Some(bytes) => {
                    &&& final(self).deltas@ == old(self).deltas@.push(
                        ReplicationDelta::Upsert { entity, type_id, bytes },
                    )
                    &&& final(self).audiences@ == old(self).audiences@.push(audience)
                },
                None => {
                    &&& final(self).deltas@ == old(self).deltas@
                    &&& final(self).audiences@ == old(self).audiences@
                },
            },
            old(self).well_formed() ==> final(self).well_formed(),
    {
        match encoded {
            Some(bytes) => self.push(ReplicationDelta::Upsert { entity, type_id, bytes }, audience),
            None => {},
        }
    }

    /// Queues a broadcast `Remove` of component `type_id` on `entity`
    /// only if the entity is still replicated; a component that went
    /// away with the whole entity is covered by its `Despawn`.
    pub fn record_removal(&mut self, entity: ServerEntity, type_id: u16, still_replicated: bool)
        ensures
            still_replicated ==> final(self).deltas@ == old(self).deltas@.push(
                ReplicationDelta::Remove { entity, type_id },
            ),
            still_replicated ==> final(self).audiences@ == old(self).audiences@.push(None),
            !still_replicated ==> final(self).deltas@ == old(self).deltas@,
            !still_replicated ==> final(self).audiences@ == old(self).audiences@,
            still_replicated ==> count_kind(final(self).deltas@, DeltaKind::Remove)
                == count_kind(old(self).deltas@, DeltaKind::Remove) + 1,
            still_replicated ==> count_kind(final(self).deltas@, DeltaKind::Despawn)
                == count_kind(old(self).deltas@, DeltaKind::Despawn),
            old(self).well_formed() ==> final(self).well_formed(),
    {
        proof {
            lemma_record_removal_counts(self.deltas@, entity, type_id);
        }
        if still_replicated {
            self.push(ReplicationDelta::Remove { entity, type_id }, None);
        }
    }

    /// How many deltas of each kind are queued.
    pub fn delta_counts(&self) -> (c: DeltaCounts)
        ensures
            c.spawn == count_kind(self.deltas@, DeltaKind::Spawn),
            c.upsert == count_kind(self.deltas@, DeltaKind::Upsert),
            c.remove == count_kind(self.deltas@, DeltaKind::Remove),
            c.despawn == count_kind(self.deltas@, DeltaKind::Despawn),
    {
        let mut c = DeltaCounts { spawn: 0, upsert: 0, remove: 0, despawn: 0 };
        let mut i: usize = 0;
        while i < self.deltas.len()
            invariant
                i <= self.deltas@.len(),
                c.spawn == count_kind(self.deltas@.take(i as int), DeltaKind::Spawn),
                c.upsert == count_kind(self.deltas@.take(i as int), DeltaKind::Upsert),
                c.remove == count_kind(self.deltas@.take(i as int), DeltaKind::Remove),
                c.despawn == count_kind(self.deltas@.take(i as int), DeltaKind::Despawn),
            decreases self.deltas@.len() - i,
        {
            let ghost t = self.deltas@.take(i + 1);
            assert(t.drop_last() == self.deltas@.take(i as int));
            assert(t.last() == self.deltas@[i as int]);
            proof {
                lemma_counts_total(self.deltas@.take(i as int));
                lemma_count_kind_le(self.deltas@.take(i as int), DeltaKind::Spawn);
                lemma_count_kind_le(self.deltas@.take(i as int), DeltaKind::Upsert);
                lemma_count_kind_le(self.deltas@.take(i as int), DeltaKind::Remove);
                lemma_count_kind_le(self.deltas@.take(i as int), DeltaKind::Despawn);
            }
            match self.deltas[i].kind() {
                DeltaKind::Spawn => c.spawn = c.spawn + 1,
                DeltaKind::Upsert => c.upsert = c.upsert + 1,
                DeltaKind::Remove => c.remove = c.remove + 1,
                DeltaKind::Despawn => c.despawn = c.despawn + 1,
            }
            i = i + 1;
        }
        assert(self.deltas@.take(self.deltas@.len() as int) == self.deltas@);
        c
    }
}

impl Default for ReplicationOutbox {
    /// An empty outbox.
    fn default() -> (o: Self)
        ensures
            o.well_formed(),
            o.deltas@.len() == 0,
            o.audiences@.len() == 0,
    {
        ReplicationOutbox::new()
    }
}

/// Each delta is of the kind that bears its variant's name.
pub proof fn lemma_kind_names_variant(d: ReplicationDelta)
    ensures
        (kind_of(d) == DeltaKind::Spawn) <==> (d is Spawn),
        (kind_of(d) == DeltaKind::Upsert) <==> (d is Upsert),
        (kind_of(d) == DeltaKind::Remove) <==> (d is Remove),
        (kind_of(d) == DeltaKind::Despawn) <==> (d is Despawn),
{
}

/// Appending a delta raises the count of its own variant's kind by one
/// and leaves the other three counts as they were.
pub proof fn lemma_count_after_push(s: Seq<ReplicationDelta>, d: ReplicationDelta)
    ensures
        count_kind(s.push(d), DeltaKind::Spawn) == count_kind(s, DeltaKind::Spawn) + if d is Spawn { 1nat } else { 0nat },
        count_kind(s.push(d), DeltaKind::Upsert) == count_kind(s, DeltaKind::Upsert) + if d is Upsert { 1nat } else { 0nat },
        count_kind(s.push(d), DeltaKind::Remove) == count_kind(s, DeltaKind::Remove) + if d is Remove { 1nat } else { 0nat },
        count_kind(s.push(d), DeltaKind::Despawn) == count_kind(s, DeltaKind::Despawn) + if d is Despawn { 1nat } else { 0nat },
{
    assert(s.push(d).drop_last() == s);
    assert(s.push(d).last() == d);
}

/// A removal recorded for a still-replicated entity is counted as a
/// `Remove`, and as nothing else.
pub proof fn lemma_record_removal_counts(before: Seq<ReplicationDelta>, entity: ServerEntity, type_id: u16)
    ensures
        ({
            let after = before.push(ReplicationDelta::Remove { entity, type_id });
            &&& count_kind(after, DeltaKind::Remove) == count_kind(before, DeltaKind::Remove) + 1
            &&& count_kind(after, DeltaKind::Spawn) == count_kind(before, DeltaKind::Spawn)
            &&& count_kind(after, DeltaKind::Upsert) == count_kind(before, DeltaKind::Upsert)
            &&& count_kind(after, DeltaKind::Despawn) == count_kind(before, DeltaKind::Despawn)
        }),
{
    lemma_count_after_push(before, ReplicationDelta::Remove { entity, type_id });
}

/// No kind occurs more often than the sequence is long.
pub proof fn lemma_count_kind_le(s: Seq<ReplicationDelta>, k: DeltaKind)
    ensures
        count_kind(s, k) <= s.len(),
    decreases s.len(),
{
    if s.len() > 0 {
        lemma_count_kind_le(s.drop_last(), k);
    }
}

/// Every delta is of exactly one kind: the four counts add up to the
/// number of deltas.
pub proof fn lemma_counts_total(s: Seq<ReplicationDelta>)
    ensures
        count_kind(s, DeltaKind::Spawn) + count_kind(s, DeltaKind::Upsert) + count_kind(s, DeltaKind::Remove)
            + count_kind(s, DeltaKind::Despawn) == s.len(),
    decreases s.len(),
{
    if s.len() > 0 {
        lemma_counts_total(s.drop_last());
    }
}

} // verus!
