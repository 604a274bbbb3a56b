//! The object enumerator.
//!
//! Each poll re-reads, from the resolved world address, the dynamic array of
//! level pointers, then each level's dynamic array of object pointers; for
//! each object it reads a 4-byte identity at a fixed offset. An identity that
//! is already cached is skipped without touching the name table; a new one is
//! resolved through the name table and cached on success. A failure at any one
//! item skips that item for the current pass only: failures are never cached,
//! so a later pass may succeed once the remote state stabilises. The cache
//! counts its name-table walks, which makes the skip behaviour observable.

use vstd::prelude::*;

use crate::memory::{u32_at, MemorySource};
use crate::reader::{
    array_read_failure, spec_array_bytes, spec_gname, ActorInfo, MemoryReaderError,
    SoTMemoryReader,
};

verus! {

/// Byte offset of the level-pointer array off the world address.
pub const LEVELS_ARRAY_OFFSET: u64 = 0x150;

/// Byte offset of the object-pointer array off a level.
pub const ACTORS_ARRAY_OFFSET: u64 = 0xa0;

/// Byte offset of the 4-byte identity within an object.
pub const ACTOR_ID_OFFSET: u64 = 0x18;

/// Element width of a remote pointer array: the target's pointers are 8 bytes,
/// a property of the target, not of the host.
pub const REMOTE_POINTER_SIZE: u32 = 8;

/// The abstract content of one identity record.
pub struct ActorModel {
    pub id: u32,
    pub name: Seq<char>,
    pub base: u64,
}

impl View for ActorInfo {
    type V = ActorModel;

    open spec fn view(&self) -> ActorModel {
        ActorModel { id: self.id, name: self.raw_name@, base: self.base_address }
    }
}

/// The abstract state of the cache: its records, and how many name-table walks
/// it has performed.
pub struct PollState {
    pub actors: Seq<ActorModel>,
    pub resolutions: u64,
}

/// True when some record carries the identity.
pub open spec fn seq_has_id(s: Seq<ActorModel>, id: u32) -> bool {
    exists|i: int| 0 <= i < s.len() && (#[trigger] s[i]).id == id
}

/// The first record carrying the identity, if any.
pub open spec fn seq_find_id(s: Seq<ActorModel>, id: u32) -> Option<ActorModel>
    decreases s.len(),
{
    if s.len() == 0 {
        None
    } else if s[0].id == id {
        Some(s[0])
    } else {
        seq_find_id(s.drop_first(), id)
    }
}

/// The remote pointers of the dynamic array at `addr`, if its bulk read succeeds.
pub open spec fn spec_pointer_array(mem: Map<u64, u8>, addr: u64) -> Option<Seq<u64>> {
    match spec_array_bytes(mem, addr, REMOTE_POINTER_SIZE) {
        None => None,
        Some(bc) => Some(
            Seq::new(
                bc.1 as nat,
                |i: int| vstd::bytes::spec_u64_from_le_bytes(bc.0.subrange(8 * i, 8 * i + 8)),
            ),
        ),
    }
}

/// The level pointers of the world, if readable.
pub open spec fn spec_levels(mem: Map<u64, u8>, world: u64) -> Option<Seq<u64>> {
    spec_pointer_array(mem, world.wrapping_add(LEVELS_ARRAY_OFFSET))
}

/// The object pointers of a level, if readable.
pub open spec fn spec_level_actors(mem: Map<u64, u8>, level: u64) -> Option<Seq<u64>> {
    spec_pointer_array(mem, level.wrapping_add(ACTORS_ARRAY_OFFSET))
}

/// The identity of the object at `aptr`, if readable.
pub open spec fn spec_actor_id(mem: Map<u64, u8>, aptr: u64) -> Option<u32> {
    u32_at(mem, aptr.wrapping_add(ACTOR_ID_OFFSET))
}

/// One object's effect on the cache: an unreadable identity is skipped; a cached
/// identity is skipped without a name-table walk; a new identity costs one walk
/// and is cached exactly when its name resolves.
pub open spec fn poll_actor(mem: Map<u64, u8>, gstart: u64, aptr: u64, st: PollState) -> PollState {
    match spec_actor_id(mem, aptr) {
        None => st,
        Some(id) => if seq_has_id(st.actors, id) {
            st
        } else {
            let bumped = st.resolutions.saturating_add(1);
            match spec_gname(mem, gstart, id) {
                Some(name) => PollState {
                    actors: st.actors.push(ActorModel { id, name, base: aptr }),
                    resolutions: bumped,
                },
                None => PollState { actors: st.actors, resolutions: bumped },
            }
        },
    }
}

/// A level's objects folded over the cache, in order.
pub open spec fn poll_actors(mem: Map<u64, u8>, gstart: u64, aptrs: Seq<u64>, st: PollState) -> PollState
    decreases aptrs.len(),
{
    if aptrs.len() == 0 {
        st
    } else {
        poll_actors(mem, gstart, aptrs.drop_first(), poll_actor(mem, gstart, aptrs[0], st))
    }
}

/// One level's effect on the cache: a level whose object array cannot be read
/// is skipped whole for this pass.
pub open spec fn poll_level(mem: Map<u64, u8>, gstart: u64, level: u64, st: PollState) -> PollState {
    match spec_level_actors(mem, level) {
        None => st,
        Some(aptrs) => poll_actors(mem, gstart, aptrs, st),
    }
}

/// The levels folded over the cache, in order.
pub open spec fn poll_levels(mem: Map<u64, u8>, gstart: u64, levels: Seq<u64>, st: PollState) -> PollState
    decreases levels.len(),
{
    if levels.len() == 0 {
        st
    } else {
        poll_levels(mem, gstart, levels.drop_first(), poll_level(mem, gstart, levels[0], st))
    }
}

/// A whole poll from the world address: `None` exactly when the top-level
/// level array cannot be read, in which case nothing at all happens.
pub open spec fn spec_poll(mem: Map<u64, u8>, world: u64, gstart: u64, st: PollState) -> Option<
    PollState,
> {
    match spec_levels(mem, world) {
        None => None,
        Some(levels) => Some(poll_levels(mem, gstart, levels, st)),
    }
}

/// True when the object at `aptr` needs no name-table walk against the records
/// `s`: its identity is unreadable or already recorded.
pub open spec fn actor_known(mem: Map<u64, u8>, s: Seq<ActorModel>, aptr: u64) -> bool {
    match spec_actor_id(mem, aptr) {
        None => true,
        Some(id) => seq_has_id(s, id),
    }
}

/// True when no object of the level needs a name-table walk against `s`.
pub open spec fn level_ids_known(mem: Map<u64, u8>, s: Seq<ActorModel>, level: u64) -> bool {
    match spec_level_actors(mem, level) {
        None => true,
        Some(aptrs) => forall|i: int| 0 <= i < aptrs.len() ==> actor_known(mem, s, aptrs[i]),
    }
}

/// True when no object of any level needs a name-table walk against `s`.
pub open spec fn all_ids_known(mem: Map<u64, u8>, s: Seq<ActorModel>, levels: Seq<u64>) -> bool {
    forall|i: int| 0 <= i < levels.len() ==> level_ids_known(mem, s, #[trigger] levels[i])
}

proof fn lemma_poll_actors_known(mem: Map<u64, u8>, gstart: u64, aptrs: Seq<u64>, st: PollState)
    requires
        forall|i: int| 0 <= i < aptrs.len() ==> actor_known(mem, st.actors, aptrs[i]),
    ensures
        poll_actors(mem, gstart, aptrs, st) == st,
    decreases aptrs.len(),
{
    if aptrs.len() > 0 {
        assert(actor_known(mem, st.actors, aptrs[0]));
        assert(poll_actor(mem, gstart, aptrs[0], st) == st);
        assert(forall|i: int|
            0 <= i < aptrs.drop_first().len() ==> actor_known(
                mem,
                st.actors,
                aptrs.drop_first()[i],
            ));
        lemma_poll_actors_known(mem, gstart, aptrs.drop_first(), st);
    }
}

/// Polling is idempotent: against an unchanged object graph whose identities
/// are all already cached, a poll performs no name-table walk and leaves the
/// cache exactly as it was.
pub proof fn lemma_poll_idempotent(mem: Map<u64, u8>, gstart: u64, levels: Seq<u64>, st: PollState)
    requires
        all_ids_known(mem, st.actors, levels),
    ensures
        poll_levels(mem, gstart, levels, st) == st,
    decreases levels.len(),
{
    if levels.len() > 0 {
        assert(level_ids_known(mem, st.actors, levels[0]));
        match spec_level_actors(mem, levels[0]) {
            None => {},
            Some(aptrs) => {
                lemma_poll_actors_known(mem, gstart, aptrs, st);
            },
        }
        assert(poll_level(mem, gstart, levels[0], st) == st);
        assert(forall|i: int|
            0 <= i < levels.drop_first().len() ==> level_ids_known(
                mem,
                st.actors,
                #[trigger] levels.drop_first()[i],
            ));
        lemma_poll_idempotent(mem, gstart, levels.drop_first(), st);
    }
}

/// Idempotence at the whole-poll level: when the level array reads and every
/// identity in the graph is already cached, the poll succeeds and returns the
/// cache exactly as it was, with no name-table walk performed.
pub proof fn lemma_spec_poll_idempotent(mem: Map<u64, u8>, world: u64, gstart: u64, st: PollState)
    requires
        spec_levels(mem, world) matches Some(levels) && all_ids_known(mem, st.actors, levels),
    ensures
        spec_poll(mem, world, gstart, st) == Some(st),
{
    let levels = spec_levels(mem, world)->Some_0;
    lemma_poll_idempotent(mem, gstart, levels, st);
}

/// A poll only appends: the old records stay, in place and unchanged, and every
/// appended record's name is exactly what the name table resolves its identity
/// to, with an identity no earlier record carries.
pub proof fn lemma_poll_extends(mem: Map<u64, u8>, gstart: u64, levels: Seq<u64>, st: PollState)
    ensures
        ({
            let r = poll_levels(mem, gstart, levels, st);
            &&& r.actors.len() >= st.actors.len()
            &&& r.actors.take(st.actors.len() as int) == st.actors
            &&& forall|k: int|
                st.actors.len() <= k < r.actors.len() ==> spec_gname(
                    mem,
                    gstart,
                    (#[trigger] r.actors[k]).id,
                ) == Some(r.actors[k].name)
            &&& forall|k: int|
                st.actors.len() <= k < r.actors.len() ==> !seq_has_id(
                    r.actors.take(k),
                    (#[trigger] r.actors[k]).id,
                )
        }),
    decreases levels.len(),
{
    if levels.len() == 0 {
        assert(st.actors.take(st.actors.len() as int) =~= st.actors);
    } else {
        let st1 = poll_level(mem, gstart, levels[0], st);
        lemma_poll_level_extends(mem, gstart, levels[0], st);
        lemma_poll_extends(mem, gstart, levels.drop_first(), st1);
        let r = poll_levels(mem, gstart, levels, st);
        assert(r == poll_levels(mem, gstart, levels.drop_first(), st1));
        lemma_take_chain(st.actors, st1.actors, r.actors);
        assert forall|k: int| st.actors.len() <= k < st1.actors.len() implies r.actors[k]
            == st1.actors[k] && r.actors.take(k) == st1.actors.take(k) by {
            assert(r.actors.take(st1.actors.len() as int)[k] == st1.actors[k]);
            assert(r.actors.take(k) =~= r.actors.take(st1.actors.len() as int).take(k));
        }
    }
}

proof fn lemma_poll_level_extends(mem: Map<u64, u8>, gstart: u64, level: u64, st: PollState)
    ensures
        ({
            let r = poll_level(mem, gstart, level, st);
            &&& r.actors.len() >= st.actors.len()
            &&& r.actors.take(st.actors.len() as int) == st.actors
            &&& forall|k: int|
                st.actors.len() <= k < r.actors.len() ==> spec_gname(
                    mem,
                    gstart,
                    (#[trigger] r.actors[k]).id,
                ) == Some(r.actors[k].name)
            &&& forall|k: int|
                st.actors.len() <= k < r.actors.len() ==> !seq_has_id(
                    r.actors.take(k),
                    (#[trigger] r.actors[k]).id,
                )
        }),
{
    match spec_level_actors(mem, level) {
        None => {
            assert(st.actors.take(st.actors.len() as int) =~= st.actors);
        },
        Some(aptrs) => {
            lemma_poll_actors_extends(mem, gstart, aptrs, st);
        },
    }
}

proof fn lemma_poll_actors_extends(mem: Map<u64, u8>, gstart: u64, aptrs: Seq<u64>, st: PollState)
    ensures
        ({
            let r = poll_actors(mem, gstart, aptrs, st);
            &&& r.actors.len() >= st.actors.len()
            &&& r.actors.take(st.actors.len() as int) == st.actors
            &&& forall|k: int|
                st.actors.len() <= k < r.actors.len() ==> spec_gname(
                    mem,
                    gstart,
                    (#[trigger] r.actors[k]).id,
                ) == Some(r.actors[k].name)
            &&& forall|k: int|
                st.actors.len() <= k < r.actors.len() ==> !seq_has_id(
                    r.actors.take(k),
                    (#[trigger] r.actors[k]).id,
                )
        }),
    decreases aptrs.len(),
{
    if aptrs.len() == 0 {
        assert(st.actors.take(st.actors.len() as int) =~= st.actors);
    } else {
        let st1 = poll_actor(mem, gstart, aptrs[0], st);
        lemma_poll_actor_extends(mem, gstart, aptrs[0], st);
        lemma_poll_actors_extends(mem, gstart, aptrs.drop_first(), st1);
        let r = poll_actors(mem, gstart, aptrs, st);
        assert(r == poll_actors(mem, gstart, aptrs.drop_first(), st1));
        lemma_take_chain(st.actors, st1.actors, r.actors);
        assert forall|k: int| st.actors.len() <= k < st1.actors.len() implies r.actors[k]
            == st1.actors[k] && r.actors.take(k) == st1.actors.take(k) by {
            assert(r.actors.take(st1.actors.len() as int)[k] == st1.actors[k]);
            assert(r.actors.take(k) =~= r.actors.take(st1.actors.len() as int).take(k));
        }
    }
}

proof fn lemma_poll_actor_extends(mem: Map<u64, u8>, gstart: u64, aptr: u64, st: PollState)
    ensures
        ({
            let r = poll_actor(mem, gstart, aptr, st);
            &&& r.actors.len() >= st.actors.len()
            &&& r.actors.take(st.actors.len() as int) == st.actors
            &&& forall|k: int|
                st.actors.len() <= k < r.actors.len() ==> spec_gname(
                    mem,
                    gstart,
                    (#[trigger] r.actors[k]).id,
                ) == Some(r.actors[k].name)
            &&& forall|k: int|
                st.actors.len() <= k < r.actors.len() ==> !seq_has_id(
                    r.actors.take(k),
                    (#[trigger] r.actors[k]).id,
                )
        }),
{
    let r = poll_actor(mem, gstart, aptr, st);
    assert(st.actors.take(st.actors.len() as int) =~= st.actors);
    if r.actors.len() > st.actors.len() {
        assert(r.actors.take(st.actors.len() as int) =~= st.actors);
        assert(r.actors.take(r.actors.len() - 1) =~= st.actors);
    }
}

proof fn lemma_take_chain(a: Seq<ActorModel>, b: Seq<ActorModel>, c: Seq<ActorModel>)
    requires
        a.len() <= b.len() <= c.len(),
        b.take(a.len() as int) == a,
        c.take(b.len() as int) == b,
    ensures
        c.take(a.len() as int) == a,
{
    assert(c.take(a.len() as int) =~= c.take(b.len() as int).take(a.len() as int));
}

/// The cache of identity records: one record per distinct identity, in the
/// order first resolved, plus a count of the name-table walks performed.
pub struct ActorCache {
    pub actors: Vec<ActorInfo>,
    pub resolutions: u64,
}

impl ActorCache {
    /// The records as abstract values.
    pub open spec fn models(&self) -> Seq<ActorModel> {
        self.actors@.map_values(|a: ActorInfo| a@)
    }

    /// The abstract state a poll folds over.
    pub open spec fn state(&self) -> PollState {
        PollState { actors: self.models(), resolutions: self.resolutions }
    }

    /// No two records carry the same identity.
    pub open spec fn wf(&self) -> bool {
        forall|i: int, j: int|
            0 <= i < j < self.models().len() ==> (#[trigger] self.models()[i]).id != (
            #[trigger] self.models()[j]).id
    }

    /// An empty cache that has walked the name table zero times.
    pub fn new() -> (r: ActorCache)
        ensures
            r.models() == Seq::<ActorModel>::empty(),
            r.resolutions == 0,
            r.wf(),
    {
        let r = ActorCache { actors: Vec::new(), resolutions: 0 };
        proof {
            assert(r.models() =~= Seq::<ActorModel>::empty());
        }
        r
    }

    /// How many distinct identities are cached.
    pub fn len(&self) -> (r: usize)
        ensures
            r == self.models().len(),
    {
        self.actors.len()
    }

    /// True when a record carries the identity.
    pub fn contains_id(&self, id: u32) -> (r: bool)
        ensures
            r == seq_has_id(self.models(), id),
    {
        let n = self.actors.len();
        let mut i: usize = 0;
        while i < n
            invariant
                0 <= i <= n,
                n == self.actors@.len(),
                forall|k: int| 0 <= k < i ==> (#[trigger] self.models()[k]).id != id,
            decreases n - i,
        {
            if self.actors[i].id == id {
                assert(self.models()[i as int].id == id);
                return true;
            }
            i = i + 1;
        }
        false
    }

    /// The record carrying the identity, if any.
    pub fn get(&self, id: u32) -> (r: Option<&ActorInfo>)
        ensures
            r matches Some(a) ==> seq_find_id(self.models(), id) == Some(a@),
            r is None ==> !seq_has_id(self.models(), id),
    {
        proof {
            lemma_seq_find_id(self.models(), id);
            assert(self.models().skip(0) =~= self.models());
        }
        let n = self.actors.len();
        let mut i: usize = 0;
        while i < n
            invariant
                0 <= i <= n,
                n == self.actors@.len(),
                seq_find_id(self.models(), id) == seq_find_id(
                    self.models().skip(i as int),
                    id,
                ),
            decreases n - i,
        {
            if self.actors[i].id == id {
                proof {
                    let rest = self.models().skip(i as int);
                    assert(rest[0] == self.models()[i as int]);
                    assert(seq_find_id(rest, id) == Some(self.models()[i as int]));
                }
                return Some(&self.actors[i]);
            }
            proof {
                let rest = self.models().skip(i as int);
                assert(rest[0] == self.models()[i as int]);
                assert(rest.drop_first() =~= self.models().skip(i + 1 as int));
            }
            i = i + 1;
        }
        proof {
            assert(self.models().skip(n as int) =~= Seq::<ActorModel>::empty());
            lemma_seq_find_id(self.models(), id);
        }
        None
    }
}

proof fn lemma_seq_find_id(s: Seq<ActorModel>, id: u32)
    ensures
        seq_find_id(s, id) is Some <==> seq_has_id(s, id),
    decreases s.len(),
{
    if s.len() > 0 {
        lemma_seq_find_id(s.drop_first(), id);
        if s[0].id == id {
        } else {
            assert forall|i: int| 0 <= i < s.len() && (#[trigger] s[i]).id == id implies
                seq_has_id(s.drop_first(), id) by {
                assert(s.drop_first()[i - 1] == s[i]);
            }
            if seq_has_id(s.drop_first(), id) {
                let i = choose|i: int|
                    0 <= i < s.drop_first().len() && (#[trigger] s.drop_first()[i]).id == id;
                assert(s[i + 1] == s.drop_first()[i]);
            }
        }
    }
}

impl<M: MemorySource> SoTMemoryReader<M> {
    /// One poll: refresh the cache from the live object graph.
    ///
    /// The result is exactly the fold [`spec_poll`] of the graph over the old
    /// cache: old records survive unchanged, each new identity costs one
    /// name-table walk and is cached exactly when its name resolves, and a
    /// failed item is skipped for this pass only. The whole poll fails only
    /// when the top-level level array cannot be read, and then changes nothing.
    pub fn read_actors(&self, cache: &mut ActorCache) -> (r: Result<(), MemoryReaderError>)
        requires
            old(cache).wf(),
        ensures
            final(cache).wf(),
            r is Ok ==> spec_poll(
                self.rm.mem(),
                self.spec_world(),
                self.rm.g_name_start_address,
                old(cache).state(),
            ) == Some(final(cache).state()),
            r is Err ==> *final(cache) == *old(cache),
            r matches Err(e) ==> match e {
                MemoryReaderError::MemoryReadingError(f) => spec_poll(
                    self.rm.mem(),
                    self.spec_world(),
                    self.rm.g_name_start_address,
                    old(cache).state(),
                ) is None && array_read_failure(
                    self.rm.mem(),
                    self.spec_world().wrapping_add(LEVELS_ARRAY_OFFSET),
                    REMOTE_POINTER_SIZE,
                    f,
                ),
                _ => false,
            },
    {
        let ghost mem = self.rm.mem();
        let ghost gstart = self.rm.g_name_start_address;
        let ghost st0 = cache.state();
        let levels = match self.read_array(
            self.world_address.wrapping_add(LEVELS_ARRAY_OFFSET),
            REMOTE_POINTER_SIZE,
        ) {
            Ok(a) => a,
            Err(e) => {
                return Err(e);
            },
        };
        let ghost level_ptrs = spec_levels(mem, self.spec_world())->Some_0;
        proof {
            assert(spec_levels(mem, self.spec_world()) is Some);
            assert(level_ptrs.len() == levels.count as int);
            assert(level_ptrs.skip(0) =~= level_ptrs);
            assert forall|i: int| 0 <= i < levels.count implies #[trigger] level_ptrs[i]
                == vstd::bytes::spec_u64_from_le_bytes(levels.spec_element(i)) by {
                assert(levels.spec_element(i) == levels.spec_bytes().subrange(8 * i, 8 * i + 8));
            }
        }
        let level_count = levels.count;
        let mut li: u32 = 0;
        while li < level_count
            invariant
                0 <= li <= level_count,
                levels.wf(),
                levels.spec_item_size() == REMOTE_POINTER_SIZE,
                level_count == levels.count,
                cache.wf(),
                self.rm.mem() == mem,
                self.rm.g_name_start_address == gstart,
                level_ptrs.len() == level_count as int,
                forall|i: int|
                    0 <= i < level_count ==> #[trigger] level_ptrs[i]
                        == vstd::bytes::spec_u64_from_le_bytes(levels.spec_element(i)),
                poll_levels(mem, gstart, level_ptrs, st0) == poll_levels(
                    mem,
                    gstart,
                    level_ptrs.skip(li as int),
                    cache.state(),
                ),
            decreases level_count - li,
        {
            let level_ptr = levels.element_u64(li);
            assert(level_ptr == level_ptrs[li as int]);
            let ghost st_before = cache.state();
            match self.read_array(level_ptr.wrapping_add(ACTORS_ARRAY_OFFSET), REMOTE_POINTER_SIZE) {
                Err(_) => {
                    proof {
                        assert(spec_level_actors(mem, level_ptr) is None);
                        assert(poll_level(mem, gstart, level_ptr, st_before) == st_before);
                    }
                },
                Ok(actors_arr) => {
                    let ghost actor_ptrs = spec_level_actors(mem, level_ptr)->Some_0;
                    proof {
                        assert(spec_level_actors(mem, level_ptr) is Some);
                        assert(actor_ptrs.len() == actors_arr.count as int);
                        assert(actor_ptrs.skip(0) =~= actor_ptrs);
                        assert forall|i: int| 0 <= i < actors_arr.count implies #[trigger] actor_ptrs[i]
                            == vstd::bytes::spec_u64_from_le_bytes(actors_arr.spec_element(i)) by {
                            assert(actors_arr.spec_element(i) == actors_arr.spec_bytes().subrange(
                                8 * i,
                                8 * i + 8,
                            ));
                        }
                    }
                    let actor_count = actors_arr.count;
                    let mut ai: u32 = 0;
                    while ai < actor_count
                        invariant
                            0 <= ai <= actor_count,
                            actors_arr.wf(),
                            actors_arr.spec_item_size() == REMOTE_POINTER_SIZE,
                            actor_count == actors_arr.count,
                            cache.wf(),
                            self.rm.mem() == mem,
                            self.rm.g_name_start_address == gstart,
                            actor_ptrs.len() == actor_count as int,
                            forall|i: int|
                                0 <= i < actor_count ==> #[trigger] actor_ptrs[i]
                                    == vstd::bytes::spec_u64_from_le_bytes(
                                    actors_arr.spec_element(i),
                                ),
                            poll_actors(mem, gstart, actor_ptrs, st_before) == poll_actors(
                                mem,
                                gstart,
                                actor_ptrs.skip(ai as int),
                                cache.state(),
                            ),
                        decreases actor_count - ai,
                    {
                        let actor_ptr = actors_arr.element_u64(ai);
                        assert(actor_ptr == actor_ptrs[ai as int]);
                        let ghost st_in = cache.state();
                        match self.rm.read_u32(actor_ptr.wrapping_add(ACTOR_ID_OFFSET)) {
                            Err(_) => {
                                proof {
                                    assert(spec_actor_id(mem, actor_ptr) is None);
                                    assert(poll_actor(mem, gstart, actor_ptr, st_in) == st_in);
                                }
                            },
                            Ok(actor_id) => {
                                assert(spec_actor_id(mem, actor_ptr) == Some(actor_id));
                                if cache.contains_id(actor_id) {
                                    proof {
                                        assert(poll_actor(mem, gstart, actor_ptr, st_in) == st_in);
                                    }
                                } else {
                                    cache.resolutions = cache.resolutions.saturating_add(1);
                                    match self.rm.read_gname(actor_id) {
                                        Ok(name) => {
                                            let info = ActorInfo {
                                                id: actor_id,
                                                raw_name: name,
                                                base_address: actor_ptr,
                                            };
                                            let ghost prev = cache.models();
                                            cache.actors.push(info);
                                            proof {
                                                assert(cache.models() =~= prev.push(info@));
                                                assert(poll_actor(mem, gstart, actor_ptr, st_in)
                                                    == cache.state());
                                                assert forall|i: int, j: int|
                                                    0 <= i < j < cache.models().len() implies (
                                                #[trigger] cache.models()[i]).id != (
                                                #[trigger] cache.models()[j]).id by {
                                                    if j < cache.models().len() - 1 {
                                                    } else {
                                                        assert(cache.models()[j] == info@);
                                                        assert(!seq_has_id(prev, actor_id));
                                                    }
                                                }
                                            }
                                        },
                                        Err(_) => {
                                            proof {
                                                assert(spec_gname(mem, gstart, actor_id) is None);
                                                assert(poll_actor(mem, gstart, actor_ptr, st_in)
                                                    == cache.state());
                                            }
                                        },
                                    }
                                }
                            },
                        }
                        proof {
                            assert(actor_ptrs.skip(ai as int).drop_first() =~= actor_ptrs.skip(
                                ai + 1 as int,
                            ));
                            assert(actor_ptrs.skip(ai as int)[0] == actor_ptrs[ai as int]);
                        }
                        ai = ai + 1;
                    }
                    proof {
                        assert(actor_ptrs.skip(actor_count as int) =~= Seq::<u64>::empty());
                        assert(poll_level(mem, gstart, level_ptr, st_before) == cache.state());
                    }
                },
            }
            proof {
                assert(level_ptrs.skip(li as int).drop_first() =~= level_ptrs.skip(li + 1 as int));
                assert(level_ptrs.skip(li as int)[0] == level_ptrs[li as int]);
            }
            li = li + 1;
        }
        proof {
            assert(level_ptrs.skip(level_count as int) =~= Seq::<u64>::empty());
        }
        Ok(())
    }
}

} // verus!
