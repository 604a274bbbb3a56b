//! The world model: named object instances the engine's consumers care about.
//!
//! [`EmmissaryTables`] tags specific object instances by display name;
//! [`CrewService`] reads the crew roster out of one tagged instance, keyed by
//! a 16-byte identifier, and counts players; [`World`] bundles both. These are
//! thin consumers of the engine: every remote value they read arrives through
//! the reader's contracts.

use vstd::prelude::*;

use crate::actors::ActorModel;
use crate::memory::{bytes_at, MemorySource};
use crate::reader::{spec_array_header, ActorInfo, MemoryReaderError, SoTMemoryReader};
use crate::sdk::SdkService;

verus! {

/// A 16-byte remote identifier, read as four little-endian 32-bit words.
#[allow(non_snake_case)]
#[derive(PartialEq, Eq, Structural, Hash, Debug, Clone, Copy)]
pub struct Guid {
    pub A: u32,
    pub B: u32,
    pub C: u32,
    pub D: u32,
}

/// The identifier encoded by 16 bytes.
pub open spec fn spec_guid(b: Seq<u8>) -> Guid {
    Guid {
        A: vstd::bytes::spec_u32_from_le_bytes(b.subrange(0, 4)),
        B: vstd::bytes::spec_u32_from_le_bytes(b.subrange(4, 8)),
        C: vstd::bytes::spec_u32_from_le_bytes(b.subrange(8, 12)),
        D: vstd::bytes::spec_u32_from_le_bytes(b.subrange(12, 16)),
    }
}

/// The identifier that `mem` holds at `addr`, if mapped.
pub open spec fn guid_at(mem: Map<u64, u8>, addr: u64) -> Option<Guid> {
    match bytes_at(mem, addr, 16) {
        Some(b) => Some(spec_guid(b)),
        None => None,
    }
}

impl Guid {
    /// The identifier read byte for byte from a 16-byte buffer.
    pub fn from_bytes(b: &[u8]) -> (r: Guid)
        requires
            b@.len() == 16,
        ensures
            r == spec_guid(b@),
    {
        let a = vstd::bytes::u32_from_le_bytes(vstd::slice::slice_subrange(b, 0, 4));
        let bb = vstd::bytes::u32_from_le_bytes(vstd::slice::slice_subrange(b, 4, 8));
        let c = vstd::bytes::u32_from_le_bytes(vstd::slice::slice_subrange(b, 8, 12));
        let d = vstd::bytes::u32_from_le_bytes(vstd::slice::slice_subrange(b, 12, 16));
        Guid { A: a, B: bb, C: c, D: d }
    }
}

/// The record of an `Option` of identity records, for contracts.
pub open spec fn opt_model(o: Option<ActorInfo>) -> Option<ActorModel> {
    match o {
        Some(a) => Some(a@),
        None => None,
    }
}

/// The tagged emissary-table instances, one slot per known table name.
pub struct EmmissaryTables {
    pub athena_emissary_table: Option<ActorInfo>,
    pub reaper_emissary_table: Option<ActorInfo>,
    pub sovereign_emissary_table: Option<ActorInfo>,
    pub merchant_alliance_emissary_table: Option<ActorInfo>,
    pub gold_hoarders_emissary_table: Option<ActorInfo>,
    pub order_of_souls_emissary_table: Option<ActorInfo>,
}

impl EmmissaryTables {
    /// All slots empty.
    pub fn new() -> (r: EmmissaryTables)
        ensures
            r.athena_emissary_table is None,
            r.reaper_emissary_table is None,
            r.sovereign_emissary_table is None,
            r.merchant_alliance_emissary_table is None,
            r.gold_hoarders_emissary_table is None,
            r.order_of_souls_emissary_table is None,
    {
        EmmissaryTables {
            athena_emissary_table: None,
            reaper_emissary_table: None,
            sovereign_emissary_table: None,
            merchant_alliance_emissary_table: None,
            gold_hoarders_emissary_table: None,
            order_of_souls_emissary_table: None,
        }
    }

    /// The display names and the slots they present, in a fixed order.
    pub fn get_mapping<'a>(&'a self) -> (r: Vec<(&'static str, &'a Option<ActorInfo>)>)
        ensures
            r@.len() == 6,
            r@[0].0@ == "BP_EmissaryTable_GoldHoarders_01"@,
            r@[0].1 == &self.gold_hoarders_emissary_table,
            r@[1].0@ == "BP_EmissaryTable_MerchantAlliance_01"@,
            r@[1].1 == &self.merchant_alliance_emissary_table,
            r@[2].0@ == "BP_EmissaryTable_OrderOfSouls_01"@,
            r@[2].1 == &self.order_of_souls_emissary_table,
            r@[3].0@ == "BP_EmissaryTable_Sov_01_a_C"@,
            r@[3].1 == &self.sovereign_emissary_table,
            r@[4].0@ == "BP_FactionEmissaryTable_Reapers2"@,
            r@[4].1 == &self.reaper_emissary_table,
            r@[5].0@ == "BP_FactionEmissaryTable_Athena"@,
            r@[5].1 == &self.athena_emissary_table,
    {
        let mut r: Vec<(&'static str, &'a Option<ActorInfo>)> = Vec::new();
        r.push(("BP_EmissaryTable_GoldHoarders_01", &self.gold_hoarders_emissary_table));
        r.push(("BP_EmissaryTable_MerchantAlliance_01", &self.merchant_alliance_emissary_table));
        r.push(("BP_EmissaryTable_OrderOfSouls_01", &self.order_of_souls_emissary_table));
        r.push(("BP_EmissaryTable_Sov_01_a_C", &self.sovereign_emissary_table));
        r.push(("BP_FactionEmissaryTable_Reapers2", &self.reaper_emissary_table));
        r.push(("BP_FactionEmissaryTable_Athena", &self.athena_emissary_table));
        r
    }

    /// File an enumerated object under the slot its display name selects; an
    /// object with any other name changes nothing.
    pub fn assign_actor(&mut self, actor: &ActorInfo)
        ensures
            ({
                let name = actor.raw_name@;
                if name == "BP_EmissaryTable_GoldHoarders_01"@ {
                    opt_model(final(self).gold_hoarders_emissary_table) == Some(actor@) &&
                    final(self).merchant_alliance_emissary_table == old(self).merchant_alliance_emissary_table &&
                    final(self).order_of_souls_emissary_table == old(self).order_of_souls_emissary_table &&
                    final(self).sovereign_emissary_table == old(self).sovereign_emissary_table &&
                    final(self).reaper_emissary_table == old(self).reaper_emissary_table &&
                    final(self).athena_emissary_table == old(self).athena_emissary_table
                } else if name == "BP_EmissaryTable_MerchantAlliance_01"@ {
                    opt_model(final(self).merchant_alliance_emissary_table) == Some(actor@) &&
                    final(self).gold_hoarders_emissary_table == old(self).gold_hoarders_emissary_table &&
                    final(self).order_of_souls_emissary_table == old(self).order_of_souls_emissary_table &&
                    final(self).sovereign_emissary_table == old(self).sovereign_emissary_table &&
                    final(self).reaper_emissary_table == old(self).reaper_emissary_table &&
                    final(self).athena_emissary_table == old(self).athena_emissary_table
                } else if name == "BP_EmissaryTable_OrderOfSouls_01"@ {
                    opt_model(final(self).order_of_souls_emissary_table) == Some(actor@) &&
                    final(self).gold_hoarders_emissary_table == old(self).gold_hoarders_emissary_table &&
                    final(self).merchant_alliance_emissary_table == old(self).merchant_alliance_emissary_table &&
                    final(self).sovereign_emissary_table == old(self).sovereign_emissary_table &&
                    final(self).reaper_emissary_table == old(self).reaper_emissary_table &&
                    final(self).athena_emissary_table == old(self).athena_emissary_table
                } else if name == "BP_EmissaryTable_Sov_01_a_C"@ {
                    opt_model(final(self).sovereign_emissary_table) == Some(actor@) &&
                    final(self).gold_hoarders_emissary_table == old(self).gold_hoarders_emissary_table &&
                    final(self).merchant_alliance_emissary_table == old(self).merchant_alliance_emissary_table &&
                    final(self).order_of_souls_emissary_table == old(self).order_of_souls_emissary_table &&
                    final(self).reaper_emissary_table == old(self).reaper_emissary_table &&
                    final(self).athena_emissary_table == old(self).athena_emissary_table
                } else if name == "BP_FactionEmissaryTable_Reapers2"@ {
                    opt_model(final(self).reaper_emissary_table) == Some(actor@) &&
                    final(self).gold_hoarders_emissary_table == old(self).gold_hoarders_emissary_table &&
                    final(self).merchant_alliance_emissary_table == old(self).merchant_alliance_emissary_table &&
                    final(self).order_of_souls_emissary_table == old(self).order_of_souls_emissary_table &&
                    final(self).sovereign_emissary_table == old(self).sovereign_emissary_table &&
                    final(self).athena_emissary_table == old(self).athena_emissary_table
                } else if name == "BP_FactionEmissaryTable_Athena"@ {
                    opt_model(final(self).athena_emissary_table) == Some(actor@) &&
                    final(self).gold_hoarders_emissary_table == old(self).gold_hoarders_emissary_table &&
                    final(self).merchant_alliance_emissary_table == old(self).merchant_alliance_emissary_table &&
                    final(self).order_of_souls_emissary_table == old(self).order_of_souls_emissary_table &&
                    final(self).sovereign_emissary_table == old(self).sovereign_emissary_table &&
                    final(self).reaper_emissary_table == old(self).reaper_emissary_table
                } else {
                    *final(self) == *old(self)
                }
            }),
    {
        let dup = ActorInfo {
            id: actor.id,
            raw_name: actor.raw_name.clone(),
            base_address: actor.base_address,
        };
        if actor.raw_name.eq(&"BP_EmissaryTable_GoldHoarders_01".to_owned()) {
            self.gold_hoarders_emissary_table = Some(dup);
        } else if actor.raw_name.eq(&"BP_EmissaryTable_MerchantAlliance_01".to_owned()) {
            self.merchant_alliance_emissary_table = Some(dup);
        } else if actor.raw_name.eq(&"BP_EmissaryTable_OrderOfSouls_01".to_owned()) {
            self.order_of_souls_emissary_table = Some(dup);
        } else if actor.raw_name.eq(&"BP_EmissaryTable_Sov_01_a_C".to_owned()) {
            self.sovereign_emissary_table = Some(dup);
        } else if actor.raw_name.eq(&"BP_FactionEmissaryTable_Reapers2".to_owned()) {
            self.reaper_emissary_table = Some(dup);
        } else if actor.raw_name.eq(&"BP_FactionEmissaryTable_Athena".to_owned()) {
            self.athena_emissary_table = Some(dup);
        }
    }
}

/// True when some crew entry carries the identifier.
pub open spec fn has_guid(s: Seq<(Guid, u32)>, g: Guid) -> bool {
    exists|i: int| 0 <= i < s.len() && (#[trigger] s[i]).0 == g
}

/// The index of the first crew entry carrying the identifier.
pub open spec fn first_guid_index(s: Seq<(Guid, u32)>, g: Guid) -> int
    decreases s.len(),
{
    if s.len() == 0 {
        0
    } else if s[0].0 == g {
        0
    } else {
        1 + first_guid_index(s.drop_first(), g)
    }
}

pub proof fn lemma_first_guid_index(s: Seq<(Guid, u32)>, g: Guid)
    requires
        has_guid(s, g),
    ensures
        0 <= first_guid_index(s, g) < s.len(),
        s[first_guid_index(s, g)].0 == g,
        forall|k: int| 0 <= k < first_guid_index(s, g) ==> s[k].0 != g,
    decreases s.len(),
{
    if s.len() > 0 && s[0].0 != g {
        let i = choose|i: int| 0 <= i < s.len() && (#[trigger] s[i]).0 == g;
        assert(s.drop_first()[i - 1] == s[i]);
        lemma_first_guid_index(s.drop_first(), g);
        assert forall|k: int| 0 <= k < first_guid_index(s, g) implies s[k].0 != g by {
            if k > 0 {
                assert(s.drop_first()[k - 1] == s[k]);
            }
        }
    }
}

/// A roster entry written in: the first entry with the same identifier is
/// replaced in place, else the entry is appended.
pub open spec fn upsert(s: Seq<(Guid, u32)>, g: Guid, n: u32) -> Seq<(Guid, u32)> {
    if has_guid(s, g) {
        s.update(first_guid_index(s, g), (g, n))
    } else {
        s.push((g, n))
    }
}

/// One crew's effect on the roster: an unreadable identifier or player array
/// skips the crew for this pass.
pub open spec fn crews_step(
    mem: Map<u64, u8>,
    p: u64,
    guid_off: u32,
    players_off: u32,
    s: Seq<(Guid, u32)>,
) -> Seq<(Guid, u32)> {
    match guid_at(mem, p.wrapping_add(guid_off as u64)) {
        None => s,
        Some(g) => match spec_array_header(mem, p.wrapping_add(players_off as u64)) {
            None => s,
            Some(hc) => upsert(s, g, hc.1),
        },
    }
}

/// The crews from index `i` on folded over the roster, each at its stride off
/// the crew array's base.
pub open spec fn crews_fold(
    mem: Map<u64, u8>,
    base: u64,
    stride: u64,
    i: int,
    count: int,
    guid_off: u32,
    players_off: u32,
    s: Seq<(Guid, u32)>,
) -> Seq<(Guid, u32)>
    decreases count - i,
    when i <= count
{
    if i >= count {
        s
    } else {
        crews_fold(
            mem,
            base,
            stride,
            i + 1,
            count,
            guid_off,
            players_off,
            crews_step(
                mem,
                base.wrapping_add((i as u64).wrapping_mul(stride)),
                guid_off,
                players_off,
                s,
            ),
        )
    }
}

/// The full roster read: the crew array header at its offset off the tagged
/// instance, then every crew folded over an empty roster.
pub open spec fn spec_crews(
    mem: Map<u64, u8>,
    actor_base: u64,
    crews_off: u32,
    crew_size: u64,
    guid_off: u32,
    players_off: u32,
) -> Option<Seq<(Guid, u32)>> {
    match spec_array_header(mem, actor_base.wrapping_add(crews_off as u64)) {
        None => None,
        Some(hc) => Some(
            crews_fold(mem, hc.0, crew_size, 0, hc.1 as int, guid_off, players_off, Seq::empty()),
        ),
    }
}

/// The roster's player counts summed, saturating at the counter's width.
pub open spec fn sat_sum_from(s: Seq<(Guid, u32)>, i: int, acc: u32) -> u32
    decreases s.len() - i,
    when 0 <= i <= s.len()
{
    if i >= s.len() {
        acc
    } else {
        sat_sum_from(s, i + 1, acc.saturating_add(s[i].1))
    }
}

/// The roster's player counts summed, saturating at the counter's width.
pub open spec fn sat_sum(s: Seq<(Guid, u32)>) -> u32 {
    sat_sum_from(s, 0, 0)
}

/// Write one roster entry in, replacing the first entry with the same
/// identifier or appending.
fn upsert_crew(crews: &mut Vec<(Guid, u32)>, g: Guid, n: u32)
    ensures
        final(crews)@ == upsert(old(crews)@, g, n),
{
    let len = crews.len();
    let mut i: usize = 0;
    while i < len
        invariant
            0 <= i <= len,
            len == crews@.len(),
            crews@ == old(crews)@,
            forall|k: int| 0 <= k < i ==> (#[trigger] crews@[k]).0 != g,
        decreases len - i,
    {
        let (cg, _) = crews[i];
        if cg == g {
            proof {
                assert(has_guid(crews@, g));
                lemma_first_guid_index(crews@, g);
                assert(first_guid_index(crews@, g) == i as int);
            }
            let ghost prev = crews@;
            crews.remove(i);
            crews.insert(i, (g, n));
            proof {
                assert(crews@ =~= prev.update(i as int, (g, n)));
            }
            return ;
        }
        i = i + 1;
    }
    assert(!has_guid(crews@, g));
    crews.push((g, n));
}

/// The crew roster service: one tagged instance, its crews keyed by identifier
/// with each crew's player count, and the saturating total.
pub struct CrewService {
    pub actor: ActorInfo,
    pub crews: Vec<(Guid, u32)>,
    pub my_crew_id: Option<Guid>,
    pub total_players: u32,
}

impl CrewService {
    /// A fresh service over the tagged instance, with an empty roster.
    pub fn new(actor: ActorInfo) -> (r: CrewService)
        ensures
            r.actor == actor,
            r.crews@ == Seq::<(Guid, u32)>::empty(),
            r.my_crew_id is None,
            r.total_players == 0,
    {
        CrewService { actor, crews: Vec::new(), my_crew_id: None, total_players: 0 }
    }

    /// Read the roster: the crew array off the tagged instance, then for each
    /// crew its identifier and its player array's count. A crew whose reads
    /// fail is skipped for this pass; the whole read fails only when the crew
    /// array header cannot be read.
    fn get_crews<M: MemorySource>(&self, reader: &SoTMemoryReader<M>, sdk: &SdkService) -> (r:
        Result<Vec<(Guid, u32)>, MemoryReaderError>)
        requires
            sdk.spec_offset("CrewService.Crews"@) is Some,
            sdk.spec_type_size("Crew"@) is Some,
            sdk.spec_offset("Crew.CrewId"@) is Some,
            sdk.spec_offset("Crew.Players"@) is Some,
        ensures
            ({
                let crews_off = sdk.spec_offset("CrewService.Crews"@)->Some_0;
                let crew_size = sdk.spec_type_size("Crew"@)->Some_0;
                let guid_off = sdk.spec_offset("Crew.CrewId"@)->Some_0;
                let players_off = sdk.spec_offset("Crew.Players"@)->Some_0;
                let crews = spec_crews(
                    reader.rm.mem(),
                    self.actor.base_address,
                    crews_off,
                    crew_size as u64,
                    guid_off,
                    players_off,
                );
                &&& (r matches Ok(v) ==> crews == Some(v@))
                &&& (r is Err ==> crews is None)
            }),
    {
        let crews_off = sdk.get_offset("CrewService.Crews");
        let crew_size = sdk.get_class_or_struct_size("Crew");
        let crew_array = match reader.read_array_sized(
            self.actor.base_address.wrapping_add(crews_off as u64),
            crew_size as u64,
        ) {
            Ok(a) => a,
            Err(e) => {
                return Err(e);
            },
        };
        let guid_off = sdk.get_offset("Crew.CrewId");
        let players_off = sdk.get_offset("Crew.Players");
        let ghost mem = reader.rm.mem();
        let ghost base = crew_array.spec_pointer();
        let ghost stride = crew_array.spec_item_size();
        let count = crew_array.count;
        let mut crews: Vec<(Guid, u32)> = Vec::new();
        let mut i: u32 = 0;
        while i < count
            invariant
                0 <= i <= count,
                reader.rm.mem() == mem,
                crew_array.spec_pointer() == base,
                crew_array.spec_item_size() == stride,
                crew_array.count == count,
                crews_fold(
                    mem,
                    base,
                    stride,
                    0,
                    count as int,
                    guid_off,
                    players_off,
                    Seq::empty(),
                ) == crews_fold(
                    mem,
                    base,
                    stride,
                    i as int,
                    count as int,
                    guid_off,
                    players_off,
                    crews@,
                ),
            decreases count - i,
        {
            let p = crew_array.element_pointer(i);
            let ghost before = crews@;
            match reader.rm.read_bytes(p.wrapping_add(guid_off as u64), 16) {
                Err(_) => {
                    proof {
                        assert(guid_at(mem, p.wrapping_add(guid_off as u64)) is None);
                        assert(crews_step(mem, p, guid_off, players_off, before) == before);
                    }
                },
                Ok(gb) => {
                    let g = Guid::from_bytes(gb.as_slice());
                    match reader.read_array_sized(p.wrapping_add(players_off as u64), 0) {
                        Err(_) => {
                            proof {
                                assert(crews_step(mem, p, guid_off, players_off, before)
                                    == before);
                            }
                        },
                        Ok(players) => {
                            upsert_crew(&mut crews, g, players.count);
                            proof {
                                assert(crews_step(mem, p, guid_off, players_off, before)
                                    == crews@);
                            }
                        },
                    }
                },
            }
            i = i + 1;
        }
        Ok(crews)
    }

    /// The roster's player counts summed, saturating.
    pub fn get_total_players(&self) -> (r: u32)
        ensures
            r == sat_sum(self.crews@),
    {
        proof {
            assert(sat_sum(self.crews@) == sat_sum_from(self.crews@, 0, 0));
        }
        let len = self.crews.len();
        let mut acc: u32 = 0;
        let mut i: usize = 0;
        while i < len
            invariant
                0 <= i <= len,
                len == self.crews@.len(),
                sat_sum(self.crews@) == sat_sum_from(self.crews@, i as int, acc),
            decreases len - i,
        {
            let (_, n) = self.crews[i];
            acc = acc.saturating_add(n);
            i = i + 1;
        }
        acc
    }

    /// One refresh: re-read the roster and recompute the total. On failure the
    /// service is left exactly as it was.
    pub fn update<M: MemorySource>(&mut self, reader: &SoTMemoryReader<M>, sdk: &SdkService) -> (r:
        Result<(), MemoryReaderError>)
        requires
            sdk.spec_offset("CrewService.Crews"@) is Some,
            sdk.spec_type_size("Crew"@) is Some,
            sdk.spec_offset("Crew.CrewId"@) is Some,
            sdk.spec_offset("Crew.Players"@) is Some,
        ensures
            ({
                let crews = spec_crews(
                    reader.rm.mem(),
                    old(self).actor.base_address,
                    sdk.spec_offset("CrewService.Crews"@)->Some_0,
                    sdk.spec_type_size("Crew"@)->Some_0 as u64,
                    sdk.spec_offset("Crew.CrewId"@)->Some_0,
                    sdk.spec_offset("Crew.Players"@)->Some_0,
                );
                &&& (r is Ok ==> (crews matches Some(c) && final(self).crews@ == c
                    && final(self).total_players == sat_sum(c)
                    && final(self).actor == old(self).actor
                    && final(self).my_crew_id == old(self).my_crew_id))
                &&& (r is Err ==> crews is None && *final(self) == *old(self))
            }),
    {
        match self.get_crews(reader, sdk) {
            Ok(crews) => {
                self.crews = crews;
                self.total_players = self.get_total_players();
                Ok(())
            },
            Err(e) => Err(e),
        }
    }
}

/// Everything the consumers track about the target's world.
pub struct World {
    pub events: Vec<ActorInfo>,
    pub crew_service: Option<CrewService>,
    pub emissary_tables: EmmissaryTables,
}

impl World {
    /// An empty world: no events, no crew service, no tagged tables.
    pub fn new() -> (r: World)
        ensures
            r.events@ == Seq::<ActorInfo>::empty(),
            r.crew_service is None,
            r.emissary_tables.athena_emissary_table is None,
            r.emissary_tables.reaper_emissary_table is None,
            r.emissary_tables.sovereign_emissary_table is None,
            r.emissary_tables.merchant_alliance_emissary_table is None,
            r.emissary_tables.gold_hoarders_emissary_table is None,
            r.emissary_tables.order_of_souls_emissary_table is None,
    {
        World { events: Vec::new(), crew_service: None, emissary_tables: EmmissaryTables::new() }
    }
}

} // verus!
