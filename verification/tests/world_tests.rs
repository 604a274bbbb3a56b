use sot_reader::memory::SparseMemory;
use sot_reader::reader::{ActorInfo, MemoryReader, SoTMemoryReader};
use sot_reader::sdk::{sdk_service, SdkAttribute, SdkClass, SdkStruct};
use sot_reader::world::{CrewService, EmmissaryTables, Guid, World};

fn actor(id: u32, name: &str, base: u64) -> ActorInfo {
    ActorInfo {
        id,
        raw_name: name.to_owned(),
        base_address: base,
    }
}

#[test]
fn world_starts_empty() {
    let w = World::new();
    assert!(w.events.is_empty());
    assert!(w.crew_service.is_none());
    assert!(w.emissary_tables.gold_hoarders_emissary_table.is_none());
    assert!(w.emissary_tables.athena_emissary_table.is_none());
}

#[test]
fn mapping_lists_six_slots_in_fixed_order() {
    let mut t = EmmissaryTables::new();
    t.assign_actor(&actor(7, "BP_FactionEmissaryTable_Athena", 0x1000));
    let m = t.get_mapping();
    assert_eq!(m.len(), 6);
    assert_eq!(m[0].0, "BP_EmissaryTable_GoldHoarders_01");
    assert_eq!(m[3].0, "BP_EmissaryTable_Sov_01_a_C");
    assert_eq!(m[5].0, "BP_FactionEmissaryTable_Athena");
    assert!(m[5].1.is_some());
    assert!(m[0].1.is_none());
}

#[test]
fn mapping_presents_the_order_of_souls_slot() {
    let mut t = EmmissaryTables::new();
    t.assign_actor(&actor(4, "BP_EmissaryTable_OrderOfSouls_01", 0x400));
    let m = t.get_mapping();
    assert_eq!(m[2].0, "BP_EmissaryTable_OrderOfSouls_01");
    assert_eq!(m[2].1.as_ref().unwrap().base_address, 0x400);
}

#[test]
fn assign_actor_files_by_display_name() {
    let mut t = EmmissaryTables::new();
    t.assign_actor(&actor(1, "BP_EmissaryTable_GoldHoarders_01", 0x100));
    t.assign_actor(&actor(2, "BP_FactionEmissaryTable_Reapers2", 0x200));
    t.assign_actor(&actor(3, "SomethingElse", 0x300));
    assert_eq!(t.gold_hoarders_emissary_table.as_ref().unwrap().base_address, 0x100);
    assert_eq!(t.reaper_emissary_table.as_ref().unwrap().base_address, 0x200);
    assert!(t.sovereign_emissary_table.is_none());
    assert!(t.merchant_alliance_emissary_table.is_none());
}

#[test]
fn guid_reads_four_little_endian_words() {
    let b = [
        0x01, 0x00, 0x00, 0x00, 0x02, 0x00, 0x00, 0x00, 0x03, 0x00, 0x00, 0x00, 0xFF, 0xFF, 0xFF,
        0xFF,
    ];
    let g = Guid::from_bytes(&b);
    assert_eq!(g, Guid { A: 1, B: 2, C: 3, D: 0xFFFF_FFFF });
}

fn crew_sdk() -> sot_reader::sdk::SdkService {
    let crew_service = SdkClass {
        Super: "Object".to_owned(),
        FullSize: 0x400,
        InheritedSize: 0x28,
        ClassSize: 0x3D8,
        Attributes: vec![SdkAttribute {
            Name: "Crews".to_owned(),
            Type: "TArray<Crew>".to_owned(),
            Size: 12,
            Offset: 0x60,
        }],
    };
    let crew = SdkStruct {
        ClassSize: 0x50,
        Attributes: vec![
            SdkAttribute {
                Name: "CrewId".to_owned(),
                Type: "Guid".to_owned(),
                Size: 16,
                Offset: 0x10,
            },
            SdkAttribute {
                Name: "Players".to_owned(),
                Type: "TArray<Player*>".to_owned(),
                Size: 12,
                Offset: 0x28,
            },
        ],
    };
    sdk_service(
        vec![("CrewService".to_owned(), crew_service)],
        vec![("Crew".to_owned(), crew)],
    )
}

fn session_over(mem: SparseMemory) -> SoTMemoryReader<SparseMemory> {
    SoTMemoryReader {
        rm: MemoryReader {
            source: mem,
            module_base: 0,
            u_world_base: 0,
            g_object_base: 0,
            g_name_base: 0,
            g_name_start_address: 0,
        },
        world_address: 0,
        g_objects_address: 0,
    }
}

fn put_guid(mem: &mut SparseMemory, addr: u64, a: u32) {
    mem.write_u32(addr, a);
    mem.write_u32(addr + 4, 0);
    mem.write_u32(addr + 8, 0);
    mem.write_u32(addr + 12, 0);
}

#[test]
fn update_reads_crews_and_counts_players() {
    let service_base: u64 = 0x6000_0000;
    let crew_array: u64 = 0x6100_0000;
    let mut mem = SparseMemory::new();
    // crew array header at the CrewService.Crews offset: two crews of 0x50 bytes
    mem.write_u64(service_base + 0x60, crew_array);
    mem.write_u32(service_base + 0x60 + 8, 2);
    // first crew: identifier A=1, player array of 3
    put_guid(&mut mem, crew_array + 0x10, 1);
    mem.write_u64(crew_array + 0x28, 0x6200_0000);
    mem.write_u32(crew_array + 0x28 + 8, 3);
    // second crew: identifier A=2, player array of 4
    put_guid(&mut mem, crew_array + 0x50 + 0x10, 2);
    mem.write_u64(crew_array + 0x50 + 0x28, 0x6300_0000);
    mem.write_u32(crew_array + 0x50 + 0x28 + 8, 4);
    let reader = session_over(mem);
    let sdk = crew_sdk();
    let mut cs = CrewService::new(actor(5, "CrewService", service_base));
    cs.update(&reader, &sdk).unwrap();
    assert_eq!(cs.crews.len(), 2);
    assert_eq!(cs.crews[0], (Guid { A: 1, B: 0, C: 0, D: 0 }, 3));
    assert_eq!(cs.crews[1], (Guid { A: 2, B: 0, C: 0, D: 0 }, 4));
    assert_eq!(cs.total_players, 7);
    assert_eq!(cs.get_total_players(), 7);
}

#[test]
fn a_crew_with_unreadable_fields_is_skipped() {
    let service_base: u64 = 0x6000_0000;
    let crew_array: u64 = 0x6100_0000;
    let mut mem = SparseMemory::new();
    mem.write_u64(service_base + 0x60, crew_array);
    mem.write_u32(service_base + 0x60 + 8, 2);
    // only the second crew is mapped
    put_guid(&mut mem, crew_array + 0x50 + 0x10, 9);
    mem.write_u64(crew_array + 0x50 + 0x28, 0x6300_0000);
    mem.write_u32(crew_array + 0x50 + 0x28 + 8, 5);
    let reader = session_over(mem);
    let sdk = crew_sdk();
    let mut cs = CrewService::new(actor(5, "CrewService", service_base));
    cs.update(&reader, &sdk).unwrap();
    assert_eq!(cs.crews.len(), 1);
    assert_eq!(cs.total_players, 5);
}

#[test]
fn an_unreadable_crew_array_fails_and_changes_nothing() {
    let reader = session_over(SparseMemory::new());
    let sdk = crew_sdk();
    let mut cs = CrewService::new(actor(5, "CrewService", 0x6000_0000));
    assert!(cs.update(&reader, &sdk).is_err());
    assert!(cs.crews.is_empty());
    assert_eq!(cs.total_players, 0);
}

#[test]
fn total_players_saturates_at_the_counter_width() {
    let mut cs = CrewService::new(actor(5, "CrewService", 0));
    cs.crews = vec![
        (Guid { A: 1, B: 0, C: 0, D: 0 }, u32::MAX - 1),
        (Guid { A: 2, B: 0, C: 0, D: 0 }, 10),
    ];
    assert_eq!(cs.get_total_players(), u32::MAX);
}
