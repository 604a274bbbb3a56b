use sot_reader::sdk::{parse_hex_field, sdk_service, SdkAttribute, SdkClass, SdkService, SdkStruct};

fn attr(name: &str, ty: &str, size: u32, offset: u32) -> SdkAttribute {
    SdkAttribute {
        Name: name.to_owned(),
        Type: ty.to_owned(),
        Size: size,
        Offset: offset,
    }
}

fn fixture() -> SdkService {
    let actor = SdkClass {
        Super: "Object".to_owned(),
        FullSize: 0x3E8,
        InheritedSize: 0x28,
        ClassSize: 0x3C0,
        Attributes: vec![
            attr("bHidden", "bool", 1, 124),
            attr("RootComponent", "SceneComponent*", 8, 0x130),
        ],
    };
    let crew = SdkStruct {
        ClassSize: 0x1D0,
        Attributes: vec![
            attr("CrewId", "Guid", 16, 0x20),
            attr("Players", "TArray<Player*>", 12, 0x30),
        ],
    };
    sdk_service(
        vec![("Actor".to_owned(), actor)],
        vec![("Crew".to_owned(), crew)],
    )
}

#[test]
fn offset_of_returns_the_fixture_literal() {
    let sdk = fixture();
    assert_eq!(sdk.get_offset("Actor.bHidden"), 124);
    assert_eq!(sdk.try_get_offset("Actor.bHidden"), Some(124));
}

#[test]
fn struct_table_is_searched_after_classes() {
    let sdk = fixture();
    assert_eq!(sdk.get_offset("Crew.CrewId"), 0x20);
    assert_eq!(sdk.get_offset("Crew.Players"), 0x30);
}

#[test]
fn attribute_size_and_type_size_resolve() {
    let sdk = fixture();
    assert_eq!(sdk.get_attribute_size("Crew.CrewId"), 16);
    assert_eq!(sdk.get_class_or_struct_size("Actor"), 0x3C0);
    assert_eq!(sdk.get_class_or_struct_size("Crew"), 0x1D0);
}

#[test]
fn missing_type_or_field_never_returns_a_default() {
    let sdk = fixture();
    assert_eq!(sdk.try_get_offset("Missing.bHidden"), None);
    assert_eq!(sdk.try_get_offset("Actor.Missing"), None);
    assert_eq!(sdk.try_get_offset("NoDotHere"), None);
    assert_eq!(sdk.try_get_attribute_size("Actor.Missing"), None);
    assert_eq!(sdk.try_get_class_or_struct_size("Missing"), None);
}

#[test]
fn attributes_listing_matches_the_fixture() {
    let sdk = fixture();
    let attrs = sdk.get_attributes("Actor").unwrap();
    assert_eq!(attrs.len(), 2);
    assert_eq!(attrs[0].Name, "bHidden");
    assert_eq!(attrs[1].Offset, 0x130);
    assert!(sdk.get_attributes("Missing").is_none());
}

#[test]
fn negative_sentinel_decodes_to_zero() {
    assert_eq!(parse_hex_field("-1"), Some(0));
    assert_eq!(parse_hex_field("-123"), Some(0));
}

#[test]
fn hex_fields_decode_after_the_prefix() {
    assert_eq!(parse_hex_field("0x7C"), Some(124));
    assert_eq!(parse_hex_field("0x0"), Some(0));
    assert_eq!(parse_hex_field("0xFFFFFFFF"), Some(0xFFFF_FFFF));
}

#[test]
fn malformed_hex_fields_are_rejected() {
    assert_eq!(parse_hex_field(""), None);
    assert_eq!(parse_hex_field("0x"), None);
    assert_eq!(parse_hex_field("0xZZ"), None);
    assert_eq!(parse_hex_field("0x100000000"), None);
}
