use mkd_scan::archive::{asset_name, derive_ext, EntryId};

#[test]
fn contents_entries_are_xml() {
    assert_eq!(derive_ext("contents"), Some("xml"));
}

#[test]
fn audio_entries_are_aac() {
    assert_eq!(derive_ext("audio"), Some("aac"));
}

#[test]
fn other_groups_have_no_extension() {
    assert_eq!(derive_ext("key"), None);
    assert_eq!(derive_ext(""), None);
    assert_eq!(derive_ext("Audio"), None);
    assert_eq!(derive_ext("contents "), None);
    assert_eq!(derive_ext("graphics"), None);
}

#[test]
fn an_ordinal_is_padded_to_ten_digits() {
    assert_eq!(EntryId::Ordinal(7).identifier(), "0000000007");
    assert_eq!(EntryId::Ordinal(0).identifier(), "0000000000");
    assert_eq!(EntryId::Ordinal(1234).identifier(), "0000001234");
    assert_eq!(EntryId::Ordinal(u32::MAX).identifier(), "4294967295");
}

#[test]
fn a_key_is_its_own_identifier() {
    assert_eq!(EntryId::Key("ab_01".to_string()).identifier(), "ab_01");
    assert_eq!(EntryId::Key(String::new()).identifier(), "");
}

#[test]
fn the_output_name_takes_the_extension() {
    assert_eq!(asset_name("0000000007".to_string(), Some("aac")), "0000000007.aac");
    assert_eq!(asset_name("page".to_string(), Some("xml")), "page.xml");
}

#[test]
fn the_output_name_without_extension_is_the_identifier() {
    assert_eq!(asset_name("0000000007".to_string(), None), "0000000007");
}
