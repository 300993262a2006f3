use lodestone::document::Member;
use lodestone::document::Node;
use lodestone::inspect::dialect_of_name;
use lodestone::inspect::fabric_identity;
use lodestone::inspect::find_manifest;
use lodestone::inspect::forge_family;
use lodestone::inspect::get_mod_id_and_type;
use lodestone::inspect::mcmod_identity;
use lodestone::inspect::read_manifest;
use lodestone::inspect::toml_identity;
use lodestone::inspect::Dialect;
use lodestone::inspect::Fault;
use lodestone::inspect::Manifest;
use lodestone::tags::ModTypes;
use std::io::Write;

fn jar(entries: &[(&str, &str)]) -> Vec<u8> {
    let mut writer = zip::ZipWriter::new(std::io::Cursor::new(Vec::new()));
    for (name, content) in entries {
        writer.start_file(*name, zip::write::FileOptions::default()).unwrap();
        writer.write_all(content.as_bytes()).unwrap();
    }
    writer.finish().unwrap().into_inner()
}

fn text(s: &str) -> Node {
    Node::Text(s.to_string())
}

fn table(members: Vec<(&str, Node)>) -> Node {
    Node::Table(members.into_iter().map(|(key, value)| Member { key: key.to_string(), value }).collect())
}

#[test]
fn dialect_is_chosen_by_the_end_of_the_name() {
    assert_eq!(dialect_of_name("META-INF/mods.toml"), Some(Dialect::ModsToml));
    assert_eq!(dialect_of_name("META-INF/neoforge.mods.toml"), Some(Dialect::ModsToml));
    assert_eq!(dialect_of_name("fabric.mod.json"), Some(Dialect::FabricModJson));
    assert_eq!(dialect_of_name("mcmod.info"), Some(Dialect::McmodInfo));
    assert_eq!(dialect_of_name("old/mcmod.info"), Some(Dialect::McmodInfo));
    assert_eq!(dialect_of_name("mods.toml.bak"), None);
    assert_eq!(dialect_of_name("MODS.TOML"), None);
    assert_eq!(dialect_of_name("quilt.mod.json"), None);
    assert_eq!(dialect_of_name(""), None);
}

#[test]
fn forge_family_looks_for_neoforge() {
    assert_eq!(forge_family("modloader=\"javafml\""), ModTypes::Forge);
    assert_eq!(forge_family("modid=\"neoforge\""), ModTypes::NeoForge);
    assert_eq!(forge_family("# built for neo-forge"), ModTypes::NeoForge);
    assert_eq!(forge_family("neo forge"), ModTypes::Forge);
    assert_eq!(forge_family(""), ModTypes::Forge);
}

#[test]
fn fabric_identity_reads_id_and_version() {
    let doc = table(vec![("id", text("create")), ("version", text("0.5.8"))]);
    let found = fabric_identity(&doc).unwrap();
    assert_eq!(found.mod_id, "create");
    assert_eq!(found.mod_type, ModTypes::Fabric);
    assert_eq!(found.version, Some("0.5.8".to_string()));
}

#[test]
fn fabric_identity_needs_a_textual_id() {
    let doc = table(vec![("id", Node::Number("7".to_string())), ("version", text("1"))]);
    assert!(fabric_identity(&doc).is_none());
    let doc = table(vec![("version", text("1"))]);
    assert!(fabric_identity(&doc).is_none());
    assert!(fabric_identity(&Node::List(vec![])).is_none());
}

#[test]
fn version_may_be_absent_or_of_another_kind() {
    let doc = table(vec![("id", text("a"))]);
    assert_eq!(fabric_identity(&doc).unwrap().version, None);
    let doc = table(vec![("id", text("a")), ("version", Node::Bool(true))]);
    assert_eq!(fabric_identity(&doc).unwrap().version, None);
    let doc = table(vec![("id", text("a")), ("version", Node::Number("2".to_string()))]);
    assert_eq!(fabric_identity(&doc).unwrap().version, Some("2".to_string()));
}

#[test]
fn mcmod_identity_reads_the_first_element() {
    let doc = Node::List(vec![
        table(vec![("modid", text("jei")), ("version", text("4.16"))]),
        table(vec![("modid", text("other")), ("version", text("1"))]),
    ]);
    let found = mcmod_identity(&doc).unwrap();
    assert_eq!(found.mod_id, "jei");
    assert_eq!(found.mod_type, ModTypes::Forge);
    assert_eq!(found.version, Some("4.16".to_string()));
    assert!(mcmod_identity(&Node::List(vec![])).is_none());
    assert!(mcmod_identity(&table(vec![("modid", text("jei"))])).is_none());
}

#[test]
fn toml_identity_prefers_version_over_mod_version() {
    let entry = table(vec![("modId", text("create")), ("modVersion", text("2")), ("version", text("1"))]);
    let doc = table(vec![("mods", Node::List(vec![entry]))]);
    let found = toml_identity(&doc, ModTypes::Forge).unwrap();
    assert_eq!(found.mod_id, "create");
    assert_eq!(found.mod_type, ModTypes::Forge);
    assert_eq!(found.version, Some("1".to_string()));

    let entry = table(vec![("modId", text("create")), ("modVersion", text("2"))]);
    let doc = table(vec![("mods", Node::List(vec![entry]))]);
    let found = toml_identity(&doc, ModTypes::NeoForge).unwrap();
    assert_eq!(found.mod_type, ModTypes::NeoForge);
    assert_eq!(found.version, Some("2".to_string()));

    let entry = table(vec![("modId", text("create")), ("modVersion", text("2")), ("version", Node::Bool(false))]);
    let doc = table(vec![("mods", Node::List(vec![entry]))]);
    assert_eq!(toml_identity(&doc, ModTypes::Forge).unwrap().version, None);
}

#[test]
fn read_manifest_parses_mods_toml() {
    let source = "modLoader=\"javafml\"\n[[mods]]\nmodId=\"create\"\nversion=\"0.5.1\"\n";
    let found = read_manifest(Dialect::ModsToml, source).unwrap().unwrap();
    assert_eq!(found.mod_id, "create");
    assert_eq!(found.mod_type, ModTypes::Forge);
    assert_eq!(found.version, Some("0.5.1".to_string()));
}

#[test]
fn read_manifest_sees_neoforge_in_any_case() {
    let source = "# For NeoForge\n[[mods]]\nmodId=\"create\"\nmodVersion=3\n";
    let found = read_manifest(Dialect::ModsToml, source).unwrap().unwrap();
    assert_eq!(found.mod_type, ModTypes::NeoForge);
    assert_eq!(found.version, Some("3".to_string()));
}

#[test]
fn read_manifest_turns_numbers_into_decimal_text() {
    let found = read_manifest(Dialect::FabricModJson, "{\"id\": \"a\", \"version\": 2}").unwrap().unwrap();
    assert_eq!(found.version, Some("2".to_string()));
    let found = read_manifest(Dialect::FabricModJson, "{\"id\": \"a\", \"version\": 1.5}").unwrap().unwrap();
    assert_eq!(found.version, Some("1.5".to_string()));
    let found = read_manifest(Dialect::ModsToml, "[[mods]]\nmodId=\"a\"\nversion=1.25\n").unwrap().unwrap();
    assert_eq!(found.version, Some("1.25".to_string()));
    let found = read_manifest(Dialect::McmodInfo, "[{\"modid\": \"a\", \"version\": 12}]").unwrap().unwrap();
    assert_eq!(found.version, Some("12".to_string()));
}

#[test]
fn read_manifest_reports_malformed_text() {
    let e = read_manifest(Dialect::FabricModJson, "{\"id\": ").unwrap_err();
    assert_eq!(e.kind(), Fault::Json);
    assert!(e.is_parse_error());
    let e = read_manifest(Dialect::McmodInfo, "not json").unwrap_err();
    assert_eq!(e.kind(), Fault::Json);
    let e = read_manifest(Dialect::ModsToml, "[[mods\n").unwrap_err();
    assert_eq!(e.kind(), Fault::Toml);
    assert!(e.is_parse_error());
}

#[test]
fn archive_with_fabric_manifest_is_identified() {
    let bytes = jar(&[
        ("com/example/Main.class", "cafebabe"),
        ("fabric.mod.json", "{\"id\": \"create\", \"version\": \"0.5.8\"}"),
    ]);
    let found = get_mod_id_and_type(&bytes).unwrap().unwrap();
    assert_eq!(found.mod_id, "create");
    assert_eq!(found.mod_type, ModTypes::Fabric);
    assert_eq!(found.version, Some("0.5.8".to_string()));
}

#[test]
fn first_manifest_in_stored_order_wins() {
    let bytes = jar(&[
        ("mcmod.info", "[{\"modid\": \"legacy\", \"version\": \"1\"}]"),
        ("fabric.mod.json", "{\"id\": \"modern\", \"version\": \"2\"}"),
    ]);
    let found = get_mod_id_and_type(&bytes).unwrap().unwrap();
    assert_eq!(found.mod_id, "legacy");
    assert_eq!(found.mod_type, ModTypes::Forge);

    let bytes = jar(&[
        ("fabric.mod.json", "{\"id\": \"modern\", \"version\": \"2\"}"),
        ("mcmod.info", "this entry is never read"),
    ]);
    let found = get_mod_id_and_type(&bytes).unwrap().unwrap();
    assert_eq!(found.mod_id, "modern");
}

#[test]
fn archive_without_manifest_has_no_identity() {
    let bytes = jar(&[("a.class", "x"), ("assets/icon.png", "y")]);
    assert!(get_mod_id_and_type(&bytes).unwrap().is_none());
    let bytes = jar(&[]);
    assert!(get_mod_id_and_type(&bytes).unwrap().is_none());
}

#[test]
fn manifest_without_identifier_has_no_identity() {
    let bytes = jar(&[("fabric.mod.json", "{\"version\": \"1\"}"), ("mcmod.info", "[{\"modid\": \"x\"}]")]);
    assert!(get_mod_id_and_type(&bytes).unwrap().is_none());
}

#[test]
fn malformed_manifest_is_a_parse_error() {
    let bytes = jar(&[("META-INF/mods.toml", "[[mods]\nmodId=")]);
    let e = get_mod_id_and_type(&bytes).unwrap_err();
    assert_eq!(e.kind(), Fault::Toml);
}

#[test]
fn bytes_that_are_no_archive_are_an_archive_error() {
    let e = get_mod_id_and_type(b"this is not a zip container").unwrap_err();
    assert_eq!(e.kind(), Fault::Archive);
    assert!(!e.is_parse_error());
    let e = get_mod_id_and_type(&[]).unwrap_err();
    assert_eq!(e.kind(), Fault::Archive);
}

fn jar_of_bytes(entries: &[(&str, &[u8])]) -> Vec<u8> {
    let mut writer = zip::ZipWriter::new(std::io::Cursor::new(Vec::new()));
    for (name, content) in entries {
        writer.start_file(*name, zip::write::FileOptions::default()).unwrap();
        writer.write_all(content).unwrap();
    }
    writer.finish().unwrap().into_inner()
}

fn position_of(bytes: &[u8], pattern: &[u8]) -> usize {
    (0..bytes.len() - pattern.len() + 1).find(|&i| &bytes[i..i + pattern.len()] == pattern).unwrap()
}

#[test]
fn manifest_that_is_not_text_is_an_archive_error() {
    let bytes = jar_of_bytes(&[("fabric.mod.json", &[0x7b, 0xff, 0xfe, 0x7d])]);
    let e = get_mod_id_and_type(&bytes).unwrap_err();
    assert_eq!(e.kind(), Fault::Archive);
}

#[test]
fn damaged_manifest_entry_is_an_archive_error() {
    let content = "{\"id\": \"create\", \"version\": \"0.5.8\"}";
    let mut bytes = jar(&[("fabric.mod.json", content)]);
    let directory = position_of(&bytes, b"PK\x01\x02");
    bytes[directory + 16] ^= 0xff;
    let e = get_mod_id_and_type(&bytes).unwrap_err();
    assert_eq!(e.kind(), Fault::Archive);
}

#[test]
fn entry_that_wants_a_password_is_an_archive_error() {
    let mut bytes = jar(&[
        ("secret.bin", "0123456789abcdef0123456789abcdef"),
        ("fabric.mod.json", "{\"id\": \"create\", \"version\": \"0.5.8\"}"),
    ]);
    let directory = position_of(&bytes, b"PK\x01\x02");
    bytes[directory + 8] |= 1;
    let e = get_mod_id_and_type(&bytes).unwrap_err();
    assert_eq!(e.kind(), Fault::Archive);
}

#[test]
fn entry_of_an_unknown_compression_is_an_archive_error() {
    let mut bytes = jar(&[
        ("data.bin", "0123456789abcdef0123456789abcdef"),
        ("fabric.mod.json", "{\"id\": \"create\", \"version\": \"0.5.8\"}"),
    ]);
    let directory = position_of(&bytes, b"PK\x01\x02");
    bytes[directory + 10] = 77;
    let e = get_mod_id_and_type(&bytes).unwrap_err();
    assert_eq!(e.kind(), Fault::Archive);
}

#[test]
fn entries_after_the_manifest_are_not_opened() {
    let mut bytes = jar(&[
        ("fabric.mod.json", "{\"id\": \"create\", \"version\": \"0.5.8\"}"),
        ("data.bin", "0123456789abcdef0123456789abcdef"),
    ]);
    let first = position_of(&bytes, b"PK\x01\x02");
    let second = first + 4 + position_of(&bytes[first + 4..], b"PK\x01\x02");
    bytes[second + 10] = 77;
    let found = get_mod_id_and_type(&bytes).unwrap().unwrap();
    assert_eq!(found.mod_id, "create");
}

#[test]
fn find_manifest_gives_format_and_text() {
    let content = "{\"id\": \"create\", \"version\": \"0.5.8\"}";
    let bytes = jar(&[("a.class", "x"), ("fabric.mod.json", content), ("mcmod.info", "[]")]);
    assert_eq!(
        find_manifest(&bytes).unwrap(),
        Some(Manifest { dialect: Dialect::FabricModJson, text: content.to_string() })
    );
    let bytes = jar(&[("META-INF/mods.toml", "not even toml [[")]);
    assert_eq!(
        find_manifest(&bytes).unwrap(),
        Some(Manifest { dialect: Dialect::ModsToml, text: "not even toml [[".to_string() })
    );
}

#[test]
fn find_manifest_finds_nothing_without_a_manifest() {
    assert_eq!(find_manifest(&jar(&[("a.class", "x")])).unwrap(), None);
    assert_eq!(find_manifest(&jar(&[])).unwrap(), None);
    assert_eq!(find_manifest(b"no archive").unwrap_err().kind(), Fault::Archive);
}
