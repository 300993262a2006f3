use lodestone::executor::files_with_tag;
use lodestone::inspect::Detection;
use lodestone::inspect::Fault;
use lodestone::reconcile::classify;
use lodestone::reconcile::has_jar_extension;
use lodestone::reconcile::jar_files;
use lodestone::reconcile::reconcile;
use lodestone::reconcile::scan;
use lodestone::reconcile::ArchiveFile;
use lodestone::reconcile::Finding;
use lodestone::reconcile::ScanSummary;
use lodestone::registry::Mod;
use lodestone::registry::Module;
use lodestone::tags::DefaultTags;
use lodestone::tags::ModTypes;
use std::io::Write;

fn jar(entries: &[(&str, &str)]) -> Vec<u8> {
    let mut writer = zip::ZipWriter::new(std::io::Cursor::new(Vec::new()));
    for (name, content) in entries {
        writer.start_file(*name, zip::write::FileOptions::default()).unwrap();
        writer.write_all(content.as_bytes()).unwrap();
    }
    writer.finish().unwrap().into_inner()
}

fn fabric_jar(id: &str, version: &str) -> Vec<u8> {
    let manifest = format!("{{\"id\": \"{}\", \"version\": \"{}\"}}", id, version);
    jar(&[("pkg/Main.class", "code"), ("fabric.mod.json", &manifest)])
}

fn file(name: &str, bytes: Vec<u8>) -> ArchiveFile {
    ArchiveFile { name: name.to_string(), bytes }
}

fn create_module() -> Module {
    let mut module = Module::new("default", "1", "someone");
    module.add_mod("create", "0.5.8", DefaultTags::Client, ModTypes::Fabric);
    module
}

fn detection(id: &str, kind: ModTypes, version: Option<&str>) -> Detection {
    Detection { mod_id: id.to_string(), mod_type: kind, version: version.map(String::from) }
}

#[test]
fn jar_extension_is_exact() {
    assert!(has_jar_extension("create.jar"));
    assert!(has_jar_extension("a.b.jar"));
    assert!(has_jar_extension("..jar"));
    assert!(has_jar_extension("é.jar"));
    assert!(!has_jar_extension("Thing.JAR"));
    assert!(!has_jar_extension("thing.Jar"));
    assert!(!has_jar_extension(".jar"));
    assert!(!has_jar_extension("jar"));
    assert!(!has_jar_extension("thing.jar.disabled"));
    assert!(!has_jar_extension("thingjar"));
    assert!(!has_jar_extension(""));
}

#[test]
fn jar_files_keeps_the_candidates_in_order() {
    let names: Vec<String> =
        ["b.jar", "readme.txt", "a.jar", "C.JAR", ".jar", "d.jar"].iter().map(|s| s.to_string()).collect();
    assert_eq!(jar_files(&names), vec!["b.jar", "a.jar", "d.jar"]);
    assert_eq!(jar_files(&Vec::new()), Vec::<String>::new());
}

#[test]
fn matching_archive_is_a_full_match() {
    let module = create_module();
    let files = vec![file("create-fabric.jar", fabric_jar("create", "0.5.8"))];
    let report = scan(&files, &module).unwrap();
    assert_eq!(report.records.len(), 1);
    let record = &report.records[0];
    assert_eq!(record.file_name, "create-fabric.jar");
    assert_eq!(record.detection, detection("create", ModTypes::Fabric, Some("0.5.8")));
    assert!(record.full_match);
    assert_eq!(
        record.matched,
        Some(Mod { mod_version: "0.5.8".to_string(), mod_tag: DefaultTags::Client, mod_type: ModTypes::Fabric })
    );
    assert_eq!(report.summary, ScanSummary { candidates: 1, identified: 1, full_matches: 1 });
    assert_eq!(report.jar_to_modid.get("create-fabric.jar"), Some(&"create".to_string()));
}

#[test]
fn other_version_is_identified_but_no_full_match() {
    let module = create_module();
    let files = vec![file("create-fabric.jar", fabric_jar("create", "0.5.9"))];
    let report = scan(&files, &module).unwrap();
    assert_eq!(report.records.len(), 1);
    let record = &report.records[0];
    assert_eq!(record.detection.version, Some("0.5.9".to_string()));
    assert!(record.matched.is_some());
    assert_eq!(record.matched.as_ref().unwrap().mod_version, "0.5.8");
    assert_eq!(record.matched.as_ref().unwrap().mod_tag, DefaultTags::Client);
    assert_eq!(record.matched.as_ref().unwrap().mod_type, ModTypes::Fabric);
    assert!(!record.full_match);
    assert_eq!(report.summary, ScanSummary { candidates: 1, identified: 1, full_matches: 0 });
}

#[test]
fn unlisted_identifier_is_identified_and_never_selected() {
    let module = create_module();
    let files = vec![file("mystery.jar", fabric_jar("mystery", "1.0"))];
    let report = scan(&files, &module).unwrap();
    assert_eq!(report.summary, ScanSummary { candidates: 1, identified: 1, full_matches: 0 });
    assert_eq!(report.jar_to_modid.get("mystery.jar"), Some(&"mystery".to_string()));
    assert_eq!(report.records[0].matched, None);
    assert!(!report.records[0].full_match);
    for tag in [DefaultTags::Unknown, DefaultTags::Client, DefaultTags::Server, DefaultTags::Both] {
        assert!(files_with_tag(&report.jar_to_modid, &module, tag).is_empty());
    }
}

#[test]
fn archive_without_manifest_leaves_no_trace() {
    let module = create_module();
    let files = vec![file("library.jar", jar(&[("pkg/Lib.class", "code")]))];
    let report = scan(&files, &module).unwrap();
    assert!(report.records.is_empty());
    assert_eq!(report.jar_to_modid.len(), 0);
    assert_eq!(report.summary, ScanSummary { candidates: 1, identified: 0, full_matches: 0 });
}

#[test]
fn scan_looks_at_jar_files_only() {
    let module = create_module();
    let files = vec![
        file("notes.txt", b"plain text".to_vec()),
        file("Thing.JAR", fabric_jar("create", "0.5.8")),
        file("create.jar", fabric_jar("create", "0.5.8")),
        file(".jar", b"not even an archive".to_vec()),
    ];
    let report = scan(&files, &module).unwrap();
    assert_eq!(report.summary, ScanSummary { candidates: 1, identified: 1, full_matches: 1 });
    assert_eq!(report.records[0].file_name, "create.jar");
}

#[test]
fn scan_counts_and_maps_several_archives() {
    let mut module = create_module();
    module.add_mod("jei", "4.16", DefaultTags::Both, ModTypes::Forge);
    let files = vec![
        file("z-create.jar", fabric_jar("create", "0.5.8")),
        file("jei.jar", jar(&[("mcmod.info", "[{\"modid\": \"jei\", \"version\": \"4.16\"}]")])),
        file("empty.jar", jar(&[])),
        file("a-create-old.jar", fabric_jar("create", "0.5.7")),
        file("other.jar", fabric_jar("other", "1")),
    ];
    let report = scan(&files, &module).unwrap();
    assert_eq!(report.summary, ScanSummary { candidates: 5, identified: 4, full_matches: 2 });
    let names: Vec<&str> = report.records.iter().map(|r| r.file_name.as_str()).collect();
    assert_eq!(names, vec!["z-create.jar", "jei.jar", "a-create-old.jar", "other.jar"]);
    let keys: Vec<&str> = (0..report.jar_to_modid.len()).map(|i| report.jar_to_modid.key_at(i).as_str()).collect();
    assert_eq!(keys, vec!["a-create-old.jar", "jei.jar", "other.jar", "z-create.jar"]);
    assert_eq!(report.jar_to_modid.get("jei.jar"), Some(&"jei".to_string()));
    assert_eq!(report.jar_to_modid.get("empty.jar"), None);
}

#[test]
fn malformed_manifest_ends_the_scan() {
    let module = create_module();
    let files = vec![
        file("good.jar", fabric_jar("create", "0.5.8")),
        file("bad.jar", jar(&[("fabric.mod.json", "{ this is not json")])),
        file("never.jar", fabric_jar("create", "0.5.8")),
    ];
    let e = scan(&files, &module).unwrap_err();
    assert_eq!(e.file_name, "bad.jar");
    assert_eq!(e.cause.kind(), Fault::Json);
}

#[test]
fn damaged_archive_ends_the_scan() {
    let module = create_module();
    let files = vec![file("broken.jar", b"PK but nothing more".to_vec()), file("good.jar", fabric_jar("create", "0.5.8"))];
    let e = scan(&files, &module).unwrap_err();
    assert_eq!(e.file_name, "broken.jar");
    assert_eq!(e.cause.kind(), Fault::Archive);
}

#[test]
fn first_failure_is_the_one_reported() {
    let module = create_module();
    let files = vec![
        file("a.jar", jar(&[("META-INF/mods.toml", "[[mods]")])),
        file("b.jar", b"junk".to_vec()),
    ];
    let e = scan(&files, &module).unwrap_err();
    assert_eq!(e.file_name, "a.jar");
    assert_eq!(e.cause.kind(), Fault::Toml);
}

#[test]
fn full_match_needs_version_and_family() {
    let module = create_module();
    let same = classify("a.jar", &detection("create", ModTypes::Fabric, Some("0.5.8")), &module);
    assert!(same.full_match);
    let other_family = classify("a.jar", &detection("create", ModTypes::Quilt, Some("0.5.8")), &module);
    assert!(!other_family.full_match);
    assert!(other_family.matched.is_some());
    let no_version = classify("a.jar", &detection("create", ModTypes::Fabric, None), &module);
    assert!(!no_version.full_match);
    let longer_version = classify("a.jar", &detection("create", ModTypes::Fabric, Some("0.5.8.1")), &module);
    assert!(!longer_version.full_match);
    let unlisted = classify("a.jar", &detection("Create", ModTypes::Fabric, Some("0.5.8")), &module);
    assert!(!unlisted.full_match);
    assert_eq!(unlisted.matched, None);
}

#[test]
fn tag_plays_no_part_in_a_full_match() {
    for tag in [DefaultTags::Unknown, DefaultTags::Client, DefaultTags::Server, DefaultTags::Both] {
        let mut module = Module::new("m", "1", "a");
        module.add_mod("create", "0.5.8", tag, ModTypes::Fabric);
        let record = classify("a.jar", &detection("create", ModTypes::Fabric, Some("0.5.8")), &module);
        assert!(record.full_match);
        assert_eq!(record.matched.unwrap().mod_tag, tag);
    }
}

#[test]
fn reconcile_draws_up_the_report() {
    let module = create_module();
    let findings = vec![
        Finding { file_name: "b.jar".to_string(), detection: Some(detection("create", ModTypes::Fabric, Some("0.5.8"))) },
        Finding { file_name: "c.jar".to_string(), detection: None },
        Finding { file_name: "a.jar".to_string(), detection: Some(detection("ghost", ModTypes::Forge, None)) },
    ];
    let report = reconcile(&findings, &module);
    assert_eq!(report.summary, ScanSummary { candidates: 3, identified: 2, full_matches: 1 });
    assert_eq!(report.records[0].file_name, "b.jar");
    assert!(report.records[0].full_match);
    assert_eq!(report.records[1].file_name, "a.jar");
    assert!(!report.records[1].full_match);
    assert_eq!(report.jar_to_modid.len(), 2);
    assert_eq!(report.jar_to_modid.key_at(0), "a.jar");
    assert_eq!(report.jar_to_modid.value_at(0), "ghost");
    assert_eq!(report.jar_to_modid.key_at(1), "b.jar");
}

#[test]
fn reconcile_of_nothing_is_empty() {
    let report = reconcile(&Vec::new(), &create_module());
    assert_eq!(report.summary, ScanSummary { candidates: 0, identified: 0, full_matches: 0 });
    assert!(report.records.is_empty());
    assert_eq!(report.jar_to_modid.len(), 0);
}
