use lodestone::inspect::Fault;
use lodestone::menu::confirms_removal;
use lodestone::menu::is_module_file;
use lodestone::menu::menu_choice;
use lodestone::menu::select_module;
use lodestone::menu::MenuChoice;
use lodestone::reconcile::ArchiveFile;
use lodestone::reconcile::ScanSummary;
use lodestone::registry::Module;
use lodestone::session::Session;
use lodestone::session::SessionError;
use lodestone::tags::DefaultTags;
use lodestone::tags::ModTypes;
use lodestone::text::ends_with_extension;
use std::io::Write;

fn jar(entries: &[(&str, &str)]) -> Vec<u8> {
    let mut writer = zip::ZipWriter::new(std::io::Cursor::new(Vec::new()));
    for (name, content) in entries {
        writer.start_file(*name, zip::write::FileOptions::default()).unwrap();
        writer.write_all(content.as_bytes()).unwrap();
    }
    writer.finish().unwrap().into_inner()
}

fn module() -> Module {
    let mut module = Module::new("default", "1", "someone");
    module.add_mod("create", "0.5.8", DefaultTags::Client, ModTypes::Fabric);
    module
}

fn files() -> Vec<ArchiveFile> {
    vec![ArchiveFile {
        name: "create.jar".to_string(),
        bytes: jar(&[("fabric.mod.json", "{\"id\": \"create\", \"version\": \"0.5.8\"}")]),
    }]
}

#[test]
fn menu_numbers_stand_for_operations() {
    assert_eq!(menu_choice(0), Some(MenuChoice::Skip));
    assert_eq!(menu_choice(1), Some(MenuChoice::Zip));
    assert_eq!(menu_choice(2), Some(MenuChoice::Delete));
    assert_eq!(menu_choice(3), Some(MenuChoice::WriteNames));
    assert_eq!(menu_choice(4), Some(MenuChoice::Move));
    assert_eq!(menu_choice(5), None);
    assert_eq!(menu_choice(-1), None);
    assert_eq!(menu_choice(i32::MAX), None);
    assert_eq!(menu_choice(i32::MIN), None);
}

#[test]
fn removal_is_confirmed_by_yes_alone() {
    assert!(confirms_removal("YES"));
    assert!(!confirms_removal("yes"));
    assert!(!confirms_removal("Yes"));
    assert!(!confirms_removal("YES "));
    assert!(!confirms_removal("Y"));
    assert!(!confirms_removal(""));
}

#[test]
fn module_files_have_the_extension_json() {
    assert!(is_module_file("extra.json"));
    assert!(is_module_file("a.b.json"));
    assert!(!is_module_file("extra.JSON"));
    assert!(!is_module_file(".json"));
    assert!(!is_module_file("json"));
    assert!(!is_module_file("extra.json.bak"));
    assert!(!is_module_file("extrajson"));
}

#[test]
fn extension_is_what_follows_the_last_dot() {
    assert!(ends_with_extension("a.jar", "jar"));
    assert!(!ends_with_extension("ajar", "jar"));
    assert!(!ends_with_extension("a.jar", "ar"));
    assert!(!ends_with_extension(".jar", "jar"));
    assert!(ends_with_extension("a.", ""));
    assert!(!ends_with_extension(".", ""));
    assert!(!ends_with_extension("", ""));
}

#[test]
fn select_module_counts_from_one() {
    let offered = vec!["modules/a.json".to_string(), "modules/b.json".to_string()];
    assert_eq!(select_module(0, &offered), Some(None));
    assert_eq!(select_module(1, &offered), Some(Some("modules/a.json".to_string())));
    assert_eq!(select_module(2, &offered), Some(Some("modules/b.json".to_string())));
    assert_eq!(select_module(3, &offered), None);
    assert_eq!(select_module(-1, &offered), None);
    assert_eq!(select_module(i32::MIN, &offered), None);
    assert_eq!(select_module(1, &Vec::new()), None);
    assert_eq!(select_module(0, &Vec::new()), Some(None));
}

#[test]
fn scan_before_load_is_refused() {
    let mut session = Session::new();
    assert!(matches!(session.module(), Err(SessionError::NoModule)));
    assert!(matches!(session.report(), Err(SessionError::NoModule)));
    assert!(matches!(session.scan(&files()), Err(SessionError::NoModule)));
    assert!(matches!(session.report(), Err(SessionError::NoModule)));
}

#[test]
fn operation_before_scan_is_refused() {
    let mut session = Session::new();
    session.load(module());
    assert_eq!(session.module().unwrap().module_name, "default");
    assert!(matches!(session.report(), Err(SessionError::NoScan)));
}

#[test]
fn scan_after_load_keeps_its_report() {
    let mut session = Session::new();
    session.load(module());
    session.scan(&files()).unwrap();
    let report = session.report().unwrap();
    assert_eq!(report.summary, ScanSummary { candidates: 1, identified: 1, full_matches: 1 });
    assert_eq!(report.jar_to_modid.get("create.jar"), Some(&"create".to_string()));
}

#[test]
fn loading_again_drops_the_scan() {
    let mut session = Session::new();
    session.load(module());
    session.scan(&files()).unwrap();
    session.load(Module::new("other", "2", "me"));
    assert_eq!(session.module().unwrap().module_name, "other");
    assert!(matches!(session.report(), Err(SessionError::NoScan)));
}

#[test]
fn failed_scan_leaves_the_session_as_it_was() {
    let mut session = Session::new();
    session.load(module());
    session.scan(&files()).unwrap();
    let broken = vec![ArchiveFile { name: "broken.jar".to_string(), bytes: b"junk".to_vec() }];
    match session.scan(&broken) {
        Err(SessionError::Scan(e)) => {
            assert_eq!(e.file_name, "broken.jar");
            assert_eq!(e.cause.kind(), Fault::Archive);
        }
        other => panic!("unexpected outcome: {:?}", other),
    }
    assert_eq!(session.report().unwrap().summary.identified, 1);
    assert_eq!(session.module().unwrap().module_name, "default");
}
