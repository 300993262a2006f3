use lodestone::document::Member;
use lodestone::document::Node;
use lodestone::module_file::mod_from_document;
use lodestone::module_file::mod_to_document;
use lodestone::module_file::module_from_document;
use lodestone::module_file::module_to_document;
use lodestone::module_file::LoadError;
use lodestone::module_file::LoadFault;
use lodestone::module_file::SaveFault;
use lodestone::registry::Mod;
use lodestone::registry::Module;
use lodestone::tags::DefaultTags;
use lodestone::tags::ModTypes;

const SAMPLE: &str = r#"{
  "header": {
    "module_name": "default",
    "module_version": 1.5,
    "module_author": "someone"
  },
  "mods": {
    "sodium": {
      "mod_version": "0.5.3",
      "mod_tag": "Client",
      "mod_type": "Fabric"
    },
    "create": {
      "mod_version": "0.5.8.29",
      "mod_tag": "Both",
      "mod_type": "Forge"
    }
  }
}"#;

fn text(s: &str) -> Node {
    Node::Text(s.to_string())
}

fn table(members: Vec<(&str, Node)>) -> Node {
    Node::Table(members.into_iter().map(|(key, value)| Member { key: key.to_string(), value }).collect())
}

#[test]
fn from_json_reads_header_and_mods() {
    let module = Module::from_json(SAMPLE).unwrap();
    assert_eq!(module.module_name, "default");
    assert_eq!(module.module_version, "1.5");
    assert_eq!(module.module_author, "someone");
    assert_eq!(module.mods.len(), 2);
    assert_eq!(module.mods.key_at(0), "create");
    assert_eq!(module.mods.key_at(1), "sodium");
    assert_eq!(
        module.mods.get("create"),
        Some(&Mod { mod_version: "0.5.8.29".to_string(), mod_tag: DefaultTags::Both, mod_type: ModTypes::Forge })
    );
    assert_eq!(
        module.mods.get("sodium"),
        Some(&Mod { mod_version: "0.5.3".to_string(), mod_tag: DefaultTags::Client, mod_type: ModTypes::Fabric })
    );
}

#[test]
fn to_json_writes_the_file_format() {
    let mut module = Module::new("default", "1", "someone");
    module.add_mod("create", "0.5.8", DefaultTags::Client, ModTypes::Fabric);
    let expected = r#"{
  "header": {
    "module_name": "default",
    "module_version": 1,
    "module_author": "someone"
  },
  "mods": {
    "create": {
      "mod_version": "0.5.8",
      "mod_tag": "Client",
      "mod_type": "Fabric"
    }
  }
}"#;
    assert_eq!(module.to_json().unwrap(), expected);
}

#[test]
fn to_json_of_a_new_module_has_empty_mods() {
    let module = Module::new("fresh", "2.25", "me");
    let expected = r#"{
  "header": {
    "module_name": "fresh",
    "module_version": 2.25,
    "module_author": "me"
  },
  "mods": {}
}"#;
    assert_eq!(module.to_json().unwrap(), expected);
}

#[test]
fn module_survives_writing_and_reading() {
    let mut module = Module::new("pack \"one\"", "3", "a\\b");
    module.add_mod("sodium", "0.5.3", DefaultTags::Client, ModTypes::Fabric);
    module.add_mod("create", "0.5.8", DefaultTags::Both, ModTypes::Forge);
    module.add_mod("neo", "1", DefaultTags::Server, ModTypes::NeoForge);
    module.add_mod("q", "", DefaultTags::Unknown, ModTypes::Quilt);
    module.add_mod("u", "x", DefaultTags::Unknown, ModTypes::Unknown);
    let written = module.to_json().unwrap();
    let read = Module::from_json(&written).unwrap();
    assert_eq!(read.module_name, module.module_name);
    assert_eq!(read.module_version, module.module_version);
    assert_eq!(read.module_author, module.module_author);
    assert_eq!(read.mods.len(), module.mods.len());
    for i in 0..module.mods.len() {
        assert_eq!(read.mods.key_at(i), module.mods.key_at(i));
        assert_eq!(read.mods.value_at(i), module.mods.value_at(i));
    }
    assert_eq!(read.to_json().unwrap(), written);
}

#[test]
fn sample_file_survives_reading_and_writing() {
    let module = Module::from_json(SAMPLE).unwrap();
    let again = Module::from_json(&module.to_json().unwrap()).unwrap();
    assert_eq!(again.module_version, "1.5");
    assert_eq!(again.mods.len(), 2);
    assert_eq!(again.mods.get("create"), module.mods.get("create"));
    assert_eq!(again.mods.get("sodium"), module.mods.get("sodium"));
}

#[test]
fn whole_numbers_are_read_as_their_decimal_text() {
    let source = r#"{"header": {"module_name": "n", "module_version": 2.0, "module_author": "a"}, "mods": {}}"#;
    assert_eq!(Module::from_json(source).unwrap().module_version, "2");
    let source = r#"{"header": {"module_name": "n", "module_version": 7, "module_author": "a"}, "mods": {}}"#;
    assert_eq!(Module::from_json(source).unwrap().module_version, "7");
}

#[test]
fn members_outside_the_format_are_passed_over() {
    let source = r#"{
        "comment": [1, 2, 3],
        "header": {"module_name": "n", "module_version": 1, "module_author": "a", "license": null},
        "mods": {"x": {"mod_version": "1", "mod_tag": "Server", "mod_type": "Quilt", "note": true}}
    }"#;
    let module = Module::from_json(source).unwrap();
    assert_eq!(
        module.mods.get("x"),
        Some(&Mod { mod_version: "1".to_string(), mod_tag: DefaultTags::Server, mod_type: ModTypes::Quilt })
    );
}

#[test]
fn load_error_tells_its_kind() {
    assert_eq!(Module::from_json("{").unwrap_err().kind(), LoadFault::Json);
    assert_eq!(Module::from_json("{}").unwrap_err().kind(), LoadFault::Shape);
}

#[test]
fn version_is_read_back_in_its_printed_form() {
    let module = Module::new("n", "1.0", "a");
    let written = module.to_json().unwrap();
    assert!(written.contains("\"module_version\": 1.0"));
    assert_eq!(Module::from_json(&written).unwrap().module_version, "1");
    let module = Module::new("n", "0.50", "a");
    assert_eq!(Module::from_json(&module.to_json().unwrap()).unwrap().module_version, "0.5");
}

#[test]
fn malformed_json_is_a_json_error() {
    assert!(matches!(Module::from_json("{\"header\": "), Err(LoadError::Json(_))));
    assert!(matches!(Module::from_json(""), Err(LoadError::Json(_))));
    assert!(matches!(Module::from_json("not json"), Err(LoadError::Json(_))));
}

#[test]
fn json_of_another_form_is_a_shape_error() {
    let cases = [
        r#"[]"#,
        r#"{}"#,
        r#"{"header": {"module_name": "n", "module_version": 1, "module_author": "a"}}"#,
        r#"{"mods": {}}"#,
        r#"{"header": {"module_name": "n", "module_version": 1, "module_author": "a"}, "mods": []}"#,
        r#"{"header": {"module_name": "n", "module_version": "1", "module_author": "a"}, "mods": {}}"#,
        r#"{"header": {"module_name": 5, "module_version": 1, "module_author": "a"}, "mods": {}}"#,
        r#"{"header": {"module_name": "n", "module_version": 1}, "mods": {}}"#,
        r#"{"header": {"module_name": "n", "module_version": 1, "module_author": "a"}, "mods": {"x": {"mod_version": 1, "mod_tag": "Client", "mod_type": "Forge"}}}"#,
        r#"{"header": {"module_name": "n", "module_version": 1, "module_author": "a"}, "mods": {"x": {"mod_version": "1", "mod_tag": "client", "mod_type": "Forge"}}}"#,
        r#"{"header": {"module_name": "n", "module_version": 1, "module_author": "a"}, "mods": {"x": {"mod_version": "1", "mod_tag": "Client", "mod_type": "Rift"}}}"#,
        r#"{"header": {"module_name": "n", "module_version": 1, "module_author": "a"}, "mods": {"x": {"mod_version": "1", "mod_tag": "Client"}}}"#,
        r#"{"header": {"module_name": "n", "module_version": 1, "module_author": "a"}, "mods": {"x": "1"}}"#,
    ];
    for source in cases {
        assert!(matches!(Module::from_json(source), Err(LoadError::Shape)), "{}", source);
    }
}

#[test]
fn one_malformed_mod_spoils_the_module() {
    let source = r#"{"header": {"module_name": "n", "module_version": 1, "module_author": "a"},
        "mods": {"a": {"mod_version": "1", "mod_tag": "Client", "mod_type": "Forge"},
                 "b": {"mod_version": "1", "mod_tag": "Sideways", "mod_type": "Forge"},
                 "c": {"mod_version": "1", "mod_tag": "Client", "mod_type": "Forge"}}}"#;
    assert!(matches!(Module::from_json(source), Err(LoadError::Shape)));
}

#[test]
fn a_version_that_is_no_number_cannot_be_written() {
    assert!(Module::new("n", "one", "a").to_json().is_err());
    assert!(Module::new("n", "", "a").to_json().is_err());
    assert!(Module::new("n", "1.", "a").to_json().is_err());
    assert!(Module::new("n", "-3.5", "a").to_json().is_ok());
}

#[test]
fn mod_document_has_three_members() {
    let entry = Mod { mod_version: "0.5.8".to_string(), mod_tag: DefaultTags::Both, mod_type: ModTypes::NeoForge };
    let doc = mod_to_document(&entry);
    assert_eq!(doc, table(vec![("mod_version", text("0.5.8")), ("mod_tag", text("Both")), ("mod_type", text("NeoForge"))]));
    assert_eq!(mod_from_document(&doc), Some(entry));
}

#[test]
fn mod_from_document_wants_known_labels() {
    let doc = table(vec![("mod_version", text("1")), ("mod_tag", text("Server")), ("mod_type", text("Quilt"))]);
    assert_eq!(
        mod_from_document(&doc),
        Some(Mod { mod_version: "1".to_string(), mod_tag: DefaultTags::Server, mod_type: ModTypes::Quilt })
    );
    let doc = table(vec![("mod_version", text("1")), ("mod_tag", text("SERVER")), ("mod_type", text("Quilt"))]);
    assert_eq!(mod_from_document(&doc), None);
    let doc = table(vec![("mod_version", text("1")), ("mod_tag", text("Server")), ("mod_type", text("quilt"))]);
    assert_eq!(mod_from_document(&doc), None);
    assert_eq!(mod_from_document(&Node::Null), None);
}

#[test]
fn module_document_round_trip() {
    let mut module = Module::new("default", "1", "someone");
    module.add_mod("b", "2", DefaultTags::Server, ModTypes::Forge);
    module.add_mod("a", "1", DefaultTags::Client, ModTypes::Fabric);
    let doc = module_to_document(&module);
    let expected = table(vec![
        (
            "header",
            table(vec![
                ("module_name", text("default")),
                ("module_version", Node::Number("1".to_string())),
                ("module_author", text("someone")),
            ]),
        ),
        (
            "mods",
            table(vec![
                ("a", table(vec![("mod_version", text("1")), ("mod_tag", text("Client")), ("mod_type", text("Fabric"))])),
                ("b", table(vec![("mod_version", text("2")), ("mod_tag", text("Server")), ("mod_type", text("Forge"))])),
            ]),
        ),
    ]);
    assert_eq!(doc, expected);
    let read = module_from_document(&doc).unwrap();
    assert_eq!(read.module_name, "default");
    assert_eq!(read.mods.len(), 2);
    assert_eq!(read.mods.get("a"), module.mods.get("a"));
    assert_eq!(read.mods.get("b"), module.mods.get("b"));
}

#[test]
fn later_member_counts_where_an_identifier_is_repeated() {
    let doc = table(vec![
        (
            "header",
            table(vec![
                ("module_name", text("n")),
                ("module_version", Node::Number("1".to_string())),
                ("module_author", text("a")),
            ]),
        ),
        (
            "mods",
            table(vec![
                ("a", table(vec![("mod_version", text("1")), ("mod_tag", text("Client")), ("mod_type", text("Fabric"))])),
                ("a", table(vec![("mod_version", text("2")), ("mod_tag", text("Server")), ("mod_type", text("Forge"))])),
            ]),
        ),
    ]);
    let read = module_from_document(&doc).unwrap();
    assert_eq!(read.mods.len(), 1);
    assert_eq!(read.mods.get("a").unwrap().mod_version, "2");
}

#[test]
fn checked_text_is_read_back_as_the_module() {
    let mut module = Module::new("default", "1.5", "someone");
    module.add_mod("sodium", "0.5.3", DefaultTags::Client, ModTypes::Fabric);
    module.add_mod("create", "0.5.8", DefaultTags::Both, ModTypes::Forge);
    let written = module.to_json_checked().unwrap();
    assert_eq!(written, module.to_json().unwrap());
    let read = Module::from_json(&written).unwrap();
    assert_eq!(read.module_name, "default");
    assert_eq!(read.module_version, "1.5");
    assert_eq!(read.module_author, "someone");
    assert_eq!(read.mods.len(), 2);
    assert_eq!(read.mods.get("sodium"), module.mods.get("sodium"));
    assert_eq!(read.mods.get("create"), module.mods.get("create"));
}

#[test]
fn checked_writing_refuses_a_version_in_another_form() {
    assert_eq!(Module::new("n", "1.0", "a").to_json_checked().unwrap_err().kind(), SaveFault::ReadBack);
    assert_eq!(Module::new("n", "0.50", "a").to_json_checked().unwrap_err().kind(), SaveFault::ReadBack);
    assert_eq!(Module::new("n", "1e2", "a").to_json_checked().unwrap_err().kind(), SaveFault::ReadBack);
    assert!(Module::new("n", "1", "a").to_json_checked().is_ok());
    assert!(Module::new("n", "100", "a").to_json_checked().is_ok());
    assert!(Module::new("n", "-2.25", "a").to_json_checked().is_ok());
}

#[test]
fn checked_writing_refuses_what_is_no_number() {
    assert_eq!(Module::new("n", "one", "a").to_json_checked().unwrap_err().kind(), SaveFault::Json);
    assert_eq!(Module::new("n", "one", "a").to_json().unwrap_err().kind(), SaveFault::Json);
}

#[test]
fn checked_writing_takes_a_module_that_was_read() {
    let module = Module::from_json(SAMPLE).unwrap();
    let written = module.to_json_checked().unwrap();
    assert_eq!(Module::from_json(&written).unwrap().mods.len(), 2);
}
