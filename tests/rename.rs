use toml_edit::Document;
use workspace_rename::driver::{find_package, is_registry_manifest, new_package_name};
use workspace_rename::manifest::{
    rename_dependency_in_document, rename_in_inline_table, rename_in_table, rename_package,
    set_package_name, update_dependencies,
};
use workspace_rename::{dash_to_underscore, update_use_statements, RenameError};

#[test]
fn test_file_replace() {
    let test_content = "//Test comment use bla bla\nuse aya::{File};\nuse xyc::foo;\n".to_string();
    let result = update_use_statements(&test_content, "aya", "aya-example-suffix").unwrap();
    // Both names are taken to their underscore form before the rewrite.
    let expected = "//Test comment use bla bla\nuse aya_example_suffix::{File};\nuse xyc::foo;\n";
    assert_eq!(result, expected);
}

#[test]
fn test_dash_to_underscore() {
    let result = dash_to_underscore("aya-example-prefix");
    assert_eq!(result, "aya_example_prefix");
}

#[test]
fn underscore_form_is_idempotent() {
    let once = dash_to_underscore("a-b--c");
    assert_eq!(once, "a_b__c");
    assert_eq!(dash_to_underscore(&once), once);
    assert_eq!(dash_to_underscore(""), "");
}

#[test]
fn every_path_import_is_rewritten() {
    let src = "use aya_log::Logger;\nfn f() {}\nuse aya_log::{a, b};\nuse aya_logger::x;\n";
    let out = update_use_statements(src, "aya-log", "aya-log-next").unwrap();
    assert_eq!(
        out,
        "use aya_log_next::Logger;\nfn f() {}\nuse aya_log_next::{a, b};\nuse aya_logger::x;\n"
    );
}

#[test]
fn alias_import_is_rewritten() {
    let src = "use aya as ebpf;\nuse ayab as other;\n";
    let out = update_use_statements(src, "aya", "aya-next").unwrap();
    assert_eq!(out, "use aya_next as ebpf;\nuse ayab as other;\n");
}

#[test]
fn unrelated_source_is_kept() {
    let src = "use std::fs;\n// aya::x\nlet s = \"use aya\";\n";
    let out = update_use_statements(src, "aya", "aya-next").unwrap();
    assert_eq!(out, src);
}

#[test]
fn name_that_is_no_identifier_is_refused() {
    let out = update_use_statements("use a::b;", "a.b", "a-x");
    assert_eq!(out, Err(RenameError::InvalidIdentifier));
    let out = update_use_statements("use a::b;", "a", "a$x");
    assert_eq!(out, Err(RenameError::InvalidIdentifier));
}

#[test]
fn dependency_key_is_renamed_keeping_its_spec() {
    let manifest = "[package]\nname = \"app\"\n\n[dependencies]\naya = { path = \"../aya\", version = \"0.1\" }\nlibc = \"0.2\"\n\n[dev-dependencies]\naya = \"0.1\"\n";
    let out = update_dependencies(manifest, "aya", "aya-next").unwrap();
    let doc = out.parse::<Document>().unwrap();
    let deps = doc["dependencies"].as_table().unwrap();
    assert!(deps.get("aya").is_none());
    assert_eq!(
        deps["aya-next"].to_string().trim(),
        "{ path = \"../aya\", version = \"0.1\" }"
    );
    assert_eq!(deps["libc"].as_str(), Some("0.2"));
    let dev = doc["dev-dependencies"].as_table().unwrap();
    assert!(dev.get("aya").is_none());
    assert_eq!(dev["aya-next"].as_str(), Some("0.1"));
}

#[test]
fn manifest_without_dependency_tables_is_unchanged() {
    let manifest = "[package]\nname   =  \"app\"  # the name\nversion = \"1.0.0\"\n";
    let out = update_dependencies(manifest, "aya", "aya-next").unwrap();
    assert_eq!(out, manifest);
}

#[test]
fn manifest_not_referring_to_the_package_is_unchanged() {
    let manifest = "[dependencies]\nlibc =   \"0.2\"\n";
    let out = update_dependencies(manifest, "aya", "aya-next").unwrap();
    assert_eq!(out, manifest);
}

#[test]
fn malformed_manifest_is_an_error() {
    assert_eq!(
        update_dependencies("[dependencies\naya = ", "aya", "aya-next"),
        Err(RenameError::Manifest)
    );
    assert_eq!(rename_package("name = = 1", "x"), Err(RenameError::Manifest));
}

#[test]
fn package_name_is_set() {
    let manifest = "[package]\nname = \"aya\"\nversion = \"0.1.0\"\n";
    let out = rename_package(manifest, "aya-next").unwrap();
    assert_eq!(out, "[package]\nname = \"aya-next\"\nversion = \"0.1.0\"\n");
}

#[test]
fn manifest_without_package_table_is_refused() {
    assert_eq!(
        rename_package("[workspace]\nmembers = []\n", "x"),
        Err(RenameError::MissingPackageTable)
    );
}

#[test]
fn document_rename_reports_change() {
    let mut doc = "[dependencies]\naya = \"1\"\n".parse::<Document>().unwrap();
    assert!(rename_dependency_in_document(&mut doc, "aya", "aya-next"));
    assert_eq!(doc["dependencies"]["aya-next"].as_str(), Some("1"));
    assert!(!rename_dependency_in_document(&mut doc, "aya", "aya-next"));
    let mut doc = "[package]\nname = \"p\"\n".parse::<Document>().unwrap();
    set_package_name(&mut doc, "q").unwrap();
    assert_eq!(doc["package"]["name"].as_str(), Some("q"));
}

#[test]
fn table_rename_to_existing_key_replaces_it() {
    let mut doc = "[dependencies]\na = \"1\"\nb = \"2\"\n".parse::<Document>().unwrap();
    let table = doc["dependencies"].as_table_mut().unwrap();
    assert!(rename_in_table(table, "a", "b"));
    assert!(table.get("a").is_none());
    assert_eq!(table["b"].as_str(), Some("1"));
    assert!(!rename_in_table(table, "zzz", "y"));
}

#[test]
fn new_name_appends_suffix() {
    assert_eq!(new_package_name("aya-log", "-nightly"), "aya-log-nightly");
}

#[test]
fn package_is_found_by_exact_name() {
    let names = vec!["aya-log".to_string(), "aya".to_string(), "aya".to_string()];
    assert_eq!(find_package(&names, "aya"), Ok(1));
    assert_eq!(find_package(&names, "ay"), Err(RenameError::PackageNotFound));
    assert_eq!(find_package(&Vec::new(), "aya"), Err(RenameError::PackageNotFound));
}

#[test]
fn registry_manifests_are_recognised() {
    assert!(is_registry_manifest(
        "/root/.cargo/registry/src/index.crates.io-6f17d22bba15001f/libc-0.2.1/Cargo.toml"
    ));
    assert!(!is_registry_manifest("/home/me/aya/aya-log/Cargo.toml"));
    assert!(!is_registry_manifest(""));
}

#[test]
fn inline_dependency_table_is_renamed() {
    let manifest = "dependencies = { aya = \"1\", libc = \"0.2\" }\n";
    let out = update_dependencies(manifest, "aya", "aya-next").unwrap();
    let doc = out.parse::<Document>().unwrap();
    let deps = doc["dependencies"].as_inline_table().unwrap();
    assert!(deps.get("aya").is_none());
    assert_eq!(deps.get("aya-next").and_then(|v| v.as_str()), Some("1"));
    assert_eq!(deps.get("libc").and_then(|v| v.as_str()), Some("0.2"));
}

#[test]
fn inline_table_rename_reports_change() {
    let mut doc = "deps = { a = 1 }\n".parse::<Document>().unwrap();
    let table = doc["deps"].as_inline_table_mut().unwrap();
    assert!(rename_in_inline_table(table, "a", "b"));
    assert!(table.get("a").is_none());
    assert_eq!(table.get("b").and_then(|v| v.as_integer()), Some(1));
    assert!(!rename_in_inline_table(table, "a", "c"));
}

#[test]
fn inline_package_table_gets_the_name() {
    let out = rename_package("package = { name = \"aya\" }\n", "aya-next").unwrap();
    let doc = out.parse::<Document>().unwrap();
    assert_eq!(doc["package"]["name"].as_str(), Some("aya-next"));
}

#[test]
fn renaming_a_dependency_to_itself_keeps_it() {
    let manifest = "[dependencies]\naya = \"1\"\n";
    let out = update_dependencies(manifest, "aya", "aya").unwrap();
    let doc = out.parse::<Document>().unwrap();
    assert_eq!(doc["dependencies"]["aya"].as_str(), Some("1"));
}

#[test]
fn document_whose_root_is_no_table_is_left_alone() {
    let mut doc = "[dependencies]\naya = \"1\"\n".parse::<Document>().unwrap();
    *doc.as_item_mut() = toml_edit::value(1);
    assert!(!rename_dependency_in_document(&mut doc, "aya", "aya-next"));
    assert_eq!(set_package_name(&mut doc, "x"), Err(RenameError::MissingPackageTable));
}
