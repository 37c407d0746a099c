use swat::repository::{normalize_patient_key, split_lines, GpManifest};

#[test]
fn gp_manifest_parses_resources_and_libraries() {
    let manifest = GpManifest::parse(
        "/tmp/example.gp",
        r#"
name sample.app
longname "Sample"
library geos
library ui
resource AppResource ui-object
resource Strings lmem shared read-only
"#,
    )
    .unwrap();

    assert_eq!(manifest.name.as_deref(), Some("sample.app"));
    assert_eq!(manifest.long_name.as_deref(), Some("Sample"));
    assert_eq!(manifest.libraries, vec!["geos".to_string(), "ui".to_string()]);
    assert_eq!(manifest.resources.len(), 2);
    assert_eq!(manifest.resources[0].name, "AppResource");
    assert_eq!(manifest.resources[1].flags, vec!["lmem", "shared", "read-only"]);
}

#[test]
fn manifest_comments_and_patient_keys() {
    let manifest = GpManifest::parse("/src/app.gp", "name Geo.App # the app\nappobj GeoApp\n").unwrap();
    assert_eq!(manifest.name.as_deref(), Some("Geo.App"));
    assert_eq!(manifest.app_object.as_deref(), Some("GeoApp"));
    assert_eq!(manifest.patient_key().as_deref(), Some("geo"));
    assert_eq!(normalize_patient_key("  Sample.APP "), "sample");
}

#[test]
fn splits_lines_like_str_lines() {
    assert_eq!(split_lines("a\r\nb\n\nc"), vec!["a", "b", "", "c"]);
    assert_eq!(split_lines(""), Vec::<&str>::new());
    assert_eq!(split_lines("x\n"), vec!["x"]);
}
