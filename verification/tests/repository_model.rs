use swat::adapter_pcgeos::PcGeosFixtureObject;
use swat::inventory::{
    build_inventory, collect_manifest_source_files, validate_fixture_stop_references,
    FrameReferences, ManifestSources, StopReferences,
};
use swat::repository::{is_gp_source_extension, GpManifest, PcGeosRepositoryModel};
use swat::repository_model::{symbol_geode_key, ManifestInput, RepositoryBuilder};

fn sample_manifest() -> GpManifest {
    GpManifest::parse(
        "geodes/sample/sample.gp",
        "name Sample.app\nlongname \"Sample\"\ntype appl, process\nlibrary ui\nlibrary geos\nappobj SampleApp\nclass SampleProcessClass\nresource AppResource ui-object\nresource Interface\n",
    )
    .unwrap()
}

fn sample_model() -> PcGeosRepositoryModel {
    let inputs = vec![ManifestInput {
        manifest: sample_manifest(),
        root: Some("geodes/sample".to_string()),
        source_files: vec!["ui.goc".to_string(), "main.goc".to_string()],
    }];
    PcGeosRepositoryModel::from_fixture_paths(&inputs, &Vec::new()).unwrap()
}

#[test]
fn manifest_builds_patient_geode_resources_and_sources() {
    let model = sample_model();
    assert_eq!(model.patients.len(), 1);
    let patient = &model.patients[0];
    assert_eq!(patient.key, "sample");
    assert_eq!(patient.geodes, vec!["Sample.app"]);
    assert_eq!(patient.source_files, vec!["main.goc", "ui.goc"]);
    assert_eq!(patient.resources, vec!["Sample.app:AppResource", "Sample.app:Interface"]);
    assert_eq!(patient.artifact_paths, vec!["geodes/sample/sample.gp"]);

    assert_eq!(model.geodes.len(), 1);
    let geode = &model.geodes[0];
    assert_eq!(geode.key, "Sample.app");
    assert_eq!(geode.patient, "sample");
    assert_eq!(geode.permanent_name.as_deref(), Some("Sample.app"));
    assert_eq!(geode.long_name.as_deref(), Some("Sample"));
    assert_eq!(geode.libraries, vec!["geos", "ui"]);
    assert!(geode.handles.is_empty());

    assert!(model.handles.is_empty());
    assert_eq!(model.resources.len(), 2);
    assert_eq!(model.resources[0].key, "Sample.app:AppResource");
    assert_eq!(model.resources[0].kind, "gp-resource");
    assert_eq!(model.resources[0].handle, None);

    assert_eq!(model.source_files.len(), 2);
    assert_eq!(model.source_files[0].key, "main.goc");
    assert_eq!(model.source_files[0].artifact_paths, vec!["geodes/sample/main.goc"]);
    assert_eq!(model.source_files[0].patients, vec!["sample"]);
    assert_eq!(model.source_files[0].geodes, vec!["Sample.app"]);
}

#[test]
fn manifests_without_name_add_nothing_and_rootless_paths_fail() {
    let mut builder = RepositoryBuilder::new();
    let unnamed = GpManifest::parse("x.gp", "library geos\n").unwrap();
    assert!(builder.add_manifest(&unnamed, None, &Vec::new()).is_ok());
    let model = builder.build();
    assert!(model.patients.is_empty());
    assert!(model.geodes.is_empty());

    let named = GpManifest::parse("", "name a.app\n").unwrap();
    let error = builder.add_manifest(&named, None, &Vec::new()).unwrap_err();
    assert_eq!(error.to_string(), "manifest  has no parent");
    assert!(builder.build().geodes.is_empty());
}

#[test]
fn adding_the_same_manifest_twice_keeps_one_of_each() {
    let mut builder = RepositoryBuilder::new();
    let manifest = sample_manifest();
    let files = vec!["main.goc".to_string()];
    builder.add_manifest(&manifest, Some("geodes/sample"), &files).unwrap();
    builder.add_manifest(&manifest, Some("geodes/sample"), &files).unwrap();
    let model = builder.build();
    assert_eq!(model.patients.len(), 1);
    assert_eq!(model.geodes.len(), 1);
    assert_eq!(model.geodes[0].artifact_paths, vec!["geodes/sample/sample.gp"]);
    assert_eq!(model.resources.len(), 2);
    assert_eq!(model.source_files.len(), 1);
}

#[test]
fn symbol_geode_keys_come_from_the_directory_or_the_stem() {
    assert_eq!(symbol_geode_key("fixtures/geodes/sample/sample.sym"), "sample");
    assert_eq!(symbol_geode_key("sample.sym"), "sample");
    assert_eq!(symbol_geode_key("/"), "symbol");
}

#[test]
fn inventory_derives_handles_objects_and_patients() {
    let manifest = sample_manifest();
    let model = sample_model();
    let inventory = build_inventory(
        &vec![manifest],
        &model,
        vec!["geodes/sample/main.goc".to_string()],
        &Vec::<PcGeosFixtureObject>::new(),
        Some("sample"),
        "pcgeos".to_string(),
    );
    let handle_keys = inventory.handles.keys();
    assert_eq!(
        handle_keys,
        vec!["Sample.app:handle:AppResource", "Sample.app:handle:Interface"]
    );
    let handle = inventory.handles.get("Sample.app:handle:AppResource").unwrap();
    assert_eq!(handle.patient, "sample");
    assert_eq!(handle.resource.as_deref(), Some("Sample.app:AppResource"));
    assert_eq!(handle.handle_type, "resource");
    assert_eq!(handle.flags, vec!["ui-object"]);

    let resource = inventory.resources.get("Sample.app:AppResource").unwrap();
    assert_eq!(resource.identifier, "AppResource");
    assert_eq!(resource.handle.as_deref(), Some("Sample.app:handle:AppResource"));
    assert_eq!(resource.resource_type, "gp-resource");

    let object = inventory.objects.get("SampleApp").unwrap();
    assert_eq!(object.class_name.as_deref(), Some("SampleProcessClass"));
    assert_eq!(object.resource.as_deref(), Some("Sample.app:AppResource"));
    assert_eq!(object.handle.as_deref(), Some("Sample.app:handle:AppResource"));

    let patient = inventory.patients.get("sample").unwrap();
    assert!(patient.default);
    assert_eq!(patient.identifier.as_deref(), Some("Sample.app"));
    assert_eq!(patient.path.as_deref(), Some("geodes/sample/sample.gp"));
    assert_eq!(patient.handles.len(), 2);
    assert_eq!(patient.resources.len(), 2);
    assert_eq!(patient.objects, vec!["SampleApp"]);
}

#[test]
fn manifest_source_files_are_joined_sorted_and_deduplicated() {
    let files = collect_manifest_source_files(&vec![
        ManifestSources {
            path: "b/b.gp".to_string(),
            root: Some("b".to_string()),
            files: vec!["z.goc".to_string(), "a.goc".to_string()],
        },
        ManifestSources {
            path: "a/a.gp".to_string(),
            root: Some("a/".to_string()),
            files: vec!["m.goc".to_string(), "/abs/x.goc".to_string()],
        },
        ManifestSources {
            path: "b/b.gp".to_string(),
            root: Some("b".to_string()),
            files: vec!["a.goc".to_string()],
        },
    ])
    .unwrap();
    assert_eq!(files, vec!["/abs/x.goc", "a/m.goc", "b/a.goc", "b/z.goc"]);

    let error = collect_manifest_source_files(&vec![ManifestSources {
        path: "".to_string(),
        root: None,
        files: Vec::new(),
    }])
    .unwrap_err();
    assert_eq!(error.to_string(), "manifest  has no parent");
}

fn frame(boundary_id: u64, line: u64) -> FrameReferences {
    FrameReferences {
        boundary_id,
        file: "geodes/sample/main.goc".to_string(),
        file_exists: true,
        line,
        patient: Some("sample".to_string()),
        handle: Some("Sample.app:handle:AppResource".to_string()),
        resource: Some("Sample.app:AppResource".to_string()),
    }
}

#[test]
fn stop_references_are_checked_against_the_inventory() {
    let inventory = build_inventory(
        &vec![sample_manifest()],
        &sample_model(),
        Vec::new(),
        &Vec::new(),
        None,
        "pcgeos".to_string(),
    );
    let ok = vec![StopReferences { summary: "stop".to_string(), frames: vec![frame(3, 12)] }];
    assert!(validate_fixture_stop_references(&ok, &inventory).is_ok());

    let empty = vec![StopReferences { summary: "idle".to_string(), frames: Vec::new() }];
    assert_eq!(
        validate_fixture_stop_references(&empty, &inventory).unwrap_err().to_string(),
        "fixture stop 'idle' does not define any frames"
    );

    let zero = vec![StopReferences { summary: "stop".to_string(), frames: vec![frame(4, 0)] }];
    assert_eq!(
        validate_fixture_stop_references(&zero, &inventory).unwrap_err().to_string(),
        "fixture frame 4 must use 1-based line numbers"
    );

    let mut unknown = frame(5, 1);
    unknown.handle = Some("nope".to_string());
    let bad = vec![StopReferences { summary: "stop".to_string(), frames: vec![unknown] }];
    assert_eq!(
        validate_fixture_stop_references(&bad, &inventory).unwrap_err().to_string(),
        "fixture frame 5 references unknown handle nope"
    );

    let mut missing = frame(6, 1);
    missing.file_exists = false;
    let gone = vec![StopReferences { summary: "stop".to_string(), frames: vec![missing] }];
    assert_eq!(
        validate_fixture_stop_references(&gone, &inventory).unwrap_err().to_string(),
        "fixture frame 6 references missing source file geodes/sample/main.goc"
    );
}

#[test]
fn source_extensions_ignore_ascii_case() {
    assert!(is_gp_source_extension("goc"));
    assert!(is_gp_source_extension("GOH"));
    assert!(is_gp_source_extension("Ui"));
    assert!(!is_gp_source_extension("rs"));
    assert!(!is_gp_source_extension(""));
}
