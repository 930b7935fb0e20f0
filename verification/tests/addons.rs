use thugsrf::json::Json;
use thugsrf::addons::{
    addon_request, catalog, check_manifest, enable_targets, enabled_of_kind, find, infer_format, listing,
    live_decoders, prepare_run, timeout, Addon, AddonError, Manifest,
};

fn manifest(name: &str, kind: &str, enabled: bool, formats: &[&str]) -> Manifest {
    Manifest {
        api_version: 1,
        name: name.into(),
        kind: kind.into(),
        description: format!("{name} addon"),
        command: vec!["python3".into(), "main.py".into()],
        enabled,
        formats: formats.iter().map(|f| f.to_string()).collect(),
        requires: vec![],
        timeout_seconds: 30,
    }
}

fn addon(name: &str, kind: &str, enabled: bool, formats: &[&str]) -> Addon {
    Addon { path: format!("/addons/{kind}/{name}/addon.toml"), manifest: manifest(name, kind, enabled, formats) }
}

#[test]
fn manifests_are_checked_in_order() {
    assert!(check_manifest(&manifest("a", "decoders", true, &[]), "decoders").is_ok());
    let mut m = manifest("a", "decoders", true, &[]);
    m.api_version = 2;
    assert!(matches!(check_manifest(&m, "decoders"), Err(AddonError::UnsupportedApi(n)) if n == "a"));
    let m = manifest("a", "identifiers", true, &[]);
    assert!(matches!(check_manifest(&m, "decoders"), Err(AddonError::KindMismatch(n)) if n == "a"));
    let mut m = manifest("a", "decoders", true, &[]);
    m.command.clear();
    assert!(matches!(check_manifest(&m, "decoders"), Err(AddonError::Incomplete)));
    let mut m = manifest("a", "decoders", true, &[]);
    m.timeout_seconds = 121;
    assert!(matches!(check_manifest(&m, "decoders"), Err(AddonError::Timeout)));
    assert_eq!(timeout(), 10);
}

#[test]
fn catalog_lists_by_name_and_refuses_duplicates() {
    let listed = catalog(vec![
        addon("rtl433", "decoders", true, &[]),
        addon("ais", "decoders", false, &[]),
        addon("id", "identifiers", true, &[]),
    ])
    .unwrap();
    let names: Vec<_> = listed.iter().map(|a| a.manifest.name.as_str()).collect();
    assert_eq!(names, vec!["ais", "id", "rtl433"]);
    let refused = catalog(vec![
        addon("x", "decoders", true, &[]),
        addon("y", "decoders", true, &[]),
        addon("x", "identifiers", true, &[]),
    ]);
    assert!(matches!(refused, Err(AddonError::Duplicate(n)) if n == "x"));
}

#[test]
fn runs_need_an_enabled_addon_that_takes_the_format() {
    let addons = vec![
        addon("ais", "decoders", true, &["cs8", "wav"]),
        addon("off", "decoders", false, &[]),
        addon("any", "identifiers", true, &[]),
    ];
    assert_eq!(find(&addons, "off"), Some(1));
    assert_eq!(prepare_run(&addons, "ais", Some("wav"), 15).unwrap(), (0, 15));
    assert_eq!(prepare_run(&addons, "any", None, 120).unwrap(), (2, 30));
    assert!(matches!(prepare_run(&addons, "nope", None, 120), Err(AddonError::NotFound)));
    assert!(matches!(prepare_run(&addons, "off", None, 120), Err(AddonError::Disabled(n)) if n == "off"));
    assert!(matches!(prepare_run(&addons, "ais", None, 120), Err(AddonError::FormatMissing)));
    assert!(matches!(prepare_run(&addons, "ais", Some("cu8"), 120), Err(AddonError::UnsupportedFormat(n)) if n == "ais"));
}

#[test]
fn enabling_and_selecting_by_kind() {
    let addons = vec![
        addon("a", "decoders", true, &["cu8"]),
        addon("b", "decoders", false, &[]),
        addon("c", "identifiers", true, &[]),
        addon("d", "decoders", true, &[]),
    ];
    assert_eq!(live_decoders(&addons, "cu8"), vec![0, 3]);
    assert_eq!(live_decoders(&addons, "cs8"), vec![3]);
    assert_eq!(enable_targets(&addons, "all", Some("decoders")).unwrap(), vec![0, 1, 3]);
    assert_eq!(enable_targets(&addons, "c", None).unwrap(), vec![2]);
    assert!(matches!(enable_targets(&addons, "all", Some("x")), Err(AddonError::BadKind)));
    assert!(matches!(enable_targets(&addons, "zz", None), Err(AddonError::NoMatch)));
    assert_eq!(enabled_of_kind(&addons, "identifiers").unwrap(), vec![2]);
    assert!(matches!(enabled_of_kind(&addons, "x"), Err(AddonError::BadKind)));
    let none = vec![addon("b", "decoders", false, &[])];
    assert!(matches!(enabled_of_kind(&none, "decoders"), Err(AddonError::NoneEnabled(k)) if k == "decoders"));
}

#[test]
fn request_formats_come_from_the_file_name() {
    assert_eq!(infer_format("auto", Some("iq")).unwrap(), "cs8");
    assert_eq!(infer_format("auto", Some("pcapng")).unwrap(), "pcapng");
    assert_eq!(infer_format("cu8", Some("bin")).unwrap(), "cu8");
    assert!(matches!(infer_format("auto", Some("bin")), Err(AddonError::CannotInfer)));
    assert!(matches!(infer_format("auto", None), Err(AddonError::CannotInfer)));
}

#[test]
fn the_addon_list_shows_one_line_each() {
    let addons = vec![addon("ais", "decoders", true, &[]), addon("id", "identifiers", false, &[])];
    assert_eq!(
        listing(&addons),
        "ais [decoders] enabled=true — ais addon\nid [identifiers] enabled=false — id addon"
    );
    assert_eq!(listing(&vec![]), "");
}

#[test]
fn duplicate_names_are_reported_in_name_order() {
    let refused = catalog(vec![
        addon("zeta", "decoders", true, &[]),
        addon("alpha", "decoders", true, &[]),
        addon("zeta", "identifiers", true, &[]),
        addon("alpha", "identifiers", true, &[]),
    ]);
    assert!(matches!(refused, Err(AddonError::Duplicate(n)) if n == "alpha"));
}

#[test]
fn the_first_addon_of_a_name_is_the_one_run() {
    let addons = vec![addon("x", "decoders", false, &[]), addon("x", "identifiers", true, &[])];
    assert!(matches!(prepare_run(&addons, "x", None, 120), Err(AddonError::Disabled(n)) if n == "x"));
}

#[test]
fn addon_requests_follow_the_documented_format() {
    let j = addon_request("/tmp/a b.cs8", "cs8", 2_000_000, 433_920_000);
    let input = Json::Object(vec![
        ("path".into(), Json::Text("/tmp/a b.cs8".into())),
        ("format".into(), Json::Text("cs8".into())),
        ("sample_rate".into(), Json::Number("2000000".into())),
        ("center_hz".into(), Json::Number("433920000".into())),
    ]);
    assert_eq!(
        j,
        Json::Object(vec![
            ("api_version".into(), Json::Number("1".into())),
            ("action".into(), Json::Text("analyze".into())),
            ("input".into(), input),
        ])
    );
}
