use ventoy_toybox::release::{parse_release, select_asset, ventoy_bin_name, pkg_dir_name, ReleaseAsset};

const SCENARIO_MANIFEST: &str = "{\"tag_name\":\"v1.2.0\",\"assets\":[{\"name\":\"ventoy-windows.zip\",\"browser_download_url\":\"https://x/a\"},{\"name\":\"ventoy-linux.tar.gz\",\"browser_download_url\":\"https://x/b\"}]}";

#[test]
fn parse_manifest_round_trip_fields() {
    let rel = parse_release(SCENARIO_MANIFEST).expect("manifest should parse");
    assert_eq!(rel.tag_name, "v1.2.0");
    assert_eq!(rel.assets.len(), 2);
    assert_eq!(rel.assets[0].name, "ventoy-windows.zip");
    assert_eq!(rel.assets[0].download_url, "https://x/a");
    assert_eq!(rel.assets[1].name, "ventoy-linux.tar.gz");
    assert_eq!(rel.assets[1].download_url, "https://x/b");
}

#[test]
fn parse_manifest_skips_unknown_fields() {
    let body = "{ \"url\": \"https://api/x\", \"id\": 123, \"draft\": false, \"author\": {\"login\": \"someone\", \"ids\": [1, 2.5e3, null]}, \"tag_name\": \"v1.0.97\", \"assets\": [ {\"size\": 100, \"name\": \"pkg-linux.tar.gz\", \"state\": \"uploaded\", \"browser_download_url\": \"https://d/1\"} ], \"body\": \"notes\" }";
    let rel = parse_release(body).expect("manifest with extra fields should parse");
    assert_eq!(rel.tag_name, "v1.0.97");
    assert_eq!(rel.assets.len(), 1);
    assert_eq!(rel.assets[0].name, "pkg-linux.tar.gz");
    assert_eq!(rel.assets[0].download_url, "https://d/1");
}

#[test]
fn parse_manifest_decodes_escapes() {
    let body = "{\"tag_name\":\"a\\n\\t\\\"b\\\\\",\"assets\":[]}";
    let rel = parse_release(body).expect("escapes should decode");
    assert_eq!(rel.tag_name, "a\n\t\"b\\");
    assert_eq!(rel.assets.len(), 0);
}

#[test]
fn parse_manifest_decodes_unicode_escapes() {
    let body = "{\"tag_name\":\"a\\u0041\\u00e9\",\"assets\":[]}";
    let rel = parse_release(body).expect("unicode escapes should decode");
    assert_eq!(rel.tag_name, "aA\u{e9}");
}

#[test]
fn parse_manifest_decodes_surrogate_pairs() {
    let body = "{\"tag_name\":\"x\\ud83d\\ude00\",\"assets\":[]}";
    let rel = parse_release(body).expect("a surrogate pair decodes to one character");
    assert_eq!(rel.tag_name, "x\u{1f600}");
}

#[test]
fn parse_manifest_rejects_raw_control_characters() {
    let body = "{\"tag_name\":\"a\tb\",\"assets\":[]}";
    assert!(parse_release(body).is_err());
    let body2 = "{\"tag_name\":\"a\nb\",\"assets\":[]}";
    assert!(parse_release(body2).is_err());
}

#[test]
fn parse_manifest_rejects_unpaired_surrogates() {
    assert!(parse_release("{\"tag_name\":\"\\ud83d\",\"assets\":[]}").is_err());
    assert!(parse_release("{\"tag_name\":\"\\ude00\",\"assets\":[]}").is_err());
    assert!(parse_release("{\"tag_name\":\"\\uZZZZ\",\"assets\":[]}").is_err());
}

#[test]
fn parse_manifest_rejects_malformed() {
    assert!(parse_release("").is_err());
    assert!(parse_release("not json").is_err());
    assert!(parse_release("{\"tag_name\":\"v1\"}").is_err());
    assert!(parse_release("{\"assets\":[]}").is_err());
    assert!(parse_release("{\"tag_name\":\"v1\",\"assets\":[]} trailing").is_err());
    assert!(parse_release("{\"tag_name\":\"v1\",\"tag_name\":\"v2\",\"assets\":[]}").is_err());
    assert!(parse_release("{\"tag_name\":17,\"assets\":[]}").is_err());
}

#[test]
fn select_asset_scenario_linux() {
    let rel = parse_release(SCENARIO_MANIFEST).expect("manifest should parse");
    let idx = select_asset(&rel.assets, "linux").expect("linux asset should be found");
    assert_eq!(rel.assets[idx].name, "ventoy-linux.tar.gz");
}

#[test]
fn select_asset_scenario_macos_fails() {
    let rel = parse_release(SCENARIO_MANIFEST).expect("manifest should parse");
    let err = select_asset(&rel.assets, "macos").unwrap_err();
    assert_eq!(err, "failed to find correct pkg for native os");
}

#[test]
fn select_asset_empty_list_fails() {
    let assets: Vec<ReleaseAsset> = Vec::new();
    assert!(select_asset(&assets, "linux").is_err());
}

#[test]
fn select_asset_is_case_insensitive() {
    let assets = vec![
        ReleaseAsset { name: "Ventoy-LINUX.tar.gz".to_string(), download_url: "u1".to_string() },
    ];
    let idx = select_asset(&assets, "linux").expect("case-insensitive match");
    assert_eq!(idx, 0);
}

#[test]
fn select_asset_takes_first_match_in_order() {
    let assets = vec![
        ReleaseAsset { name: "readme.txt".to_string(), download_url: "u0".to_string() },
        ReleaseAsset { name: "pkg-linux-a.zip".to_string(), download_url: "u1".to_string() },
        ReleaseAsset { name: "pkg-linux-b.zip".to_string(), download_url: "u2".to_string() },
    ];
    let idx = select_asset(&assets, "linux").expect("match exists");
    assert_eq!(idx, 1);
}

#[test]
fn bin_name_per_platform() {
    assert_eq!(ventoy_bin_name("windows"), Some("Ventoy2Disk.exe"));
    assert_eq!(ventoy_bin_name("linux"), Some("VentoyGUI.x86_64"));
    assert_eq!(ventoy_bin_name("macos"), None);
}

#[test]
fn pkg_dir_name_format() {
    assert_eq!(pkg_dir_name("v1.2.0", "linux"), "ventoy-v1.2.0-linux");
}
