use usd_bevy::materialx::asset::MaterialXAssetReader;

#[test]
fn delegates_reads_to_the_host() {
    let reader = MaterialXAssetReader::new(|path: &str| {
        (path == "material.mtlx")
            .then(|| b"<materialx/>".to_vec())
            .ok_or_else(|| "missing".to_owned())
    });

    assert!(reader.contains("material.mtlx"));
    assert_eq!(reader.read("material.mtlx").unwrap(), b"<materialx/>");
    assert!(!reader.contains("missing.mtlx"));
}
