use kmod::{decode_text, group_by_key, metadata_pair};

fn pair(k: &str, v: &str) -> (String, String) {
    (k.to_string(), v.to_string())
}

#[test]
fn grouping_keeps_order_of_repeated_keys() {
    let pairs = vec![
        pair("alias", "fs-vfat"),
        pair("license", "GPL"),
        pair("alias", "vfat"),
        pair("depends", "fat"),
        pair("alias", "fs-msdos"),
    ];
    let g = group_by_key(&pairs);
    assert_eq!(g.len(), 3);
    assert_eq!(g[0].0, "alias");
    assert_eq!(g[0].1, vec!["fs-vfat", "vfat", "fs-msdos"]);
    assert_eq!(g[1].0, "license");
    assert_eq!(g[1].1, vec!["GPL"]);
    assert_eq!(g[2].0, "depends");
    assert_eq!(g[2].1, vec!["fat"]);
}

#[test]
fn grouping_matches_direct_iteration() {
    let pairs = vec![
        pair("parm", "a"),
        pair("parm", "b"),
        pair("x", ""),
        pair("parm", "a"),
    ];
    let g = group_by_key(&pairs);
    for (k, vals) in &g {
        let direct: Vec<String> = pairs
            .iter()
            .filter(|p| &p.0 == k)
            .map(|p| p.1.clone())
            .collect();
        assert_eq!(&direct, vals);
    }
    let total: usize = g.iter().map(|e| e.1.len()).sum();
    assert_eq!(total, pairs.len());
}

#[test]
fn grouping_of_nothing_is_empty() {
    assert!(group_by_key(&Vec::new()).is_empty());
}

#[test]
fn decoding_replaces_invalid_bytes() {
    assert_eq!(decode_text(b"snd_hda"), "snd_hda");
    assert_eq!(decode_text(&[0x61, 0xff, 0x62]), "a\u{FFFD}b");
    assert_eq!(decode_text(&[0xc3, 0xa9]), "é");
}

#[test]
fn metadata_pair_decodes_both_sides() {
    assert_eq!(
        metadata_pair(b"author", &[0x4a, 0xfe]),
        ("author".to_string(), "J\u{FFFD}".to_string())
    );
}
