use std::cmp::Ordering;
use startchatgpt::package::{
    compare_version, newest_package, package_arch, parse_package_directory, PackageEntry,
};

#[test]
fn parses_package_directory() {
    let (version, arch) =
        parse_package_directory("OpenAI.Codex_26.810.7004.0_x64__2p2nqsd0c76g0").unwrap();
    assert_eq!(version, [26, 810, 7004, 0]);
    assert_eq!(arch, "x64");
}

#[test]
fn compares_versions_numerically() {
    assert!(compare_version(&[26, 900, 1, 0], &[26, 810, 7004, 0]).is_gt());
    assert!(compare_version(&[26, 810, 7004], &[26, 810, 7004, 0]).is_eq());
}

#[test]
fn version_order_is_antisymmetric_and_pads_with_zeros() {
    assert!(compare_version(&[26, 810, 7004, 0], &[26, 900, 1, 0]).is_lt());
    assert!(compare_version(&[1], &[1, 0, 0, 1]).is_lt());
    assert!(compare_version(&[], &[0, 0]).is_eq());
    assert!(compare_version(&[2], &[1, 99]).is_gt());
}

#[test]
fn refuses_malformed_package_directories() {
    assert!(parse_package_directory("OpenAI.Codex_26.810_").is_some());
    assert!(parse_package_directory("OpenAI.Codex_26.810").is_none());
    assert!(parse_package_directory("OpenAI.Codex_26.x.1_x64").is_none());
    assert!(parse_package_directory("OpenAI.Codex_26..1_x64").is_none());
    assert!(parse_package_directory("OpenAI.Codex__x64").is_none());
    assert!(parse_package_directory("OpenAI.Other_1_x64").is_none());
    assert!(parse_package_directory("OpenAI.Codex_18446744073709551616_x64").is_none());
    let (version, arch) = parse_package_directory("OpenAI.Codex_+7.18446744073709551615_arm64").unwrap();
    assert_eq!(version, [7, u64::MAX]);
    assert_eq!(arch, "arm64");
}

#[test]
fn maps_target_architectures_to_package_names() {
    assert_eq!(package_arch("x86_64"), "x64");
    assert_eq!(package_arch("x86"), "x86");
    assert_eq!(package_arch("aarch64"), "arm64");
    assert_eq!(package_arch("riscv64"), "");
}

fn entry(name: &str, launchable: bool) -> PackageEntry {
    PackageEntry { name: name.to_string(), launchable }
}

#[test]
fn picks_the_first_newest_launchable_package_of_the_architecture() {
    let entries = vec![
        entry("OpenAI.Codex_26.810.7004.0_x64__a", true),
        entry("OpenAI.Codex_27.0.0.0_arm64__a", true),
        entry("OpenAI.Codex_26.900.1.0_x64__a", true),
        entry("OpenAI.Codex_30.0.0.0_x64__a", false),
        entry("Other.App_99.0_x64__a", true),
        entry("OpenAI.Codex_26.900.1_x64__b", true),
    ];
    assert_eq!(newest_package(&entries, "x64"), Some(2));
    assert_eq!(newest_package(&entries, "arm64"), Some(1));
    assert_eq!(newest_package(&entries, "x86"), None);
    assert_eq!(newest_package(&Vec::new(), "x64"), None);
}

#[test]
fn versions_compare_as_zero_padded_sequences() {
    let cases: [(&[u64], &[u64]); 5] = [
        (&[1, 2], &[1, 2, 0, 0]),
        (&[1, 2], &[1, 2, 0, 1]),
        (&[1, 10], &[1, 9, 99]),
        (&[], &[0]),
        (&[3], &[2, 50]),
    ];
    for (a, b) in cases {
        let n = a.len().max(b.len());
        let pad = |v: &[u64]| {
            let mut p = v.to_vec();
            p.resize(n, 0);
            p
        };
        assert_eq!(compare_version(a, b), pad(a).cmp(&pad(b)));
        assert_eq!(compare_version(a, b), compare_version(b, a).reverse());
    }
    assert_eq!(compare_version(&[1, 2], &[1, 2, 0, 1]), Ordering::Less);
}
