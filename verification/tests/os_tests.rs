use memwatch::os_utils::{check_kernel_version, kernel_too_old, parse_kernel_version};
use memwatch::sysreq::{check_system_requirements, RequirementError};

#[test]
fn kernel_version_of_release_strings() {
    assert_eq!(parse_kernel_version("5.15.0-91-generic\n"), (5, 15));
    assert_eq!(parse_kernel_version("4.14.0"), (4, 14));
    assert_eq!(parse_kernel_version("  6.1\n"), (6, 1));
    assert_eq!(parse_kernel_version("6"), (6, 0));
    assert_eq!(parse_kernel_version("0.0.0"), (0, 0));
}

#[test]
fn kernel_version_parts_that_are_no_numbers() {
    assert_eq!(parse_kernel_version(""), (0, 0));
    assert_eq!(parse_kernel_version("   "), (0, 0));
    assert_eq!(parse_kernel_version("4.14-rc1"), (4, 0));
    assert_eq!(parse_kernel_version("v5.4"), (0, 4));
    assert_eq!(parse_kernel_version(".7"), (0, 7));
    assert_eq!(parse_kernel_version("5..7"), (5, 0));
    assert_eq!(parse_kernel_version("5 .7"), (0, 7));
    assert_eq!(parse_kernel_version("+5.+7"), (5, 7));
    assert_eq!(parse_kernel_version("+.-7"), (0, 0));
    assert_eq!(parse_kernel_version("4294967295.4294967296"), (4294967295, 0));
    assert_eq!(parse_kernel_version("\u{a0}5.4\u{3000}"), (5, 4));
}

#[test]
fn kernel_version_agrees_with_std_parsing() {
    let releases = [
        "5.15.0-91-generic\n", "4.14", " 3.10.0-1160.el7.x86_64", "x", "1.", ".", "..", "+1.+2",
        "\t2.6.32\r\n", "10.0.1.2", "99999999999.1", "\u{2003}7.8",
    ];
    for raw in releases {
        let mut parts = raw.trim().split('.');
        let major = parts.next().and_then(|x| x.parse::<u32>().ok()).unwrap_or(0);
        let minor = parts.next().and_then(|x| x.parse::<u32>().ok()).unwrap_or(0);
        assert_eq!(parse_kernel_version(raw), (major, minor), "release {:?}", raw);
    }
}

#[test]
fn kernel_too_old_threshold() {
    assert!(kernel_too_old(3, 99));
    assert!(kernel_too_old(4, 13));
    assert!(kernel_too_old(0, 0));
    assert!(!kernel_too_old(4, 14));
    assert!(!kernel_too_old(4, 15));
    assert!(!kernel_too_old(5, 0));
}

#[test]
fn kernel_check_warns_of_old_kernels_only() {
    assert_eq!(check_kernel_version("4.9.0-8-amd64"), Some((4, 9)));
    assert_eq!(check_kernel_version("garbage"), Some((0, 0)));
    assert_eq!(check_kernel_version("4.14.0"), None);
    assert_eq!(check_kernel_version("6.8.0-40-generic\n"), None);
}

#[test]
fn system_requirements() {
    assert_eq!(check_system_requirements(true, true), Ok(()));
    assert_eq!(check_system_requirements(true, false), Err(RequirementError::NotRoot));
    assert_eq!(check_system_requirements(false, true), Err(RequirementError::UnsupportedOs));
    assert_eq!(check_system_requirements(false, false), Err(RequirementError::UnsupportedOs));
}
