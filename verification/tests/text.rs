use neoarch_installer::text::{
    contains, decimal_string, find_field_with_prefix, join, prefix_before, signed_decimal_string,
    starts_with, strip_prefix, trim, trim_end, trim_start, CharClass,
};

#[test]
fn decimal_notation() {
    assert_eq!(decimal_string(0), "0");
    assert_eq!(decimal_string(7), "7");
    assert_eq!(decimal_string(40), "40");
    assert_eq!(decimal_string(1025), "1025");
    assert_eq!(decimal_string(u64::MAX), u64::MAX.to_string());
    assert_eq!(signed_decimal_string(-42), "-42");
    assert_eq!(signed_decimal_string(i32::MAX), "2147483647");
}

#[test]
fn trimming() {
    assert_eq!(trim("  a b \n"), "a b");
    assert_eq!(trim("\u{85}\u{a0}x\u{2028}"), "x");
    assert_eq!(trim("   "), "");
    assert_eq!(trim_end("/mnt/", CharClass::Slash), "/mnt");
    assert_eq!(trim_end("/mnt//", CharClass::Slash), "/mnt");
    assert_eq!(trim_start("//@home", CharClass::Slash), "@home");
    assert_eq!(trim_start("\u{251c}\u{2500}/mnt/boot", CharClass::NotPathChar), "/mnt/boot");
    assert_eq!(trim_start("mnt", CharClass::NotPathChar), "mnt");
}

#[test]
fn prefixes_and_search() {
    assert!(starts_with("/dev/loop0", "/dev/loop"));
    assert!(!starts_with("/dev/sda", "/dev/loop"));
    assert!(!starts_with("/dev", "/dev/loop"));
    assert_eq!(strip_prefix("/mnt/home", "/mnt").as_deref(), Some("/home"));
    assert_eq!(strip_prefix("/mnt", "/mnt").as_deref(), Some(""));
    assert_eq!(strip_prefix("/srv", "/mnt"), None);
    assert!(contains("/dev/nvme0n1", "nvme"));
    assert!(contains("nvme", "nvme"));
    assert!(!contains("/dev/sda", "nvme"));
    assert!(contains("abc", ""));
    assert_eq!(prefix_before("/dev/sda2[/@home]", '['), "/dev/sda2");
    assert_eq!(prefix_before("/dev/sda2", '['), "/dev/sda2");
}

#[test]
fn fields_with_prefix() {
    assert_eq!(find_field_with_prefix("rw,subvol=/@,compress", ',', "subvol=").as_deref(), Some("/@"));
    assert_eq!(find_field_with_prefix("subvol=a,subvol=b", ',', "subvol=").as_deref(), Some("a"));
    assert_eq!(find_field_with_prefix("rw,relatime", ',', "subvol="), None);
    assert_eq!(find_field_with_prefix("", ',', "subvol="), None);
    assert_eq!(find_field_with_prefix("rw,,subvol=", ',', "subvol=").as_deref(), Some(""));
}

#[test]
fn joining() {
    let parts = vec!["a".to_string(), "b".to_string(), "c".to_string()];
    assert_eq!(join(&parts, " "), "a b c");
    assert_eq!(join(&vec![], "\n"), "");
    assert_eq!(join(&vec!["x".to_string()], ", "), "x");
}
