use isotopia::error::Error;
use isotopia::packages::{combine_packages, package_name, packages_checksum, validate_packages};

#[test]
fn package_validation() {
    assert!(
        validate_packages(&[
            "valid.".into(),
            "valid-".into(),
            "@valid".into(),
            "va_lid".into(),
            "gnu+linux".into()
        ])
        .is_ok()
    );
    assert!(validate_packages(&["valid".into(), "valid2".into()]).is_ok());

    assert!(validate_packages(&["valid".into(), "-invalid".into(), "valid".into()]).is_err());
    assert!(validate_packages(&[".dotstart".into()]).is_err());
    assert!(validate_packages(&["( ͡° ͜ʖ ͡°)".into()]).is_err());
    assert!(validate_packages(&["\"".into()]).is_err());
    assert!(validate_packages(&["!".into()]).is_err());
    assert!(validate_packages(&["".into()]).is_err());
}

#[test]
fn first_invalid_package_is_reported() {
    let packages = ["kumo".to_string(), "a b".to_string(), "".to_string()];
    assert_eq!(validate_packages(&packages), Err(Error::InvalidPackage("a b".into())));
    assert_eq!(validate_packages(&[]), Ok(()));
}

#[test]
fn package_name_characters() {
    for c in (0u8..=255).map(char::from) {
        let expected = c.is_ascii_alphanumeric() || ['@', '.', '_', '+', '-'].contains(&c);
        assert_eq!(package_name(&format!("x{c}")), expected, "{c:?}");
    }
    assert!(!package_name("-a"));
    assert!(!package_name(".a"));
    assert!(package_name("_a"));
}

#[test]
fn packages_are_sorted_and_joined() {
    let packages = vec!["kumo".to_string(), "catacomb".into(), "Zed".into(), "a".into(), "ab".into()];
    assert_eq!(combine_packages(packages), "Zed a ab catacomb kumo");
    assert_eq!(combine_packages(vec!["b".into(), "a".into(), "b".into()]), "a b b");
    assert_eq!(combine_packages(vec![]), "");
}

#[test]
fn package_order_is_irrelevant() {
    let a = combine_packages(vec!["b".into(), "a".into(), "\u{10000}".into(), "\u{ffff}".into()]);
    let b = combine_packages(vec!["\u{ffff}".into(), "\u{10000}".into(), "a".into(), "b".into()]);
    assert_eq!(a, b);
    assert_eq!(a, "a b \u{ffff} \u{10000}");
}

#[test]
fn packages_are_recovered_from_stored_form() {
    let stored = combine_packages(vec!["kumo".into(), "catacomb".into()]);
    assert_eq!(stored.split(' ').collect::<Vec<_>>(), vec!["catacomb", "kumo"]);
}

#[test]
fn checksum_of_packages() {
    assert_eq!(packages_checksum(""), "d41d8cd98f00b204e9800998ecf8427e");
    assert_eq!(packages_checksum("abcdefghijklmnopqrstuvwxyz"), "c3fcd3d76192e4007dfb496cca67e13b");
    let stored = "catacomb kumo";
    assert_eq!(packages_checksum(stored), format!("{:x}", md5::compute(stored)));
}
