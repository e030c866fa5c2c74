use rq::root::{root_from_upper, split_keyname, RootError, RootKey};

#[test]
fn splits_abbreviated_root() {
    let (path, root, subkey) = split_keyname("HKLM\\Software\\Vendor").unwrap();
    assert_eq!(path, "HKEY_LOCAL_MACHINE\\Software\\Vendor");
    assert_eq!(root, RootKey::LocalMachine);
    assert_eq!(subkey, "Software\\Vendor");
}

#[test]
fn root_is_matched_without_case() {
    let (path, root, subkey) = split_keyname("hkcu\\Software").unwrap();
    assert_eq!(path, "HKEY_CURRENT_USER\\Software");
    assert_eq!(root, RootKey::CurrentUser);
    assert_eq!(subkey, "Software");
    let (_, root, _) = split_keyname("Hkey_Classes_Root\\.txt").unwrap();
    assert_eq!(root, RootKey::ClassesRoot);
}

#[test]
fn trailing_separators_are_ignored() {
    let (path, root, subkey) = split_keyname("HKU\\S-1-5\\\\").unwrap();
    assert_eq!(path, "HKEY_USERS\\S-1-5");
    assert_eq!(root, RootKey::Users);
    assert_eq!(subkey, "S-1-5");
}

#[test]
fn root_alone() {
    let (path, root, subkey) = split_keyname("HKEY_CURRENT_CONFIG").unwrap();
    assert_eq!(path, "HKEY_CURRENT_CONFIG\\");
    assert_eq!(root, RootKey::CurrentConfig);
    assert_eq!(subkey, "");
    let (path, _, subkey) = split_keyname("hkcc\\").unwrap();
    assert_eq!(path, "HKEY_CURRENT_CONFIG\\");
    assert_eq!(subkey, "");
}

#[test]
fn unknown_root_is_rejected() {
    match split_keyname("HKXX\\Software") {
        Err(RootError::InvalidRoot(given)) => assert_eq!(given, "HKXX"),
        other => panic!("unexpected {other:?}"),
    }
    let err = split_keyname("").unwrap_err();
    assert_eq!(err.message(), "Invalid root: ''");
    let err = split_keyname("Software\\x").unwrap_err();
    assert_eq!(err.message(), "Invalid root: 'Software'");
}

#[test]
fn root_names() {
    assert_eq!(root_from_upper("HKEY_LOCAL_MACHINE"), Some(RootKey::LocalMachine));
    assert_eq!(root_from_upper("HKCR"), Some(RootKey::ClassesRoot));
    assert_eq!(root_from_upper("HKU"), Some(RootKey::Users));
    assert_eq!(root_from_upper("hklm"), None);
    assert_eq!(RootKey::Users.canonical(), "HKEY_USERS");
    assert_eq!(RootKey::LocalMachine.canonical(), "HKEY_LOCAL_MACHINE");
}
