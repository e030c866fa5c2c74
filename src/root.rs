//! Resolving a typed key name to one of the store's roots and the path below it.
use vstd::prelude::*;
use vstd::string::*;

use crate::text::{chars_of, same_text, to_upper, upper_of};

verus! {

/// The top-level namespaces of the store.
#[derive(Clone, Copy, Debug, PartialEq, Eq, Structural)]
pub enum RootKey {
    LocalMachine,
    CurrentUser,
    ClassesRoot,
    Users,
    CurrentConfig,
}

/// The root that an upper-case root name or abbreviation stands for.
pub open spec fn root_named(upper: Seq<char>) -> Option<RootKey> {
    if upper == "HKEY_LOCAL_MACHINE"@ || upper == "HKLM"@ {
        Some(RootKey::LocalMachine)
    } else if upper == "HKEY_CURRENT_USER"@ || upper == "HKCU"@ {
        Some(RootKey::CurrentUser)
    } else if upper == "HKEY_CLASSES_ROOT"@ || upper == "HKCR"@ {
        Some(RootKey::ClassesRoot)
    } else if upper == "HKEY_USERS"@ || upper == "HKU"@ {
        Some(RootKey::Users)
    } else if upper == "HKEY_CURRENT_CONFIG"@ || upper == "HKCC"@ {
        Some(RootKey::CurrentConfig)
    } else {
        None
    }
}

/// The full name of a root, with which every path below it starts.
pub open spec fn canonical_name(r: RootKey) -> Seq<char> {
    match r {
        RootKey::LocalMachine => "HKEY_LOCAL_MACHINE"@,
        RootKey::CurrentUser => "HKEY_CURRENT_USER"@,
        RootKey::ClassesRoot => "HKEY_CLASSES_ROOT"@,
        RootKey::Users => "HKEY_USERS"@,
        RootKey::CurrentConfig => "HKEY_CURRENT_CONFIG"@,
    }
}

impl RootKey {
    /// The full name of this root.
    pub fn canonical(&self) -> (r: &'static str)
        ensures
            r@ == canonical_name(*self),
    {
        match self {
            RootKey::LocalMachine => "HKEY_LOCAL_MACHINE",
            RootKey::CurrentUser => "HKEY_CURRENT_USER",
            RootKey::ClassesRoot => "HKEY_CLASSES_ROOT",
            RootKey::Users => "HKEY_USERS",
            RootKey::CurrentConfig => "HKEY_CURRENT_CONFIG",
        }
    }
}

/// The root that `upper`, a root name already in upper case, stands for.
pub fn root_from_upper(upper: &str) -> (r: Option<RootKey>)
    ensures
        r == root_named(upper@),
{
    if same_text(upper, "HKEY_LOCAL_MACHINE") || same_text(upper, "HKLM") {
        Some(RootKey::LocalMachine)
    } else if same_text(upper, "HKEY_CURRENT_USER") || same_text(upper, "HKCU") {
        Some(RootKey::CurrentUser)
    } else if same_text(upper, "HKEY_CLASSES_ROOT") || same_text(upper, "HKCR") {
        Some(RootKey::ClassesRoot)
    } else if same_text(upper, "HKEY_USERS") || same_text(upper, "HKU") {
        Some(RootKey::Users)
    } else if same_text(upper, "HKEY_CURRENT_CONFIG") || same_text(upper, "HKCC") {
        Some(RootKey::CurrentConfig)
    } else {
        None
    }
}

/// `s` without its trailing separators.
pub open spec fn trim_separators(s: Seq<char>) -> Seq<char>
    decreases s.len(),
{
    if s.len() > 0 && s.last() == '\\' {
        trim_separators(s.drop_last())
    } else {
        s
    }
}

/// Position of the first separator in `s`, or its length when it has none.
pub open spec fn separator_index(s: Seq<char>) -> int
    decreases s.len(),
{
    if s.len() == 0 || s[0] == '\\' {
        0
    } else {
        1 + separator_index(s.drop_first())
    }
}

/// The root part of a typed key name: up to its first separator, once the
/// trailing separators are gone.
pub open spec fn root_part(keyname: Seq<char>) -> Seq<char> {
    let t = trim_separators(keyname);
    t.take(separator_index(t))
}

/// The subkey part of a typed key name: what follows its first separator, once
/// the trailing separators are gone; empty when there is no separator.
pub open spec fn subkey_part(keyname: Seq<char>) -> Seq<char> {
    let t = trim_separators(keyname);
    let k = separator_index(t);
    if k < t.len() {
        t.skip(k + 1)
    } else {
        Seq::empty()
    }
}

/// A key name whose root part names no root.
#[derive(Debug)]
pub enum RootError {
    InvalidRoot(String),
}

impl RootError {
    /// The message that reports this error.
    pub fn message(&self) -> (r: String)
        ensures
            match self {
                RootError::InvalidRoot(root) => r@ == "Invalid root: '"@ + root@ + "'"@,
            },
    {
        match self {
            RootError::InvalidRoot(root) => {
                let r = String::from_str("Invalid root: '");
                let r = r.concat(root.as_str());
                r.concat("'")
            },
        }
    }
}

/// Splits a typed key name such as `HKLM\Software\Vendor` into the path that
/// names it in full (`HKEY_LOCAL_MACHINE\Software\Vendor`), its root and the
/// subkey below the root. Trailing separators are ignored; the root part is
/// compared without regard to case.
pub fn split_keyname(keyname: &str) -> (r: Result<(String, RootKey, String), RootError>)
    ensures
        match r {
            Ok((path, root, subkey)) => {
                &&& root_named(upper_of(root_part(keyname@))) == Some(root)
                &&& subkey@ == subkey_part(keyname@)
                &&& path@ == canonical_name(root) + seq!['\\'] + subkey_part(keyname@)
            },
            Err(RootError::InvalidRoot(given)) => {
                &&& root_named(upper_of(root_part(keyname@))) is None
                &&& given@ == root_part(keyname@)
            },
        },
{
    let x = chars_of(keyname);
    let ghost s = keyname@;
    let mut end: usize = x.len();
    assert(s.take(end as int) =~= s);
    while end > 0 && x[end - 1] == '\\'
        invariant
            x@ == s,
            end <= x.len(),
            trim_separators(s) == trim_separators(s.take(end as int)),
        decreases end,
    {
        assert(s.take(end as int).drop_last() =~= s.take(end - 1));
        end = end - 1;
    }
    let ghost t = s.take(end as int);
    assert(trim_separators(t) == t);
    let mut k: usize = 0;
    assert(t.skip(0) =~= t);
    while k < end && x[k] != '\\'
        invariant
            x@ == s,
            end <= x.len(),
            t == s.take(end as int),
            k <= end,
            separator_index(t) == k + separator_index(t.skip(k as int)),
        decreases end - k,
    {
        assert(t.skip(k as int).drop_first() =~= t.skip(k + 1));
        k = k + 1;
    }
    assert(separator_index(t.skip(k as int)) == 0);
    let root = keyname.substring_char(0, k);
    assert(root@ =~= root_part(s));
    let subkey = if k < end {
        keyname.substring_char(k + 1, end)
    } else {
        ""
    };
    let subkey = String::from_str(subkey);
    proof {
        if k < end {
            assert(subkey@ =~= subkey_part(s));
        } else {
            reveal_strlit("");
            assert(subkey@ =~= subkey_part(s));
        }
    }
    let upper = to_upper(root);
    match root_from_upper(upper.as_str()) {
        Some(rk) => {
            let path = String::from_str(rk.canonical());
            let path = path.concat("\\");
            let path = path.concat(subkey.as_str());
            proof {
                reveal_strlit("\\");
            }
            assert(path@ =~= canonical_name(rk) + seq!['\\'] + subkey_part(s));
            Ok((path, rk, subkey))
        },
        None => Err(RootError::InvalidRoot(String::from_str(root))),
    }
}

} // verus!
