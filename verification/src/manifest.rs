use vstd::prelude::*;

use crate::hashing::{content_hash, content_hash_spec};
use crate::package::{opt_view, parse_type, type_of_tag, PackageData};
use crate::script::{eval_manifest_table, table_get_function, table_get_string};

verus! {

// ---------------------------------------------------------------------------
// The manifest loader. Each manifest file is a script that must yield a
// table with a non-empty `name`, a recognized `package_type` tag, optional
// `version` and `channel` strings, and optional `pre_install` and
// `post_install` callables. One unloadable manifest fails the whole load.
// ---------------------------------------------------------------------------
/// The in-memory declared form of one manifest: the persisted identity
/// fields plus the run's hooks. Hooks are never persisted.
pub struct Package {
    pub package_data: PackageData,
    pub pre_install: Option<mlua::Function>,
    pub post_install: Option<mlua::Function>,
}

/// Why a load aborted: the file could not be read, or its content did not
/// evaluate to a valid package declaration. Either carries the path.
#[derive(Debug)]
pub enum LoadError {
    Io(String),
    Invalid(String),
}

impl LoadError {
    /// The line reported for this error.
    pub fn message(&self) -> (r: String)
        ensures
            r@ == match *self {
                LoadError::Io(ref p) => "Failed to open "@ + p@,
                LoadError::Invalid(ref p) => "Failed to load package from "@ + p@,
            },
    {
        match self {
            LoadError::Io(p) => String::from_str("Failed to open ").concat(p.as_str()),
            LoadError::Invalid(p) => String::from_str("Failed to load package from ").concat(
                p.as_str(),
            ),
        }
    }
}

/// Builds the persisted record for one declaration from the values the
/// script yielded, validating them: the name must be present and non-empty
/// and the package type tag must be one of the four known tags; version and
/// channel pass through as they are.
pub fn make_package_data(
    name: Option<String>,
    type_tag: Option<String>,
    version: Option<String>,
    channel: Option<String>,
    hash: String,
) -> (r: Option<PackageData>)
    ensures
        match r {
            Some(p) => {
                &&& name matches Some(n) && n@.len() > 0 && p@.name == n@
                &&& type_tag matches Some(tt) && type_of_tag(tt@) == Some(p@.package_type)
                &&& p@.version == opt_view(version)
                &&& p@.channel == opt_view(channel)
                &&& p@.hash == hash@
            },
            None => {
                ||| name is None
                ||| name matches Some(n) && n@.len() == 0
                ||| type_tag is None
                ||| type_tag matches Some(tt) && type_of_tag(tt@) is None
            },
        },
{
    let n = match name {
        Some(n) => n,
        None => {
            return None;
        },
    };
    if n.as_str().is_empty() {
        return None;
    }
    let tt = match type_tag {
        Some(t) => t,
        None => {
            return None;
        },
    };
    let package_type = match parse_type(tt.as_str()) {
        Some(t) => t,
        None => {
            return None;
        },
    };
    Some(PackageData { name: n, package_type, version, channel, hash })
}

/// Loads one manifest: hashes its text, evaluates it as a script, and
/// validates the fields of the table it yields. Whether evaluation succeeds
/// depends on the script, so success is not owed; but whatever is returned
/// carries the text's own content hash and a validated, non-empty name, and
/// every failure names the manifest's path.
pub fn load_manifest(lua: &mlua::Lua, path: &str, source: &str) -> (r: Result<Package, LoadError>)
    ensures
        match r {
            Ok(p) => p.package_data@.hash == content_hash_spec(source@)
                && p.package_data@.name.len() > 0,
            Err(e) => match e {
                LoadError::Invalid(p) => p@ == path@,
                LoadError::Io(_) => false,
            },
        },
{
    let table = match eval_manifest_table(lua, source) {
        Ok(t) => t,
        Err(_) => {
            return Err(LoadError::Invalid(path.to_owned()));
        },
    };
    let name = match table_get_string(&table, "name") {
        Ok(v) => v,
        Err(_) => {
            return Err(LoadError::Invalid(path.to_owned()));
        },
    };
    let type_tag = match table_get_string(&table, "package_type") {
        Ok(v) => v,
        Err(_) => {
            return Err(LoadError::Invalid(path.to_owned()));
        },
    };
    let version = match table_get_string(&table, "version") {
        Ok(v) => v,
        Err(_) => {
            return Err(LoadError::Invalid(path.to_owned()));
        },
    };
    let channel = match table_get_string(&table, "channel") {
        Ok(v) => v,
        Err(_) => {
            return Err(LoadError::Invalid(path.to_owned()));
        },
    };
    let pre_install = match table_get_function(&table, "pre_install") {
        Ok(v) => v,
        Err(_) => {
            return Err(LoadError::Invalid(path.to_owned()));
        },
    };
    let post_install = match table_get_function(&table, "post_install") {
        Ok(v) => v,
        Err(_) => {
            return Err(LoadError::Invalid(path.to_owned()));
        },
    };
    let hash = content_hash(source);
    let package_data = match make_package_data(name, type_tag, version, channel, hash) {
        Some(d) => d,
        None => {
            return Err(LoadError::Invalid(path.to_owned()));
        },
    };
    Ok(Package { package_data, pre_install, post_install })
}

/// Loads every manifest, in the given order, from (path, text) pairs the
/// caller read from the packages directory. The load is fail-fast: the first
/// manifest that does not evaluate to a valid declaration aborts the whole
/// load with its path, and no partial list is returned.
pub fn get_packages(lua: &mlua::Lua, sources: &Vec<(String, String)>) -> (r: Result<
    Vec<Package>,
    LoadError,
>)
    ensures
        match r {
            Ok(ps) => ps@.len() == sources@.len() && forall|i: int|
                0 <= i < ps@.len() ==> ps@[i].package_data@.hash == content_hash_spec(
                    sources@[i].1@,
                ) && ps@[i].package_data@.name.len() > 0,
            Err(e) => match e {
                LoadError::Invalid(p) => exists|i: int|
                    0 <= i < sources@.len() && p@ == sources@[i].0@,
                LoadError::Io(_) => false,
            },
        },
{
    let mut packages: Vec<Package> = Vec::new();
    let mut i: usize = 0;
    while i < sources.len()
        invariant
            0 <= i <= sources.len(),
            packages@.len() == i,
            forall|j: int|
                0 <= j < i ==> packages@[j].package_data@.hash == content_hash_spec(
                    sources@[j].1@,
                ) && packages@[j].package_data@.name.len() > 0,
        decreases sources.len() - i,
    {
        let (path, source) = &sources[i];
        match load_manifest(lua, path.as_str(), source.as_str()) {
            Ok(p) => packages.push(p),
            Err(e) => {
                return Err(e);
            },
        }
        i += 1;
    }
    Ok(packages)
}

/// The persisted records of the declared packages, in declaration order:
/// what the list command shows by default.
pub fn package_data_of(pkgs: &Vec<Package>) -> (r: Vec<PackageData>)
    ensures
        r@.len() == pkgs@.len(),
        forall|i: int| 0 <= i < r@.len() ==> r@[i]@ == pkgs@[i].package_data@,
{
    let mut r: Vec<PackageData> = Vec::new();
    let mut i: usize = 0;
    while i < pkgs.len()
        invariant
            0 <= i <= pkgs.len(),
            r@.len() == i,
            forall|j: int| 0 <= j < i ==> r@[j]@ == pkgs@[j].package_data@,
        decreases pkgs.len() - i,
    {
        r.push(pkgs[i].package_data.clone());
        i += 1;
    }
    r
}

} // verus!
