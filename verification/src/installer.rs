use vstd::prelude::*;

use crate::package::{
    effective_channel, effective_channel_spec, PackageData, PackageDataV, PackageType,
};

verus! {

/// The host operating system, as far as the compatibility rules between a
/// host and a package type care. Anything that is none of the named systems
/// is `Other` and supports no package type handled here.
#[derive(Clone, Copy, PartialEq, Eq, Structural, Debug)]
pub enum OsKind {
    Debian,
    Ubuntu,
    Pop,
    Macos,
    Windows,
    Other,
}

/// Which hosts each package type's native manager is invoked on: apt on the
/// Debian family, snap on Ubuntu, brew on macOS, winget on Windows.
pub open spec fn os_supports_spec(t: PackageType, os: OsKind) -> bool {
    match t {
        PackageType::Apt => os == OsKind::Debian || os == OsKind::Ubuntu || os == OsKind::Pop,
        PackageType::Snap => os == OsKind::Ubuntu,
        PackageType::Brew => os == OsKind::Macos,
        PackageType::Winget => os == OsKind::Windows,
    }
}

/// Decides whether a package of type `t` can be installed on host `os`.
/// An unsupported pairing is a per-package error, never a reason to stop
/// the whole run.
pub fn os_supports(t: PackageType, os: OsKind) -> (r: bool)
    ensures
        r == os_supports_spec(t, os),
{
    match t {
        PackageType::Apt => os == OsKind::Debian || os == OsKind::Ubuntu || os == OsKind::Pop,
        PackageType::Snap => os == OsKind::Ubuntu,
        PackageType::Brew => os == OsKind::Macos,
        PackageType::Winget => os == OsKind::Windows,
    }
}

/// The package argument apt is given: `name=version` when a version is
/// pinned, the bare name otherwise. Apt has no channel notion; a declared
/// channel is skipped.
pub open spec fn apt_name_arg_spec(name: Seq<char>, version: Option<Seq<char>>) -> Seq<char> {
    match version {
        Some(v) => name + "="@ + v,
        None => name,
    }
}

/// The channel argument snap is given: `--channel=track/channel`, where the
/// track is the declared version when present and the channel falls back to
/// "stable".
pub open spec fn snap_channel_arg_spec(version: Option<Seq<char>>, channel: Option<Seq<char>>) -> Seq<
    char,
> {
    "--channel="@ + (match version {
        Some(v) => v + "/"@,
        None => Seq::<char>::empty(),
    }) + effective_channel_spec(channel)
}

/// The package argument brew is given: `name@version` when a version is
/// pinned, the bare name otherwise.
pub open spec fn brew_name_arg_spec(name: Seq<char>, version: Option<Seq<char>>) -> Seq<char> {
    match version {
        Some(v) => name + "@"@ + v,
        None => name,
    }
}

/// The full argument list handed to the native package manager for one
/// declared package, following each manager's own conventions. For winget a
/// pinned version travels as a separate `--version` argument; winget has no
/// channel notion and a declared channel is skipped.
pub open spec fn installer_args_spec(p: PackageDataV) -> Seq<Seq<char>> {
    match p.package_type {
        PackageType::Apt => seq!["apt"@, "install"@, apt_name_arg_spec(p.name, p.version)],
        PackageType::Snap => seq![
            "snap"@,
            "install"@,
            p.name,
            snap_channel_arg_spec(p.version, p.channel),
        ],
        PackageType::Brew => seq!["brew"@, "install"@, brew_name_arg_spec(p.name, p.version)],
        PackageType::Winget => match p.version {
            Some(v) => seq!["winget"@, "install"@, p.name, "--version"@, v],
            None => seq!["winget"@, "install"@, p.name],
        },
    }
}

/// The full argument list handed to the native package manager to remove
/// one recorded package: removal goes by name alone, with each manager's
/// own subcommand.
pub open spec fn uninstaller_args_spec(p: PackageDataV) -> Seq<Seq<char>> {
    match p.package_type {
        PackageType::Apt => seq!["apt"@, "remove"@, p.name],
        PackageType::Snap => seq!["snap"@, "remove"@, p.name],
        PackageType::Brew => seq!["brew"@, "uninstall"@, p.name],
        PackageType::Winget => seq!["winget"@, "uninstall"@, p.name],
    }
}

/// The views of a sequence of strings.
pub open spec fn views_of_strings(s: Seq<String>) -> Seq<Seq<char>> {
    s.map_values(|x: String| x@)
}

/// Builds the argument list for the native package manager that owns
/// `p.package_type`, exactly as `installer_args_spec` lays it out.
pub fn installer_args(p: &PackageData) -> (r: Vec<String>)
    ensures
        views_of_strings(r@) == installer_args_spec(p@),
{
    let mut args: Vec<String> = Vec::new();
    match p.package_type {
        PackageType::Apt => {
            args.push(String::from_str("apt"));
            args.push(String::from_str("install"));
            let name_arg = match &p.version {
                Some(v) => p.name.clone().concat("=").concat(v.as_str()),
                None => p.name.clone(),
            };
            args.push(name_arg);
        },
        PackageType::Snap => {
            args.push(String::from_str("snap"));
            args.push(String::from_str("install"));
            args.push(p.name.clone());
            let mut channel_arg = String::from_str("--channel=");
            if let Some(v) = &p.version {
                channel_arg.append(v.as_str());
                channel_arg.append("/");
            }
            channel_arg.append(effective_channel(&p.channel).as_str());
            proof {
                assert(channel_arg@ =~= snap_channel_arg_spec(p@.version, p@.channel));
            }
            args.push(channel_arg);
        },
        PackageType::Brew => {
            args.push(String::from_str("brew"));
            args.push(String::from_str("install"));
            let name_arg = match &p.version {
                Some(v) => p.name.clone().concat("@").concat(v.as_str()),
                None => p.name.clone(),
            };
            args.push(name_arg);
        },
        PackageType::Winget => {
            args.push(String::from_str("winget"));
            args.push(String::from_str("install"));
            args.push(p.name.clone());
            if let Some(v) = &p.version {
                args.push(String::from_str("--version"));
                args.push(v.clone());
            }
        },
    }
    proof {
        assert(views_of_strings(args@) =~= installer_args_spec(p@));
    }
    args
}

/// Builds the argument list that removes `p` through the native package
/// manager that owns `p.package_type`.
pub fn uninstaller_args(p: &PackageData) -> (r: Vec<String>)
    ensures
        views_of_strings(r@) == uninstaller_args_spec(p@),
{
    let mut args: Vec<String> = Vec::new();
    match p.package_type {
        PackageType::Apt => {
            args.push(String::from_str("apt"));
            args.push(String::from_str("remove"));
        },
        PackageType::Snap => {
            args.push(String::from_str("snap"));
            args.push(String::from_str("remove"));
        },
        PackageType::Brew => {
            args.push(String::from_str("brew"));
            args.push(String::from_str("uninstall"));
        },
        PackageType::Winget => {
            args.push(String::from_str("winget"));
            args.push(String::from_str("uninstall"));
        },
    }
    args.push(p.name.clone());
    proof {
        assert(views_of_strings(args@) =~= uninstaller_args_spec(p@));
    }
    args
}

} // verus!
