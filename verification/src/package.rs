use vstd::prelude::*;

verus! {

/// The package manager a declared package is delegated to.
#[derive(Clone, Copy, PartialEq, Eq, Structural, Debug)]
pub enum PackageType {
    Apt,
    Snap,
    Brew,
    Winget,
}

impl PackageType {
    /// The lowercase tag this package type is written as, both in manifests
    /// and in the persisted state document.
    pub open spec fn tag_spec(self) -> Seq<char> {
        match self {
            PackageType::Apt => "apt"@,
            PackageType::Snap => "snap"@,
            PackageType::Brew => "brew"@,
            PackageType::Winget => "winget"@,
        }
    }

    /// The lowercase tag of this package type, used for display and storage.
    pub fn tag(&self) -> (r: String)
        ensures
            r@ == self.tag_spec(),
    {
        match self {
            PackageType::Apt => String::from_str("apt"),
            PackageType::Snap => String::from_str("snap"),
            PackageType::Brew => String::from_str("brew"),
            PackageType::Winget => String::from_str("winget"),
        }
    }
}

/// Compares two string slices by content.
pub fn str_eq(a: &str, b: &str) -> (r: bool)
    ensures
        r == (a@ == b@),
{
    let oa = a.to_owned();
    let ob = b.to_owned();
    oa == ob
}

/// Maps a package-type tag back onto the closed enumeration. Exactly the
/// four lowercase tags are recognized; anything else is rejected, which
/// fails that manifest rather than silently defaulting.
pub fn parse_type(s: &str) -> (r: Option<PackageType>)
    ensures
        r == type_of_tag(s@),
{
    if str_eq(s, "apt") {
        Some(PackageType::Apt)
    } else if str_eq(s, "snap") {
        Some(PackageType::Snap)
    } else if str_eq(s, "brew") {
        Some(PackageType::Brew)
    } else if str_eq(s, "winget") {
        Some(PackageType::Winget)
    } else {
        None
    }
}

/// The tag a package type is recognized from. Exactly the four lowercase
/// tags map onto the enumeration; anything else is rejected.
pub open spec fn type_of_tag(s: Seq<char>) -> Option<PackageType> {
    if s == "apt"@ {
        Some(PackageType::Apt)
    } else if s == "snap"@ {
        Some(PackageType::Snap)
    } else if s == "brew"@ {
        Some(PackageType::Brew)
    } else if s == "winget"@ {
        Some(PackageType::Winget)
    } else {
        None
    }
}

/// Each package type is recognized from its own tag.
pub proof fn lemma_type_of_tag_round_trip(t: PackageType)
    ensures
        type_of_tag(t.tag_spec()) == Some(t),
{
    reveal_strlit("apt");
    reveal_strlit("snap");
    reveal_strlit("brew");
    reveal_strlit("winget");
    assert("apt"@.len() == 3 && "snap"@.len() == 4 && "brew"@.len() == 4 && "winget"@.len() == 6);
    assert("snap"@[0] == 's' && "brew"@[0] == 'b');
    match t {
        PackageType::Apt => assert(type_of_tag(t.tag_spec()) == Some(t)),
        PackageType::Snap => assert(type_of_tag(t.tag_spec()) == Some(t)),
        PackageType::Brew => {
            assert("brew"@ != "apt"@);
            assert("brew"@ != "snap"@);
            assert(type_of_tag(t.tag_spec()) == Some(t));
        },
        PackageType::Winget => assert(type_of_tag(t.tag_spec()) == Some(t)),
    }
}

/// A recognized tag is the recognized type's own tag.
pub proof fn lemma_type_of_tag_sound(s: Seq<char>, t: PackageType)
    requires
        type_of_tag(s) == Some(t),
    ensures
        s == t.tag_spec(),
{
}

/// The mathematical value of a `PackageData`: every field as a sequence of
/// characters, optionals kept explicit.
#[verifier::ext_equal]
pub struct PackageDataV {
    pub name: Seq<char>,
    pub package_type: PackageType,
    pub version: Option<Seq<char>>,
    pub channel: Option<Seq<char>>,
    pub hash: Seq<char>,
}

/// The view of an optional string.
pub open spec fn opt_view(o: Option<String>) -> Option<Seq<char>> {
    match o {
        Some(s) => Some(s@),
        None => None,
    }
}

/// The persisted, hook-free record of one installed package: the four
/// identity fields plus the content hash of the manifest that declared it.
#[derive(Debug, PartialEq)]
pub struct PackageData {
    pub name: String,
    pub package_type: PackageType,
    pub version: Option<String>,
    pub channel: Option<String>,
    pub hash: String,
}

impl View for PackageData {
    type V = PackageDataV;

    open spec fn view(&self) -> PackageDataV {
        PackageDataV {
            name: self.name@,
            package_type: self.package_type,
            version: opt_view(self.version),
            channel: opt_view(self.channel),
            hash: self.hash@,
        }
    }
}

/// Copies an optional string by content.
pub fn clone_opt_string(o: &Option<String>) -> (r: Option<String>)
    ensures
        opt_view(r) == opt_view(*o),
{
    match o {
        Some(s) => Some(s.clone()),
        None => None,
    }
}

impl Clone for PackageData {
    /// A copy of a record has the same view.
    fn clone(&self) -> (r: Self)
        ensures
            r@ == self@,
    {
        PackageData {
            name: self.name.clone(),
            package_type: self.package_type,
            version: clone_opt_string(&self.version),
            channel: clone_opt_string(&self.channel),
            hash: self.hash.clone(),
        }
    }
}

/// Two records declare the same package iff name, package type, version and
/// channel all agree; the content hash is informational and takes no part in
/// identity.
pub open spec fn same_id(a: PackageDataV, b: PackageDataV) -> bool {
    &&& a.name == b.name
    &&& a.package_type == b.package_type
    &&& a.version == b.version
    &&& a.channel == b.channel
}

/// The sequence of views of a sequence of records.
pub open spec fn views_of(s: Seq<PackageData>) -> Seq<PackageDataV> {
    s.map_values(|p: PackageData| p@)
}

/// Whether some record in `s` declares the same package as `p`.
pub open spec fn contains_id(s: Seq<PackageDataV>, p: PackageDataV) -> bool {
    exists|i: int| 0 <= i < s.len() && same_id(s[i], p)
}

/// Compares two optional strings by content.
pub fn opt_str_eq(a: &Option<String>, b: &Option<String>) -> (r: bool)
    ensures
        r == (opt_view(*a) == opt_view(*b)),
{
    match (a, b) {
        (Some(x), Some(y)) => str_eq(x.as_str(), y.as_str()),
        (None, None) => true,
        _ => false,
    }
}

/// Whether two records declare the same package (identity fields only).
pub fn same_identity(a: &PackageData, b: &PackageData) -> (r: bool)
    ensures
        r == same_id(a@, b@),
{
    a.name == b.name && a.package_type == b.package_type && opt_str_eq(&a.version, &b.version)
        && opt_str_eq(&a.channel, &b.channel)
}

/// Whether `installed` already holds a record with the same identity as `p`.
pub fn is_installed(p: &PackageData, installed: &Vec<PackageData>) -> (r: bool)
    ensures
        r == contains_id(views_of(installed@), p@),
{
    let ghost vs = views_of(installed@);
    let mut i: usize = 0;
    while i < installed.len()
        invariant
            0 <= i <= installed.len(),
            vs == views_of(installed@),
            forall|j: int| 0 <= j < i ==> !same_id(vs[j], p@),
        decreases installed.len() - i,
    {
        if same_identity(&installed[i], p) {
            assert(same_id(vs[i as int], p@));
            return true;
        }
        i += 1;
    }
    false
}

/// A version shown or handed to an installer: an absent version means
/// "latest". The substitution happens here, at the presentation boundary,
/// and is never persisted.
pub open spec fn effective_version_spec(v: Option<Seq<char>>) -> Seq<char> {
    match v {
        Some(s) => s,
        None => "latest"@,
    }
}

/// A channel shown to the user: an absent channel means "stable". The
/// substitution happens here, at the presentation boundary, and is never
/// persisted.
pub open spec fn effective_channel_spec(c: Option<Seq<char>>) -> Seq<char> {
    match c {
        Some(s) => s,
        None => "stable"@,
    }
}

/// The version a record is presented with: its own, or "latest".
pub fn effective_version(v: &Option<String>) -> (r: String)
    ensures
        r@ == effective_version_spec(opt_view(*v)),
{
    match v {
        Some(s) => s.clone(),
        None => String::from_str("latest"),
    }
}

/// The channel a record is presented with: its own, or "stable".
pub fn effective_channel(c: &Option<String>) -> (r: String)
    ensures
        r@ == effective_channel_spec(opt_view(*c)),
{
    match c {
        Some(s) => s.clone(),
        None => String::from_str("stable"),
    }
}

/// The line the `list` command prints for one record.
pub open spec fn display_line_spec(p: PackageDataV) -> Seq<char> {
    p.name + ": "@ + p.package_type.tag_spec() + " - "@ + effective_version_spec(p.version) + "/"@
        + effective_channel_spec(p.channel)
}

/// Renders one record as `name: type - version/channel`, substituting
/// "latest" and "stable" for absent fields.
pub fn display_line(p: &PackageData) -> (r: String)
    ensures
        r@ == display_line_spec(p@),
{
    let mut out = p.name.clone();
    out.append(": ");
    out.append(p.package_type.tag().as_str());
    out.append(" - ");
    out.append(effective_version(&p.version).as_str());
    out.append("/");
    out.append(effective_channel(&p.channel).as_str());
    out
}

} // verus!
