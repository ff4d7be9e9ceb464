//! Permission declarations of a skill and the permission level they amount to.
use vstd::prelude::*;

verus! {

/// HTTP methods for network permissions.
#[derive(Debug, Clone, Copy, PartialEq, Eq, Hash, Structural)]
pub enum HttpMethod {
    Get,
    Post,
    Put,
    Patch,
    Delete,
    Head,
    Options,
}

/// Filesystem access levels.
#[derive(Debug, Clone, Copy, PartialEq, Eq, Hash, Structural)]
pub enum FilesystemAccess {
    Read,
    Write,
    Execute,
}

/// Computed permission level, from least to most powerful.
#[derive(Debug, Clone, Copy, PartialEq, Eq, PartialOrd, Ord, Structural)]
pub enum PermissionLevel {
    Minimal,
    Restricted,
    Standard,
    Privileged,
}

/// The position of a level in the order Minimal < Restricted < Standard < Privileged.
pub open spec fn level_rank(l: PermissionLevel) -> nat {
    match l {
        PermissionLevel::Minimal => 0,
        PermissionLevel::Restricted => 1,
        PermissionLevel::Standard => 2,
        PermissionLevel::Privileged => 3,
    }
}

/// The lowercase name of a level.
pub open spec fn level_name(l: PermissionLevel) -> Seq<char> {
    match l {
        PermissionLevel::Minimal => "minimal"@,
        PermissionLevel::Restricted => "restricted"@,
        PermissionLevel::Standard => "standard"@,
        PermissionLevel::Privileged => "privileged"@,
    }
}

impl PermissionLevel {
    /// The lowercase name of the level ("minimal", "restricted", "standard", "privileged").
    pub fn to_string(&self) -> (r: String)
        ensures
            r@ == level_name(*self),
    {
        match self {
            PermissionLevel::Minimal => String::from_str("minimal"),
            PermissionLevel::Restricted => String::from_str("restricted"),
            PermissionLevel::Standard => String::from_str("standard"),
            PermissionLevel::Privileged => String::from_str("privileged"),
        }
    }

    /// Whether `self` is strictly below `other` in the level order.
    pub fn is_below(&self, other: &PermissionLevel) -> (r: bool)
        ensures
            r == (level_rank(*self) < level_rank(*other)),
    {
        let a: u8 = match self {
            PermissionLevel::Minimal => 0,
            PermissionLevel::Restricted => 1,
            PermissionLevel::Standard => 2,
            PermissionLevel::Privileged => 3,
        };
        let b: u8 = match other {
            PermissionLevel::Minimal => 0,
            PermissionLevel::Restricted => 1,
            PermissionLevel::Standard => 2,
            PermissionLevel::Privileged => 3,
        };
        a < b
    }
}

/// Network access permission.
#[derive(Debug, Clone)]
pub struct NetworkPermission {
    pub domain: String,
    pub methods: Vec<HttpMethod>,
    pub ports: Vec<u16>,
}

/// The methods a network permission has when none are given: GET.
pub fn default_http_methods() -> (r: Vec<HttpMethod>)
    ensures
        r@ == seq![HttpMethod::Get],
{
    let mut v: Vec<HttpMethod> = Vec::new();
    v.push(HttpMethod::Get);
    v
}

/// The ports a network permission has when none are given: 443 and 80.
pub fn default_ports() -> (r: Vec<u16>)
    ensures
        r@ == seq![443u16, 80u16],
{
    let mut v: Vec<u16> = Vec::new();
    v.push(443);
    v.push(80);
    v
}

/// Filesystem access permission.
#[derive(Debug, Clone)]
pub struct FilesystemPermission {
    pub path: String,
    pub access: Vec<FilesystemAccess>,
}

/// The access a filesystem permission has when none is given: read.
pub fn default_fs_access() -> (r: Vec<FilesystemAccess>)
    ensures
        r@ == seq![FilesystemAccess::Read],
{
    let mut v: Vec<FilesystemAccess> = Vec::new();
    v.push(FilesystemAccess::Read);
    v
}

/// Environment variable permission.
#[derive(Debug, Clone)]
pub struct EnvironmentPermission {
    pub name: String,
    pub required: bool,
    pub sensitive: bool,
}

/// Aggregate permissions for a skill.
#[derive(Debug, Clone)]
pub struct Permission {
    pub network: Vec<NetworkPermission>,
    pub filesystem: Vec<FilesystemPermission>,
    pub environment: Vec<EnvironmentPermission>,
    pub subprocess: bool,
    pub subprocess_allowlist: Vec<String>,
}

impl Default for Permission {
    /// No network, filesystem or environment access and no subprocesses.
    fn default() -> (r: Self)
        ensures
            r.network@.len() == 0,
            r.filesystem@.len() == 0,
            r.environment@.len() == 0,
            !r.subprocess,
            r.subprocess_allowlist@.len() == 0,
    {
        Permission {
            network: Vec::new(),
            filesystem: Vec::new(),
            environment: Vec::new(),
            subprocess: false,
            subprocess_allowlist: Vec::new(),
        }
    }
}

/// The level that a permission declaration amounts to:
/// nothing declared is Minimal; subprocesses without an allowlist are Privileged;
/// subprocesses with an allowlist are Standard; network or filesystem access
/// without subprocesses is Restricted. Environment variables do not count.
pub open spec fn level_of(p: Permission) -> PermissionLevel {
    if p.network@.len() == 0 && p.filesystem@.len() == 0 && !p.subprocess {
        PermissionLevel::Minimal
    } else if p.subprocess && p.subprocess_allowlist@.len() == 0 {
        PermissionLevel::Privileged
    } else if p.subprocess {
        PermissionLevel::Standard
    } else {
        PermissionLevel::Restricted
    }
}

impl Permission {
    /// Compute the permission level based on what's declared.
    pub fn level(&self) -> (r: PermissionLevel)
        ensures
            r == level_of(*self),
    {
        let has_network = self.network.len() > 0;
        let has_filesystem = self.filesystem.len() > 0;
        let has_subprocess = self.subprocess;
        if !has_network && !has_filesystem && !has_subprocess {
            return PermissionLevel::Minimal;
        }
        if has_subprocess && self.subprocess_allowlist.len() == 0 {
            return PermissionLevel::Privileged;
        }
        if has_subprocess {
            return PermissionLevel::Standard;
        }
        PermissionLevel::Restricted
    }
}

/// `b` declares at least the kinds of access that `a` declares, and does not
/// narrow an unrestricted subprocess grant of `a` to an allowlist.
pub open spec fn declares_at_least(a: Permission, b: Permission) -> bool {
    &&& a.network@.len() > 0 ==> b.network@.len() > 0
    &&& a.filesystem@.len() > 0 ==> b.filesystem@.len() > 0
    &&& a.subprocess ==> b.subprocess
    &&& (a.subprocess && a.subprocess_allowlist@.len() == 0) ==> b.subprocess_allowlist@.len()
        == 0
}

/// Declaring more kinds of access never lowers the permission level.
pub proof fn level_monotone(a: Permission, b: Permission)
    requires
        declares_at_least(a, b),
    ensures
        level_rank(level_of(a)) <= level_rank(level_of(b)),
{
}

/// A skill has the Minimal level exactly when it declares no network access,
/// no filesystem access and no subprocesses; and it is Privileged exactly when
/// it may run any subprocess.
pub proof fn level_extremes(p: Permission)
    ensures
        (level_of(p) == PermissionLevel::Minimal) <==> (p.network@.len() == 0
            && p.filesystem@.len() == 0 && !p.subprocess),
        (level_of(p) == PermissionLevel::Privileged) <==> (p.subprocess
            && p.subprocess_allowlist@.len() == 0),
{
}

/// A skill is Standard exactly when it may run subprocesses from a non-empty
/// allowlist, and Restricted exactly when it runs no subprocess but declares
/// network or filesystem access.
pub proof fn level_middle(p: Permission)
    ensures
        (level_of(p) == PermissionLevel::Standard) <==> (p.subprocess
            && p.subprocess_allowlist@.len() > 0),
        (level_of(p) == PermissionLevel::Restricted) <==> (!p.subprocess && (p.network@.len() > 0
            || p.filesystem@.len() > 0)),
{
}

} // verus!
