//! Sandbox capability grants derived from a skill's declared permissions.
use crate::permission::{
    level_of, FilesystemAccess, FilesystemPermission, NetworkPermission, Permission, PermissionLevel,
};
use crate::text::{
    chars_of, copy_strings, decimal, push_char, push_decimal, push_str, replace_chars,
    replace_seq, str_eq, string_from_chars, trim_end_matches_chars, trim_end_matches_seq,
};
use vstd::prelude::*;

verus! {

/// Mapped WASI capabilities derived from skill permissions.
#[derive(Debug, Clone)]
pub struct CapabilityGrants {
    /// Directories to preopen as read-only.
    pub readonly_dirs: Vec<String>,
    /// Directories to preopen as read-write.
    pub readwrite_dirs: Vec<String>,
    /// Allowed network hosts (domain:port).
    pub allowed_hosts: Vec<String>,
    /// Allowed environment variable names, each once, in order of first declaration.
    pub allowed_env_vars: Vec<String>,
    /// Allowed subprocess commands.
    pub subprocess_allowlist: Vec<String>,
    /// Whether subprocess execution is allowed at all.
    pub subprocess_enabled: bool,
}

/// The characters of each string.
pub open spec fn views(v: Seq<String>) -> Seq<Seq<char>> {
    v.map_values(|s: String| s@)
}

/// The directory that a filesystem permission's path stands for: `${WORKSPACE}`
/// and `${TEMP}` replaced by the given directories, then trailing "/**" and
/// trailing "/*" removed.
pub open spec fn resolved_dir(path: Seq<char>, workspace: Seq<char>, temp: Seq<char>) -> Seq<char> {
    let resolved = replace_seq(replace_seq(path, "${WORKSPACE}"@, workspace), "${TEMP}"@, temp);
    trim_end_matches_seq(trim_end_matches_seq(resolved, "/**"@), "/*"@)
}

/// The permission grants write access.
pub open spec fn grants_write(f: FilesystemPermission) -> bool {
    f.access@.contains(FilesystemAccess::Write)
}

/// The directories of the permissions that do (`write`) or do not (`!write`) grant
/// write access, in declaration order.
pub open spec fn dirs_with(
    fs: Seq<FilesystemPermission>,
    write: bool,
    workspace: Seq<char>,
    temp: Seq<char>,
) -> Seq<Seq<char>>
    decreases fs.len(),
{
    if fs.len() == 0 {
        Seq::empty()
    } else {
        let rest = dirs_with(fs.drop_last(), write, workspace, temp);
        if grants_write(fs.last()) == write {
            rest.push(resolved_dir(fs.last().path@, workspace, temp))
        } else {
            rest
        }
    }
}

/// "domain:port" for each port of one network permission, in order.
pub open spec fn hosts_for(n: NetworkPermission) -> Seq<Seq<char>> {
    n.ports@.map_values(|p: u16| n.domain@ + ":"@ + decimal(p as nat))
}

/// "domain:port" for every port of every network permission, in order.
pub open spec fn hosts_of(nets: Seq<NetworkPermission>) -> Seq<Seq<char>>
    decreases nets.len(),
{
    if nets.len() == 0 {
        Seq::empty()
    } else {
        hosts_of(nets.drop_last()) + hosts_for(nets.last())
    }
}

/// The elements of `s` without repeats, each at its first position.
pub open spec fn dedup(s: Seq<Seq<char>>) -> Seq<Seq<char>>
    decreases s.len(),
{
    if s.len() == 0 {
        Seq::empty()
    } else {
        let d = dedup(s.drop_last());
        if d.contains(s.last()) {
            d
        } else {
            d.push(s.last())
        }
    }
}

/// The names of the environment permissions, in order.
pub open spec fn env_names(p: Permission) -> Seq<Seq<char>> {
    p.environment@.map_values(|e: crate::permission::EnvironmentPermission| e.name@)
}

proof fn lemma_push_contains(a: Seq<Seq<char>>, y: Seq<char>, x: Seq<char>)
    ensures
        a.push(y).contains(x) <==> (a.contains(x) || x == y),
{
    if a.contains(x) {
        let k = choose|k: int| 0 <= k < a.len() && a[k] == x;
        assert(a.push(y)[k] == x);
    }
    if x == y {
        assert(a.push(y)[a.len() as int] == x);
    }
    if a.push(y).contains(x) {
        let k = choose|k: int| 0 <= k < a.push(y).len() && a.push(y)[k] == x;
        if k < a.len() {
            assert(a[k] == x);
        }
    }
}

/// Every element of `dedup(s)` is an element of `s`, each of them occurs there, and
/// none occurs twice.
pub proof fn dedup_is_set_of(s: Seq<Seq<char>>)
    ensures
        forall|x: Seq<char>| dedup(s).contains(x) <==> s.contains(x),
        dedup(s).no_duplicates(),
    decreases s.len(),
{
    if s.len() > 0 {
        let t = s.drop_last();
        let y = s.last();
        dedup_is_set_of(t);
        assert(s =~= t.push(y));
        let d = dedup(t);
        assert forall|x: Seq<char>| dedup(s).contains(x) <==> s.contains(x) by {
            lemma_push_contains(t, y, x);
            lemma_push_contains(d, y, x);
        }
        if !d.contains(y) {
            assert forall|i: int, j: int|
                0 <= i < d.push(y).len() && 0 <= j < d.push(y).len() && i != j implies d.push(y)[i]
                != d.push(y)[j] by {
                if i < d.len() && j < d.len() {
                } else if i < d.len() {
                    assert(d[i] == d.push(y)[i]);
                } else if j < d.len() {
                    assert(d[j] == d.push(y)[j]);
                }
            }
        }
    }
}

/// Each filesystem permission yields exactly one directory, read-only or read-write.
pub proof fn dirs_partition(fs: Seq<FilesystemPermission>, workspace: Seq<char>, temp: Seq<char>)
    ensures
        dirs_with(fs, true, workspace, temp).len() + dirs_with(fs, false, workspace, temp).len()
            == fs.len(),
    decreases fs.len(),
{
    if fs.len() > 0 {
        dirs_partition(fs.drop_last(), workspace, temp);
    }
}

/// Directories are listed permission by permission, in declaration order: the
/// directories for two lists of permissions one after the other are those of
/// the first list followed by those of the second.
pub proof fn dirs_in_declaration_order(
    a: Seq<FilesystemPermission>,
    b: Seq<FilesystemPermission>,
    write: bool,
    workspace: Seq<char>,
    temp: Seq<char>,
)
    ensures
        dirs_with(a + b, write, workspace, temp) == dirs_with(a, write, workspace, temp) + dirs_with(
            b,
            write,
            workspace,
            temp,
        ),
    decreases b.len(),
{
    if b.len() == 0 {
        assert(a + b =~= a);
        assert(dirs_with(a, write, workspace, temp) + dirs_with(b, write, workspace, temp) =~= dirs_with(
            a,
            write,
            workspace,
            temp,
        ));
    } else {
        dirs_in_declaration_order(a, b.drop_last(), write, workspace, temp);
        assert((a + b).drop_last() =~= a + b.drop_last());
        assert((a + b).last() == b.last());
        assert(dirs_with(a + b, write, workspace, temp) =~= dirs_with(a, write, workspace, temp)
            + dirs_with(b, write, workspace, temp));
    }
}

/// One filesystem permission yields its resolved directory as read-write
/// exactly when its access list holds `Write`, and as read-only otherwise
/// (read, execute or no access at all).
pub proof fn dir_is_writable_iff_write_declared(
    f: FilesystemPermission,
    workspace: Seq<char>,
    temp: Seq<char>,
)
    ensures
        f.access@.contains(FilesystemAccess::Write) ==> dirs_with(seq![f], true, workspace, temp)
            == seq![resolved_dir(f.path@, workspace, temp)] && dirs_with(
            seq![f],
            false,
            workspace,
            temp,
        ).len() == 0,
        !f.access@.contains(FilesystemAccess::Write) ==> dirs_with(seq![f], false, workspace, temp)
            == seq![resolved_dir(f.path@, workspace, temp)] && dirs_with(
            seq![f],
            true,
            workspace,
            temp,
        ).len() == 0,
{
    let s = seq![f];
    assert(s.drop_last() =~= Seq::<FilesystemPermission>::empty());
    assert(s.last() == f);
    assert(dirs_with(s.drop_last(), true, workspace, temp) =~= Seq::<Seq<char>>::empty());
    assert(dirs_with(s.drop_last(), false, workspace, temp) =~= Seq::<Seq<char>>::empty());
}

/// Every permission that declares `Write` has its directory among the
/// read-write ones, and every other permission among the read-only ones; no
/// directory is listed that no permission declares.
pub proof fn dirs_follow_declared_access(
    fs: Seq<FilesystemPermission>,
    workspace: Seq<char>,
    temp: Seq<char>,
)
    ensures
        forall|i: int|
            0 <= i < fs.len() && (#[trigger] fs[i]).access@.contains(FilesystemAccess::Write)
                ==> dirs_with(fs, true, workspace, temp).contains(
                resolved_dir(fs[i].path@, workspace, temp),
            ),
        forall|i: int|
            0 <= i < fs.len() && !(#[trigger] fs[i]).access@.contains(FilesystemAccess::Write)
                ==> dirs_with(fs, false, workspace, temp).contains(
                resolved_dir(fs[i].path@, workspace, temp),
            ),
        forall|x: Seq<char>|
            dirs_with(fs, true, workspace, temp).contains(x) ==> exists|i: int|
                0 <= i < fs.len() && (#[trigger] fs[i]).access@.contains(FilesystemAccess::Write)
                    && x == resolved_dir(fs[i].path@, workspace, temp),
        forall|x: Seq<char>|
            dirs_with(fs, false, workspace, temp).contains(x) ==> exists|i: int|
                0 <= i < fs.len() && !(#[trigger] fs[i]).access@.contains(FilesystemAccess::Write)
                    && x == resolved_dir(fs[i].path@, workspace, temp),
    decreases fs.len(),
{
    if fs.len() > 0 {
        let t = fs.drop_last();
        let f = fs.last();
        dirs_follow_declared_access(t, workspace, temp);
        assert(fs =~= t + seq![f]);
        dirs_in_declaration_order(t, seq![f], true, workspace, temp);
        dirs_in_declaration_order(t, seq![f], false, workspace, temp);
        dir_is_writable_iff_write_declared(f, workspace, temp);
        let n = fs.len() - 1;
        assert(fs[n] == f);
        assert forall|w: bool, x: Seq<char>|
            #![trigger dirs_with(fs, w, workspace, temp).contains(x)]
            dirs_with(fs, w, workspace, temp).contains(x) <==> (dirs_with(t, w, workspace, temp).contains(x)
                || dirs_with(seq![f], w, workspace, temp).contains(x)) by {
            let a = dirs_with(t, w, workspace, temp);
            let b = dirs_with(seq![f], w, workspace, temp);
            let c = dirs_with(fs, w, workspace, temp);
            assert(c == a + b);
            if c.contains(x) {
                let k = choose|k: int| 0 <= k < c.len() && c[k] == x;
                if k < a.len() {
                    assert(a[k] == x);
                } else {
                    assert(b[k - a.len()] == x);
                }
            }
            if a.contains(x) {
                let k = choose|k: int| 0 <= k < a.len() && a[k] == x;
                assert(c[k] == x);
            }
            if b.contains(x) {
                let k = choose|k: int| 0 <= k < b.len() && b[k] == x;
                assert(c[a.len() + k] == x);
            }
        }
        assert forall|i: int|
            0 <= i < fs.len() && (#[trigger] fs[i]).access@.contains(FilesystemAccess::Write)
                implies dirs_with(fs, true, workspace, temp).contains(
                resolved_dir(fs[i].path@, workspace, temp),
            ) by {
            if i < n {
                assert(t[i] == fs[i]);
            } else {
                assert(dirs_with(seq![f], true, workspace, temp)[0] == resolved_dir(f.path@, workspace, temp));
            }
        }
        assert forall|i: int|
            0 <= i < fs.len() && !(#[trigger] fs[i]).access@.contains(FilesystemAccess::Write)
                implies dirs_with(fs, false, workspace, temp).contains(
                resolved_dir(fs[i].path@, workspace, temp),
            ) by {
            if i < n {
                assert(t[i] == fs[i]);
            } else {
                assert(dirs_with(seq![f], false, workspace, temp)[0] == resolved_dir(f.path@, workspace, temp));
            }
        }
        assert forall|x: Seq<char>|
            dirs_with(fs, true, workspace, temp).contains(x) implies exists|i: int|
                0 <= i < fs.len() && (#[trigger] fs[i]).access@.contains(FilesystemAccess::Write)
                    && x == resolved_dir(fs[i].path@, workspace, temp) by {
            if dirs_with(t, true, workspace, temp).contains(x) {
                let i = choose|i: int|
                    0 <= i < t.len() && (#[trigger] t[i]).access@.contains(FilesystemAccess::Write)
                        && x == resolved_dir(t[i].path@, workspace, temp);
                assert(fs[i] == t[i]);
            } else {
                assert(dirs_with(seq![f], true, workspace, temp).contains(x));
                let k = choose|k: int|
                    0 <= k < dirs_with(seq![f], true, workspace, temp).len() && dirs_with(
                        seq![f],
                        true,
                        workspace,
                        temp,
                    )[k] == x;
                assert(fs[n] == f);
            }
        }
        assert forall|x: Seq<char>|
            dirs_with(fs, false, workspace, temp).contains(x) implies exists|i: int|
                0 <= i < fs.len() && !(#[trigger] fs[i]).access@.contains(FilesystemAccess::Write)
                    && x == resolved_dir(fs[i].path@, workspace, temp) by {
            if dirs_with(t, false, workspace, temp).contains(x) {
                let i = choose|i: int|
                    0 <= i < t.len() && !(#[trigger] t[i]).access@.contains(FilesystemAccess::Write)
                        && x == resolved_dir(t[i].path@, workspace, temp);
                assert(fs[i] == t[i]);
            } else {
                assert(dirs_with(seq![f], false, workspace, temp).contains(x));
                let k = choose|k: int|
                    0 <= k < dirs_with(seq![f], false, workspace, temp).len() && dirs_with(
                        seq![f],
                        false,
                        workspace,
                        temp,
                    )[k] == x;
                assert(fs[n] == f);
            }
        }
    }
}

/// Hosts are listed permission by permission, in order: the hosts for two lists
/// of network permissions one after the other are those of the first followed
/// by those of the second; one permission gives "domain:port" for each of its
/// ports, in order.
pub proof fn hosts_in_declaration_order(
    a: Seq<NetworkPermission>,
    b: Seq<NetworkPermission>,
    n: NetworkPermission,
)
    ensures
        hosts_of(a + b) == hosts_of(a) + hosts_of(b),
        hosts_of(seq![n]).len() == n.ports@.len(),
        forall|k: int|
            0 <= k < n.ports@.len() ==> #[trigger] hosts_of(seq![n])[k] == n.domain@ + ":"@ + decimal(
                n.ports@[k] as nat,
            ),
    decreases b.len(),
{
    if b.len() == 0 {
        assert(a + b =~= a);
        assert(hosts_of(a) + hosts_of(b) =~= hosts_of(a));
    } else {
        hosts_in_declaration_order(a, b.drop_last(), n);
        assert((a + b).drop_last() =~= a + b.drop_last());
        assert((a + b).last() == b.last());
        assert(hosts_of(a + b) =~= hosts_of(a) + hosts_of(b));
    }
    let one = seq![n];
    assert(one.drop_last() =~= Seq::<NetworkPermission>::empty());
    assert(one.last() == n);
    assert(hosts_of(one.drop_last()) =~= Seq::<Seq<char>>::empty());
    assert(hosts_of(one) =~= hosts_for(n));
}

/// Repeats are dropped keeping first occurrences: removing repeats from a
/// prefix gives a prefix of what removing repeats from the whole gives.
pub proof fn dedup_keeps_first(s: Seq<Seq<char>>, n: int)
    requires
        0 <= n <= s.len(),
    ensures
        dedup(s.take(n)).len() <= dedup(s).len(),
        dedup(s).take(dedup(s.take(n)).len() as int) == dedup(s.take(n)),
    decreases s.len(),
{
    if n == s.len() {
        assert(s.take(n) =~= s);
        assert(dedup(s).take(dedup(s).len() as int) =~= dedup(s));
    } else {
        let t = s.drop_last();
        assert(t.take(n) =~= s.take(n));
        dedup_keeps_first(t, n);
        let d = dedup(t);
        let dn = dedup(s.take(n));
        if d.contains(s.last()) {
        } else {
            assert(d.push(s.last()).take(dn.len() as int) =~= d.take(dn.len() as int));
        }
    }
}

/// A skill that declares no network, filesystem or environment access is granted
/// no directory, no host and no environment variable.
pub proof fn no_permissions_no_grants(p: Permission, workspace: Seq<char>, temp: Seq<char>)
    requires
        p.network@.len() == 0,
        p.filesystem@.len() == 0,
        p.environment@.len() == 0,
    ensures
        dirs_with(p.filesystem@, true, workspace, temp).len() == 0,
        dirs_with(p.filesystem@, false, workspace, temp).len() == 0,
        hosts_of(p.network@).len() == 0,
        dedup(env_names(p)).len() == 0,
{
    assert(env_names(p).len() == 0);
}

/// The grants follow the permission level: a Minimal skill gets no directory, no
/// host and no subprocess; a Restricted one gets no subprocess; a Standard one
/// may run only the commands of a non-empty allowlist.
pub proof fn grants_follow_level(p: Permission, workspace: Seq<char>, temp: Seq<char>)
    ensures
        level_of(p) == PermissionLevel::Minimal ==> dirs_with(p.filesystem@, true, workspace, temp).len()
            == 0 && dirs_with(p.filesystem@, false, workspace, temp).len() == 0 && hosts_of(
            p.network@,
        ).len() == 0 && !p.subprocess,
        level_of(p) == PermissionLevel::Restricted ==> !p.subprocess,
        level_of(p) == PermissionLevel::Standard ==> p.subprocess && p.subprocess_allowlist@.len()
            > 0,
{
}

/// The directory for one filesystem permission.
fn resolve_dir(path: &str, workspace: &str, temp: &str) -> (r: String)
    ensures
        r@ == resolved_dir(path@, workspace@, temp@),
{
    proof {
        reveal_strlit("${WORKSPACE}");
        reveal_strlit("${TEMP}");
        reveal_strlit("/**");
        reveal_strlit("/*");
    }
    let p = chars_of(path);
    let ws_pat = chars_of("${WORKSPACE}");
    let tmp_pat = chars_of("${TEMP}");
    let a = replace_chars(&p, &ws_pat, &chars_of(workspace));
    let b = replace_chars(&a, &tmp_pat, &chars_of(temp));
    let c = trim_end_matches_chars(&b, &chars_of("/**"));
    let d = trim_end_matches_chars(&c, &chars_of("/*"));
    string_from_chars(&d)
}

fn has_write_access(f: &FilesystemPermission) -> (r: bool)
    ensures
        r == grants_write(*f),
{
    let mut i: usize = 0;
    while i < f.access.len()
        invariant
            i <= f.access@.len(),
            forall|k: int| 0 <= k < i ==> f.access@[k] != FilesystemAccess::Write,
        decreases f.access.len() - i,
    {
        if f.access[i] == FilesystemAccess::Write {
            assert(f.access@[i as int] == FilesystemAccess::Write);
            return true;
        }
        i += 1;
    }
    false
}

fn contains_string(v: &Vec<String>, s: &String) -> (r: bool)
    ensures
        r == views(v@).contains(s@),
{
    let mut i: usize = 0;
    while i < v.len()
        invariant
            i <= v@.len(),
            forall|k: int| 0 <= k < i ==> v@[k]@ != s@,
        decreases v.len() - i,
    {
        if str_eq(v[i].as_str(), s.as_str()) {
            assert(views(v@)[i as int] == s@);
            return true;
        }
        i += 1;
    }
    assert(!views(v@).contains(s@)) by {
        if views(v@).contains(s@) {
            let k = choose|k: int| 0 <= k < views(v@).len() && views(v@)[k] == s@;
            assert(v@[k]@ == s@);
        }
    }
    false
}

impl CapabilityGrants {
    /// Build capability grants from a Permission declaration, the workspace
    /// directory and the skill's temporary directory.
    pub fn from_permission(perm: &Permission, workspace: &str, temp_dir: &str) -> (r: Self)
        ensures
            views(r.readwrite_dirs@) == dirs_with(perm.filesystem@, true, workspace@, temp_dir@),
            views(r.readonly_dirs@) == dirs_with(perm.filesystem@, false, workspace@, temp_dir@),
            views(r.allowed_hosts@) == hosts_of(perm.network@),
            views(r.allowed_env_vars@) == dedup(env_names(*perm)),
            r.subprocess_allowlist@ == perm.subprocess_allowlist@,
            r.subprocess_enabled == perm.subprocess,
    {
        let mut readonly_dirs: Vec<String> = Vec::new();
        let mut readwrite_dirs: Vec<String> = Vec::new();
        let mut i: usize = 0;
        while i < perm.filesystem.len()
            invariant
                i <= perm.filesystem@.len(),
                views(readwrite_dirs@) == dirs_with(
                    perm.filesystem@.take(i as int),
                    true,
                    workspace@,
                    temp_dir@,
                ),
                views(readonly_dirs@) == dirs_with(
                    perm.filesystem@.take(i as int),
                    false,
                    workspace@,
                    temp_dir@,
                ),
            decreases perm.filesystem.len() - i,
        {
            let f = &perm.filesystem[i];
            let dir = resolve_dir(f.path.as_str(), workspace, temp_dir);
            assert(perm.filesystem@.take(i + 1).drop_last() =~= perm.filesystem@.take(i as int));
            if has_write_access(f) {
                readwrite_dirs.push(dir);
            } else {
                readonly_dirs.push(dir);
            }
            assert(views(readwrite_dirs@) =~= dirs_with(
                perm.filesystem@.take(i + 1),
                true,
                workspace@,
                temp_dir@,
            ));
            assert(views(readonly_dirs@) =~= dirs_with(
                perm.filesystem@.take(i + 1),
                false,
                workspace@,
                temp_dir@,
            ));
            i += 1;
        }
        assert(perm.filesystem@.take(perm.filesystem.len() as int) =~= perm.filesystem@);

        let mut allowed_hosts: Vec<String> = Vec::new();
        let mut j: usize = 0;
        while j < perm.network.len()
            invariant
                j <= perm.network@.len(),
                views(allowed_hosts@) == hosts_of(perm.network@.take(j as int)),
            decreases perm.network.len() - j,
        {
            let n = &perm.network[j];
            let ghost before = views(allowed_hosts@);
            let mut k: usize = 0;
            while k < n.ports.len()
                invariant
                    k <= n.ports@.len(),
                    views(allowed_hosts@) == before + hosts_for(*n).take(k as int),
                decreases n.ports.len() - k,
            {
                let mut host = String::new();
                push_str(&mut host, n.domain.as_str());
                push_char(&mut host, ':');
                push_decimal(&mut host, n.ports[k] as u64);
                assert(host@ =~= n.domain@ + ":"@ + decimal(n.ports@[k as int] as nat)) by {
                    reveal_strlit(":");
                }
                let ghost prev = views(allowed_hosts@);
                allowed_hosts.push(host);
                assert(hosts_for(*n)[k as int] == host@);
                assert(hosts_for(*n).take(k + 1) =~= hosts_for(*n).take(k as int).push(host@));
                assert(views(allowed_hosts@) =~= prev.push(host@));
                assert(views(allowed_hosts@) =~= before + hosts_for(*n).take(k + 1));
                k += 1;
            }
            assert(hosts_for(*n).take(n.ports.len() as int) =~= hosts_for(*n));
            assert(perm.network@.take(j + 1).drop_last() =~= perm.network@.take(j as int));
            assert(views(allowed_hosts@) =~= hosts_of(perm.network@.take(j + 1)));
            j += 1;
        }
        assert(perm.network@.take(perm.network.len() as int) =~= perm.network@);

        let mut allowed_env_vars: Vec<String> = Vec::new();
        let mut e: usize = 0;
        while e < perm.environment.len()
            invariant
                e <= perm.environment@.len(),
                views(allowed_env_vars@) == dedup(env_names(*perm).take(e as int)),
            decreases perm.environment.len() - e,
        {
            let name = &perm.environment[e].name;
            assert(env_names(*perm).take(e + 1).drop_last() =~= env_names(*perm).take(e as int));
            assert(env_names(*perm).take(e + 1).last() == name@);
            if !contains_string(&allowed_env_vars, name) {
                allowed_env_vars.push(name.clone());
                assert(views(allowed_env_vars@) =~= dedup(env_names(*perm).take(e + 1)));
            }
            e += 1;
        }
        assert(env_names(*perm).take(perm.environment.len() as int) =~= env_names(*perm));

        CapabilityGrants {
            readonly_dirs,
            readwrite_dirs,
            allowed_hosts,
            allowed_env_vars,
            subprocess_allowlist: copy_strings(&perm.subprocess_allowlist),
            subprocess_enabled: perm.subprocess,
        }
    }
}

/// The value of the first variable named `name` in `host`, if any.
pub open spec fn host_value(host: Seq<(String, String)>, name: Seq<char>) -> Option<Seq<char>>
    decreases host.len(),
{
    if host.len() == 0 {
        None
    } else if host[0].0@ == name {
        Some(host[0].1@)
    } else {
        host_value(host.subrange(1, host.len() as int), name)
    }
}

/// The characters of each name and value.
pub open spec fn pair_views(v: Seq<(String, String)>) -> Seq<(Seq<char>, Seq<char>)> {
    v.map_values(|p: (String, String)| (p.0@, p.1@))
}

/// The variables handed to the guest: each allowed name, in order, with its
/// value on the host; a name the host does not set is left out.
pub open spec fn guest_env_spec(allowed: Seq<Seq<char>>, host: Seq<(String, String)>) -> Seq<
    (Seq<char>, Seq<char>),
>
    decreases allowed.len(),
{
    if allowed.len() == 0 {
        Seq::empty()
    } else {
        let rest = guest_env_spec(allowed.drop_last(), host);
        match host_value(host, allowed.last()) {
            Some(v) => rest.push((allowed.last(), v)),
            None => rest,
        }
    }
}

/// A variable's value on the host is that of its first entry: where some entry
/// has the name, the value is the one of the earliest such entry; where none
/// has it, there is no value.
pub proof fn host_value_first_entry(host: Seq<(String, String)>, name: Seq<char>)
    ensures
        host_value(host, name) is None <==> forall|j: int| 0 <= j < host.len() ==> (#[trigger] host[j]).0@ != name,
        host_value(host, name) matches Some(v) ==> exists|i: int|
            0 <= i < host.len() && (#[trigger] host[i]).0@ == name && host[i].1@ == v && forall|j: int|
                0 <= j < i ==> (#[trigger] host[j]).0@ != name,
    decreases host.len(),
{
    if host.len() > 0 {
        let t = host.subrange(1, host.len() as int);
        host_value_first_entry(t, name);
        if host[0].0@ != name {
            assert forall|j: int| 0 <= j < t.len() implies #[trigger] t[j] == host[j + 1] by {}
            if host_value(host, name) is None {
                assert forall|j: int| 0 <= j < host.len() implies (#[trigger] host[j]).0@ != name by {
                    if j > 0 {
                        assert(t[j - 1] == host[j]);
                    }
                }
            } else {
                let v = host_value(host, name)->0;
                let i = choose|i: int|
                    0 <= i < t.len() && (#[trigger] t[i]).0@ == name && t[i].1@ == v && forall|j: int|
                        0 <= j < i ==> (#[trigger] t[j]).0@ != name;
                assert(host[i + 1] == t[i]);
                assert forall|j: int| 0 <= j < i + 1 implies (#[trigger] host[j]).0@ != name by {
                    if j > 0 {
                        assert(t[j - 1] == host[j]);
                    }
                }
            }
            if forall|j: int| 0 <= j < host.len() ==> (#[trigger] host[j]).0@ != name {
                assert forall|j: int| 0 <= j < t.len() implies (#[trigger] t[j]).0@ != name by {
                    assert(host[j + 1] == t[j]);
                }
            }
        }
    }
}

fn lookup_host(host: &Vec<(String, String)>, name: &String) -> (r: Option<String>)
    ensures
        match host_value(host@, name@) {
            Some(v) => r matches Some(s) && s@ == v,
            None => r is None,
        },
{
    let mut j: usize = 0;
    assert(host@.subrange(0, host@.len() as int) =~= host@);
    while j < host.len()
        invariant
            j <= host@.len(),
            host_value(host@, name@) == host_value(host@.subrange(j as int, host@.len() as int), name@),
        decreases host.len() - j,
    {
        let ghost rest = host@.subrange(j as int, host@.len() as int);
        assert(rest[0] == host@[j as int]);
        assert(rest.subrange(1, rest.len() as int) =~= host@.subrange(j + 1, host@.len() as int));
        if str_eq(host[j].0.as_str(), name.as_str()) {
            return Some(host[j].1.clone());
        }
        j += 1;
    }
    None
}

/// The environment handed to a skill: for each allowed name, in order, the
/// pair of the name and the first value the host gives it; names the host
/// does not set are skipped.
pub fn guest_env(allowed: &Vec<String>, host: &Vec<(String, String)>) -> (r: Vec<(String, String)>)
    ensures
        pair_views(r@) == guest_env_spec(views(allowed@), host@),
{
    let mut out: Vec<(String, String)> = Vec::new();
    let mut i: usize = 0;
    while i < allowed.len()
        invariant
            i <= allowed@.len(),
            pair_views(out@) == guest_env_spec(views(allowed@).take(i as int), host@),
        decreases allowed.len() - i,
    {
        let ghost pre = views(allowed@).take(i + 1);
        assert(pre.drop_last() =~= views(allowed@).take(i as int));
        assert(pre.last() == allowed@[i as int]@);
        match lookup_host(host, &allowed[i]) {
            Some(v) => {
                out.push((allowed[i].clone(), v));
                assert(pair_views(out@) =~= guest_env_spec(pre, host@));
            },
            None => {},
        }
        i += 1;
    }
    assert(views(allowed@).take(allowed@.len() as int) =~= views(allowed@));
    out
}

} // verus!
