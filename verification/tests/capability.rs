use skillguard::capability::{guest_env, CapabilityGrants};
use skillguard::permission::{
    EnvironmentPermission, FilesystemAccess, FilesystemPermission, HttpMethod, NetworkPermission,
    Permission,
};
use std::path::PathBuf;

#[test]
fn test_capability_from_permission() {
    let perm = Permission {
        filesystem: vec![FilesystemPermission {
            path: "${WORKSPACE}/**".into(),
            access: vec![FilesystemAccess::Read, FilesystemAccess::Write],
        }],
        network: vec![NetworkPermission {
            domain: "api.example.com".into(),
            methods: vec![HttpMethod::Get],
            ports: vec![443],
        }],
        ..Default::default()
    };

    let workspace = PathBuf::from("/home/user/project");
    let temp = PathBuf::from("/tmp/skill");
    let caps = CapabilityGrants::from_permission(
        &perm,
        workspace.to_str().unwrap(),
        temp.to_str().unwrap(),
    );

    let readwrite: Vec<PathBuf> = caps.readwrite_dirs.iter().map(PathBuf::from).collect();
    assert_eq!(readwrite, vec![PathBuf::from("/home/user/project")]);
    assert!(caps.readonly_dirs.is_empty());
    assert_eq!(caps.allowed_hosts, vec!["api.example.com:443"]);
}

#[test]
fn temp_and_single_star_paths_resolve() {
    let perm = Permission {
        filesystem: vec![
            FilesystemPermission { path: "${TEMP}/*".into(), access: vec![FilesystemAccess::Read] },
            FilesystemPermission {
                path: "${WORKSPACE}/data/**/**".into(),
                access: vec![FilesystemAccess::Execute, FilesystemAccess::Write],
            },
        ],
        ..Default::default()
    };
    let caps = CapabilityGrants::from_permission(&perm, "/w", "/t");
    assert_eq!(caps.readonly_dirs, vec!["/t".to_string()]);
    assert_eq!(caps.readwrite_dirs, vec!["/w/data".to_string()]);
}

#[test]
fn hosts_for_every_port_and_env_vars_once() {
    let perm = Permission {
        network: vec![
            NetworkPermission {
                domain: "a.example".into(),
                methods: vec![HttpMethod::Get],
                ports: vec![443, 80],
            },
            NetworkPermission {
                domain: "b.example".into(),
                methods: vec![HttpMethod::Post],
                ports: vec![8080],
            },
        ],
        environment: vec![
            EnvironmentPermission { name: "TOKEN".into(), required: true, sensitive: true },
            EnvironmentPermission { name: "HOME".into(), required: false, sensitive: false },
            EnvironmentPermission { name: "TOKEN".into(), required: false, sensitive: false },
        ],
        subprocess: true,
        subprocess_allowlist: vec!["git".into()],
        ..Default::default()
    };
    let caps = CapabilityGrants::from_permission(&perm, "/w", "/t");
    assert_eq!(caps.allowed_hosts, vec!["a.example:443", "a.example:80", "b.example:8080"]);
    assert_eq!(caps.allowed_env_vars, vec!["TOKEN".to_string(), "HOME".to_string()]);
    assert_eq!(caps.subprocess_allowlist, vec!["git".to_string()]);
    assert!(caps.subprocess_enabled);
    assert!(caps.readonly_dirs.is_empty() && caps.readwrite_dirs.is_empty());
}

#[test]
fn guest_env_passes_allowed_host_values_in_order() {
    let allowed = vec!["HOME".to_string(), "MISSING".to_string(), "LANG".to_string()];
    let host = vec![
        ("LANG".to_string(), "C".to_string()),
        ("HOME".to_string(), "/home/u".to_string()),
        ("SECRET".to_string(), "x".to_string()),
        ("HOME".to_string(), "/other".to_string()),
    ];
    let env = guest_env(&allowed, &host);
    assert_eq!(
        env,
        vec![
            ("HOME".to_string(), "/home/u".to_string()),
            ("LANG".to_string(), "C".to_string()),
        ]
    );
    assert!(guest_env(&Vec::new(), &host).is_empty());
    assert!(guest_env(&allowed, &Vec::new()).is_empty());
}
