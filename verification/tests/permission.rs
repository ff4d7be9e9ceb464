use skillguard::permission::{
    EnvironmentPermission, FilesystemAccess, FilesystemPermission, HttpMethod, NetworkPermission,
    Permission, PermissionLevel,
};

#[test]
fn test_permission_level_minimal() {
    let perm = Permission::default();
    assert_eq!(perm.level(), PermissionLevel::Minimal);
}

#[test]
fn test_permission_level_restricted() {
    let perm = Permission {
        network: vec![NetworkPermission {
            domain: "example.com".into(),
            methods: vec![HttpMethod::Get],
            ports: vec![443],
        }],
        ..Default::default()
    };
    assert_eq!(perm.level(), PermissionLevel::Restricted);
}

#[test]
fn test_permission_level_standard() {
    let perm = Permission {
        subprocess: true,
        subprocess_allowlist: vec!["ls".into()],
        ..Default::default()
    };
    assert_eq!(perm.level(), PermissionLevel::Standard);
}

#[test]
fn test_permission_level_privileged() {
    let perm = Permission {
        subprocess: true,
        subprocess_allowlist: vec![],
        ..Default::default()
    };
    assert_eq!(perm.level(), PermissionLevel::Privileged);
}

#[test]
fn filesystem_alone_is_restricted() {
    let perm = Permission {
        filesystem: vec![FilesystemPermission {
            path: "${WORKSPACE}/**".into(),
            access: vec![FilesystemAccess::Read],
        }],
        ..Default::default()
    };
    assert_eq!(perm.level(), PermissionLevel::Restricted);
}

#[test]
fn environment_alone_stays_minimal() {
    let perm = Permission {
        environment: vec![EnvironmentPermission {
            name: "API_KEY".into(),
            required: true,
            sensitive: true,
        }],
        ..Default::default()
    };
    assert_eq!(perm.level(), PermissionLevel::Minimal);
}

#[test]
fn adding_network_never_lowers_level() {
    let base = Permission {
        subprocess: true,
        subprocess_allowlist: vec!["ls".into()],
        ..Default::default()
    };
    let mut more = base.clone();
    more.network.push(NetworkPermission {
        domain: "a.example".into(),
        methods: vec![HttpMethod::Get],
        ports: vec![443],
    });
    assert!(!more.level().is_below(&base.level()));
    assert_eq!(more.level(), PermissionLevel::Standard);
}

#[test]
fn level_names() {
    assert_eq!(PermissionLevel::Minimal.to_string(), "minimal");
    assert_eq!(PermissionLevel::Restricted.to_string(), "restricted");
    assert_eq!(PermissionLevel::Standard.to_string(), "standard");
    assert_eq!(PermissionLevel::Privileged.to_string(), "privileged");
    assert!(PermissionLevel::Minimal.is_below(&PermissionLevel::Privileged));
    assert!(!PermissionLevel::Standard.is_below(&PermissionLevel::Restricted));
}

#[test]
fn permission_defaults() {
    assert_eq!(skillguard::permission::default_http_methods(), vec![HttpMethod::Get]);
    assert_eq!(skillguard::permission::default_ports(), vec![443, 80]);
    assert_eq!(skillguard::permission::default_fs_access(), vec![FilesystemAccess::Read]);
}
