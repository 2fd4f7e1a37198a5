use billow::install::{
    command_failure_message, deduplicate, effective_uid, ensure_available,
    ensure_binaries_not_installed, ensure_cni_plugins_not_installed, ensure_config_not_installed,
    ensure_not_installed, ensure_root, ensure_units_not_installed, find_binary_sources,
    find_cni_plugin_sources, install_binary_names, join_path, InstallLayout,
};

fn fixture_layout() -> InstallLayout {
    InstallLayout::from_env_values(
        Some("/tmp/fx/download"),
        Some("/tmp/fx/usr-local-bin"),
        Some("/tmp/fx/etc-billow"),
        Some("/tmp/fx/etc-systemd-system"),
        Some("/tmp/fx/run-systemd-system"),
    )
}

#[test]
fn agent_service_unit_runs_installed_agent() {
    let unit = InstallLayout::defaults().agent_service_unit();

    assert!(unit.contains("Description=Billow Agent"));
    assert!(unit.contains("Requires=billow-containerd.service"));
    assert!(unit.contains("After=network.target billow-containerd.service"));
    assert!(unit.contains(
        "Environment=BILLOW_CONTAINERD_SOCKET=/run/billow/containerd/containerd.sock"
    ));
    assert!(unit.contains("Environment=BILLOW_CONTAINERD_SHIM="));
    assert!(unit.contains("Environment=BILLOW_CRUN="));
    assert!(unit.contains("Environment=BILLOW_TASK_DIR=/run/billow/tasks"));
    assert!(unit.contains("ExecStart="));
    assert!(unit.contains("Restart=on-failure"));
    assert!(unit.contains("WantedBy=multi-user.target"));
}

#[test]
fn containerd_service_unit_runs_installed_containerd() {
    let unit = InstallLayout::defaults().containerd_service_unit();

    assert!(unit.contains("Description=Billow Containerd"));
    assert!(unit.contains("Type=notify"));
    assert!(unit.contains("ExecStart="));
    assert!(unit.contains("Delegate=yes"));
    assert!(unit.contains("KillMode=process"));
    assert!(unit.contains("--config "));
    assert!(unit.contains("--root /var/lib/billow/containerd"));
    assert!(unit.contains("--state /run/billow/containerd"));
    assert!(unit.contains("--address /run/billow/containerd/containerd.sock"));
    assert!(unit.contains("Restart=on-failure"));
    assert!(unit.contains("WantedBy=multi-user.target"));
}

#[test]
fn agent_unit_points_at_installed_layout() {
    let layout = fixture_layout();
    let unit = layout.agent_service_unit();

    assert!(unit.contains("ExecStart=/tmp/fx/usr-local-bin/billow-agent\n"));
    assert!(unit.contains(
        "Environment=BILLOW_CONTAINERD_SHIM=/tmp/fx/usr-local-bin/containerd-shim-runc-v2\n"
    ));
    assert!(unit.contains("Environment=BILLOW_CRUN=/tmp/fx/usr-local-bin/crun\n"));
    assert!(unit.contains(
        "Environment=BILLOW_WORKLOAD_DB_PATH=/var/lib/billow/workloads.sqlite3\n"
    ));
    assert!(unit.contains("Environment=BILLOW_CNI_PLUGIN_DIR=/tmp/fx/usr-local-bin/cni\n"));
    assert!(unit.contains("Environment=BILLOW_CNI_NETNS_DIR=/run/billow/netns\n"));
    assert!(unit.contains("Environment=BILLOW_CNI_IPAM_DIR=/var/lib/billow/cni/ipam\n"));
    assert!(unit.contains("Environment=BILLOW_CNI_NETWORK_NAME=billow-net\n"));
    assert!(unit.contains("Environment=BILLOW_CNI_BRIDGE_NAME=billow0\n"));
    assert!(unit.contains("Environment=BILLOW_CNI_SUBNET=10.1.1.0/24\n"));
    assert!(unit.starts_with("[Unit]\n"));
    assert!(unit.ends_with("WantedBy=multi-user.target\n"));
}

#[test]
fn containerd_unit_and_config_point_at_installed_layout() {
    let layout = fixture_layout();
    let unit = layout.containerd_service_unit();
    assert!(unit.contains(
        "ExecStart=/tmp/fx/usr-local-bin/containerd --config /tmp/fx/etc-billow/containerd/config.toml --root /var/lib/billow/containerd --state /run/billow/containerd --address /run/billow/containerd/containerd.sock"
    ));
    assert!(unit.contains(
        "ExecStartPre=/usr/bin/install -d -m 0755 /var/lib/billow/containerd /run/billow/containerd"
    ));

    let config = layout.config_contents();
    assert!(config.contains("version = 3"));
    assert!(config.contains("[plugins.'io.containerd.cri.v1.runtime'.containerd]"));
    assert!(config.contains("default_runtime_name = 'runc'"));
    assert!(config.contains("runtime_path = '/tmp/fx/usr-local-bin/containerd-shim-runc-v2'"));
    assert!(config.contains("BinaryName = '/tmp/fx/usr-local-bin/crun'"));
}

#[test]
fn layout_paths_follow_environment_and_defaults() {
    let layout = fixture_layout();
    assert_eq!(layout.agent_install_path(), "/tmp/fx/usr-local-bin/billow-agent");
    assert_eq!(layout.cni_plugin_install_path("bridge"), "/tmp/fx/usr-local-bin/cni/bridge");
    assert_eq!(layout.containerd_config_path(), "/tmp/fx/etc-billow/containerd/config.toml");
    assert_eq!(layout.agent_service_path(), "/tmp/fx/etc-systemd-system/billow-agent.service");
    assert_eq!(
        layout.containerd_service_path(),
        "/tmp/fx/etc-systemd-system/billow-containerd.service"
    );

    let defaults = InstallLayout::from_env_values(Some(""), Some(""), None, None, None);
    assert!(defaults.download_dir.is_none());
    assert_eq!(defaults.bin_dir, "/usr/local/lib/billow/bin");
    assert_eq!(defaults.config_dir, "/etc/billow");
    assert_eq!(defaults.systemd_unit_dir, "/etc/systemd/system");
    assert_eq!(defaults.systemd_runtime_dir, "/run/systemd/system");
    assert_eq!(defaults.crun_install_path(), "/usr/local/lib/billow/bin/crun");
}

#[test]
fn join_path_behaves_like_path_join() {
    assert_eq!(join_path("/a/b", "c"), "/a/b/c");
    assert_eq!(join_path("/a/b/", "c"), "/a/b/c");
    assert_eq!(join_path("", "c"), "c");
    assert_eq!(join_path("/a", "/abs"), "/abs");
}

#[test]
fn uid_override_and_root_check() {
    assert_eq!(effective_uid(None, 1000), Ok(1000));
    assert_eq!(effective_uid(Some("0"), 1000), Ok(0));
    assert_eq!(
        effective_uid(Some("root"), 0),
        Err("BILLOW_OVERRIDE_UID must be an unsigned integer".to_string())
    );
    assert!(ensure_root(0).is_ok());
    assert_eq!(ensure_root(1000), Err("must be run as root".to_string()));
}

#[test]
fn systemd_availability_checks() {
    let layout = fixture_layout();
    assert!(ensure_available(&layout, true, true, true).is_ok());
    assert_eq!(
        ensure_available(&layout, false, true, true),
        Err("systemd unit directory /tmp/fx/etc-systemd-system does not exist".to_string())
    );
    assert_eq!(
        ensure_available(&layout, true, false, true),
        Err("systemctl is not available".to_string())
    );
    assert_eq!(
        ensure_available(&layout, true, true, false),
        Err("systemd runtime directory /tmp/fx/run-systemd-system does not exist".to_string())
    );
}

#[test]
fn refuses_to_install_over_existing_files() {
    let paths = vec!["/bin/a".to_string(), "/bin/b".to_string(), "/bin/c".to_string()];
    assert!(ensure_not_installed(&paths, &vec![false, false, false]).is_ok());
    assert_eq!(
        ensure_not_installed(&paths, &vec![false, true, true]),
        Err("/bin/b already exists".to_string())
    );

    let layout = fixture_layout();
    let names = install_binary_names();
    assert!(ensure_binaries_not_installed(&layout, &names, &vec![false; 4]).is_ok());
    assert_eq!(
        ensure_binaries_not_installed(&layout, &names, &vec![true, false, false, false]),
        Err("/tmp/fx/usr-local-bin/billow-agent already exists".to_string())
    );
    assert_eq!(
        ensure_binaries_not_installed(&layout, &names, &vec![false, true, false, false]),
        Err("/tmp/fx/usr-local-bin/containerd already exists".to_string())
    );
    assert_eq!(
        ensure_cni_plugins_not_installed(&layout, &vec![false, false, true]),
        Err("/tmp/fx/usr-local-bin/cni/loopback already exists".to_string())
    );
    assert_eq!(
        ensure_config_not_installed(&layout, true),
        Err("/tmp/fx/etc-billow/containerd/config.toml already exists".to_string())
    );
    assert!(ensure_config_not_installed(&layout, false).is_ok());
    assert_eq!(
        ensure_units_not_installed(&layout, false, true),
        Err("/tmp/fx/etc-systemd-system/billow-agent.service already exists".to_string())
    );
    assert_eq!(
        ensure_units_not_installed(&layout, true, true),
        Err("/tmp/fx/etc-systemd-system/billow-containerd.service already exists".to_string())
    );
    assert!(ensure_units_not_installed(&layout, false, false).is_ok());
}

#[test]
fn picks_first_existing_source() {
    let candidates = vec![
        vec!["/exe/billow-agent".to_string(), "/cwd/billow-agent".to_string()],
        vec!["/cwd/containerd".to_string()],
        vec!["/cwd/containerd-shim-runc-v2".to_string()],
        vec!["/exe/crun".to_string(), "/cwd/crun".to_string()],
    ];
    let found = find_binary_sources(
        &candidates,
        &vec![vec![false, true], vec![true], vec![true], vec![true, true]],
    )
    .unwrap();
    assert_eq!(found[0].name, "billow-agent");
    assert_eq!(found[0].path, "/cwd/billow-agent");
    assert_eq!(found[1].name, "containerd");
    assert_eq!(found[1].path, "/cwd/containerd");
    assert_eq!(found[2].name, "containerd-shim-runc-v2");
    assert_eq!(found[2].path, "/cwd/containerd-shim-runc-v2");
    assert_eq!(found[3].name, "crun");
    assert_eq!(found[3].path, "/exe/crun");

    // Where several binaries are missing, the first one is reported.
    let first_missing = find_binary_sources(
        &candidates,
        &vec![vec![true, true], vec![false], vec![true], vec![false, false]],
    );
    assert_eq!(
        first_missing.err(),
        Some("containerd must be present next to billow-init or in the current directory".to_string())
    );

    let missing = find_binary_sources(
        &candidates,
        &vec![vec![false, true], vec![true], vec![true], vec![false, false]],
    );
    assert_eq!(
        missing.err(),
        Some("crun must be present next to billow-init or in the current directory".to_string())
    );

    let cni = vec![vec!["/d/cni/bridge".to_string()], vec![], vec!["/d/cni/loopback".to_string()]];
    assert_eq!(
        find_cni_plugin_sources(&cni, &vec![vec![false], vec![], vec![true]]).err(),
        Some("bridge must be present in the cni directory next to billow-init".to_string())
    );
    let plugins = vec![
        vec!["/x/cni/bridge".to_string(), "/d/cni/bridge".to_string()],
        vec!["/d/cni/host-local".to_string()],
        vec!["/d/cni/loopback".to_string()],
    ];
    let found =
        find_cni_plugin_sources(&plugins, &vec![vec![false, true], vec![true], vec![true]]).unwrap();
    let pairs: Vec<(&str, &str)> = found.iter().map(|s| (s.name.as_str(), s.path.as_str())).collect();
    assert_eq!(
        pairs,
        vec![
            ("bridge", "/d/cni/bridge"),
            ("host-local", "/d/cni/host-local"),
            ("loopback", "/d/cni/loopback")
        ]
    );
}

#[test]
fn source_candidates_prefer_download_dir() {
    let layout = fixture_layout();
    assert_eq!(
        layout.binary_source_candidates(Some("/exe"), "/cwd", "crun"),
        vec!["/tmp/fx/download/crun".to_string()]
    );
    assert_eq!(
        layout.cni_plugin_source_candidates(Some("/exe"), "/cwd", "bridge"),
        vec!["/tmp/fx/download/cni/bridge".to_string()]
    );
    let defaults = InstallLayout::defaults();
    assert_eq!(
        defaults.binary_source_candidates(Some("/exe"), "/cwd", "crun"),
        vec!["/exe/crun".to_string(), "/cwd/crun".to_string()]
    );
    assert_eq!(
        defaults.binary_source_candidates(Some("/same"), "/same", "crun"),
        vec!["/same/crun".to_string()]
    );
    assert_eq!(
        defaults.cni_plugin_source_candidates(None, "/cwd", "loopback"),
        vec!["/cwd/cni/loopback".to_string()]
    );
}

#[test]
fn deduplicate_keeps_first_occurrences() {
    let paths = vec![
        "/a".to_string(),
        "/b".to_string(),
        "/a".to_string(),
        "/c".to_string(),
        "/b".to_string(),
    ];
    assert_eq!(
        deduplicate(paths),
        vec!["/a".to_string(), "/b".to_string(), "/c".to_string()]
    );
}

#[test]
fn command_failures_name_the_command() {
    let args = vec!["enable".to_string(), "--now".to_string(), "x.service".to_string()];
    assert_eq!(
        command_failure_message("systemctl", &args, "exit status: 1"),
        "systemctl enable --now x.service failed with exit status: 1"
    );
    assert_eq!(
        command_failure_message("systemctl", &vec!["daemon-reload".to_string()], "exit status: 1"),
        "systemctl daemon-reload failed with exit status: 1"
    );
}
