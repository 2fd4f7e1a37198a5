use billow::containerd::{
    bounded_log, cleanup_outcome, default_capabilities, metadata_path, run_dir, snapshot_key,
    start_failure, workload_runtime_error, CleanupStep, RunCleanup, StdioPaths,
};
use billow::image::{
    host_architecture, image_command, image_configuration, image_cwd, image_env,
    is_index_media_type, is_manifest_media_type, manifest_config, resolve_manifest_digest,
    select_manifest_from_index, ImageConfig, ManifestEntry,
};
use billow::network::{
    ipv4_to_string, metadata_json, namespace_helper_result, parse_container_ip, parse_ipv4,
    read_container_ip, select_container_ip, Ipv4Range, NetworkConfig,
};
use billow::rootfs::{chain_id, hex_digest, overlay_mount_source_paths, Mount};
use billow::workload::ErrorCode;

fn config(entrypoint: Option<Vec<&str>>, cmd: Option<Vec<&str>>) -> ImageConfig {
    let owned = |v: Vec<&str>| v.into_iter().map(String::from).collect::<Vec<String>>();
    ImageConfig {
        entrypoint: entrypoint.map(owned),
        cmd: cmd.map(owned),
        env: None,
        working_dir: None,
    }
}

#[test]
fn builds_command_from_entrypoint_and_cmd() {
    let config = config(Some(vec!["/bin/app"]), Some(vec!["--serve"]));

    assert_eq!(
        image_command(Some(&config)).unwrap(),
        vec!["/bin/app".to_string(), "--serve".to_string()]
    );
}

#[test]
fn uses_cmd_when_entrypoint_is_empty() {
    let config = config(None, Some(vec!["/hello"]));

    assert_eq!(image_command(Some(&config)).unwrap(), vec!["/hello"]);
}

#[test]
fn rejects_images_without_default_process() {
    let config = config(None, None);

    assert!(image_command(Some(&config)).is_err());
}

#[test]
fn process_defaults_for_env_and_cwd() {
    assert_eq!(
        image_command(None),
        Err("image does not define an entrypoint or command for v1 run".to_string())
    );
    assert_eq!(
        image_command(Some(&config(Some(vec![]), Some(vec!["sh"])))).unwrap(),
        vec!["sh"]
    );
    assert_eq!(
        image_env(None),
        vec![
            "PATH=/usr/local/sbin:/usr/local/bin:/usr/sbin:/usr/bin:/sbin:/bin".to_string(),
            "TERM=xterm".to_string()
        ]
    );
    let mut c = config(None, None);
    c.env = Some(vec!["A=1".to_string()]);
    c.working_dir = Some("/srv".to_string());
    assert_eq!(image_env(Some(&c)), vec!["A=1".to_string()]);
    assert_eq!(image_cwd(Some(&c)), "/srv");
    c.working_dir = Some(String::new());
    assert_eq!(image_cwd(Some(&c)), "/");
    assert_eq!(image_cwd(None), "/");
}

#[test]
fn media_types_and_architecture() {
    assert!(is_manifest_media_type("application/vnd.oci.image.manifest.v1+json"));
    assert!(is_manifest_media_type(
        "application/vnd.docker.distribution.manifest.v2+json"
    ));
    assert!(!is_manifest_media_type("application/vnd.oci.image.index.v1+json"));
    assert!(is_index_media_type("application/vnd.oci.image.index.v1+json"));
    assert!(is_index_media_type(
        "application/vnd.docker.distribution.manifest.list.v2+json"
    ));
    assert_eq!(host_architecture("x86_64"), "amd64");
    assert_eq!(host_architecture("aarch64"), "arm64");
    assert_eq!(host_architecture("riscv64"), "riscv64");
}

fn entry(platform: Option<(&str, &str)>, digest: &str) -> ManifestEntry {
    ManifestEntry {
        platform: platform.map(|(os, arch)| (os.to_string(), arch.to_string())),
        digest: digest.to_string(),
    }
}

#[test]
fn selects_linux_manifest_for_host_architecture() {
    let entries = vec![
        entry(None, "sha256:none"),
        entry(Some(("windows", "amd64")), "sha256:win"),
        entry(Some(("linux", "arm64")), "sha256:arm"),
        entry(Some(("linux", "amd64")), "sha256:amd"),
    ];
    assert_eq!(select_manifest_from_index(&entries, "amd64"), Ok("sha256:amd".to_string()));
    assert_eq!(select_manifest_from_index(&entries, "s390x"), Ok("sha256:arm".to_string()));
    let non_linux = vec![entry(None, "sha256:none"), entry(Some(("windows", "amd64")), "sha256:win")];
    assert_eq!(
        select_manifest_from_index(&non_linux, "amd64"),
        Err("image index has no linux/amd64 manifest".to_string())
    );
}

#[test]
fn resolves_manifest_digest_from_index_content() {
    assert_eq!(
        resolve_manifest_digest("application/vnd.oci.image.manifest.v1+json", "sha256:m", None, "amd64"),
        Ok("sha256:m".to_string())
    );
    let index = br#"{"schemaVersion":2,"mediaType":"application/vnd.oci.image.index.v1+json","manifests":[
        {"mediaType":"application/vnd.oci.image.manifest.v1+json","digest":"sha256:aaaaaaaaaaaaaaaaaaaaaaaaaaaaaaaaaaaaaaaaaaaaaaaaaaaaaaaaaaaaaaaa","size":10,"platform":{"os":"linux","architecture":"arm64"}},
        {"mediaType":"application/vnd.oci.image.manifest.v1+json","digest":"sha256:bbbbbbbbbbbbbbbbbbbbbbbbbbbbbbbbbbbbbbbbbbbbbbbbbbbbbbbbbbbbbbbb","size":10,"platform":{"os":"linux","architecture":"amd64"}}
    ]}"#;
    assert_eq!(
        resolve_manifest_digest(
            "application/vnd.oci.image.index.v1+json",
            "sha256:index",
            Some(index.as_slice()),
            "amd64"
        ),
        Ok("sha256:bbbbbbbbbbbbbbbbbbbbbbbbbbbbbbbbbbbbbbbbbbbbbbbbbbbbbbbbbbbbbbbb".to_string())
    );
    assert!(resolve_manifest_digest(
        "application/vnd.oci.image.index.v1+json",
        "sha256:index",
        Some(b"not json".as_slice()),
        "amd64"
    )
    .is_err());
}

#[test]
fn computes_containerd_chain_id() {
    assert_eq!(chain_id(&vec!["sha256:aaa".to_string()]).unwrap(), "sha256:aaa");
    assert_eq!(
        chain_id(&vec!["sha256:aaa".to_string(), "sha256:bbb".to_string()]).unwrap(),
        "sha256:56efb1d4f6c79b745d37d6eff87e3ed8dd2be28104e124ba73fd6e6c4892c792"
    );
}

#[test]
fn chain_id_edge_cases() {
    assert_eq!(chain_id(&vec![]).unwrap(), "");
    assert_eq!(
        chain_id(&vec!["sha256:aaa".to_string(), "md5:bbb".to_string()]),
        Err("unsupported diff id digest md5:bbb".to_string())
    );
    assert_eq!(
        chain_id(&vec!["sha512:aaa".to_string()]),
        Err("unsupported diff id digest sha512:aaa".to_string())
    );
    assert_eq!(hex_digest(&[0x00, 0x0f, 0xa0, 0xff]), "000fa0ff");
}

#[test]
fn extracts_overlay_mount_source_paths() {
    let mount = Mount {
        mount_type: "overlay".to_string(),
        source: "overlay".to_string(),
        target: "rootfs".to_string(),
        options: vec![
            "workdir=/snapshots/2/work,upperdir=/snapshots/2/fs".to_string(),
            "lowerdir=/snapshots/1/fs:/snapshots/0/fs".to_string(),
        ],
    };

    assert_eq!(
        overlay_mount_source_paths(&mount),
        vec![
            "/snapshots/2/work".to_string(),
            "/snapshots/2/fs".to_string(),
            "/snapshots/1/fs".to_string(),
            "/snapshots/0/fs".to_string(),
        ]
    );
}

#[test]
fn overlay_paths_skip_empty_and_other_mounts() {
    let mut mount = Mount {
        mount_type: "overlay".to_string(),
        source: "overlay".to_string(),
        target: "rootfs".to_string(),
        options: vec!["ro,lowerdir=/a::/b,upperdir=,index=off".to_string()],
    };
    assert_eq!(
        overlay_mount_source_paths(&mount),
        vec!["/a".to_string(), "/b".to_string()]
    );
    mount.mount_type = "bind".to_string();
    assert!(overlay_mount_source_paths(&mount).is_empty());
}

#[test]
fn parses_ipv4_address_from_cni_result() {
    let output = br#"{
            "cniVersion": "1.0.0",
            "ips": [
                { "version": "6", "address": "fd00::2/64" },
                { "version": "4", "address": "10.1.1.7/24" }
            ]
        }"#;

    assert_eq!(parse_container_ip(output).unwrap(), "10.1.1.7");
}

#[test]
fn cni_result_errors() {
    assert_eq!(
        parse_container_ip(br#"{"cniVersion":"1.0.0"}"#),
        Err("CNI result did not include ips".to_string())
    );
    assert_eq!(
        parse_container_ip(br#"{"ips":[{"address":"fd00::2/64"},{"version":"4"}]}"#),
        Err("CNI result did not include an IPv4 address".to_string())
    );
    assert!(parse_container_ip(b"not json").is_err());
    assert_eq!(
        select_container_ip(&vec![None, Some("192.168.0.9".to_string())]),
        Ok("192.168.0.9".to_string())
    );
}

#[test]
fn ipv4_text_round_trips() {
    assert_eq!(parse_ipv4("10.1.1.0"), Some(0x0a01_0100));
    assert_eq!(parse_ipv4("255.255.255.255"), Some(u32::MAX));
    assert_eq!(parse_ipv4("10.01.1.0"), None);
    assert_eq!(parse_ipv4("10.1.1"), None);
    assert_eq!(parse_ipv4("10.1.1.256"), None);
    assert_eq!(parse_ipv4("10.1.1.x"), None);
    assert_eq!(ipv4_to_string(0x0a01_01fe), "10.1.1.254");
    assert_eq!(ipv4_to_string(0), "0.0.0.0");
    for a in [0u32, 1, 255, 256, 0x0a01_0100, 0x7f00_0001, 0xc0a8_0a09, u32::MAX] {
        assert_eq!(parse_ipv4(&ipv4_to_string(a)), Some(a));
    }
}

#[test]
fn subnet_range_uses_billow_network_defaults() {
    let range = Ipv4Range::from_subnet("10.1.1.0/24").unwrap();
    assert_eq!(ipv4_to_string(range.range_start), "10.1.1.2");
    assert_eq!(ipv4_to_string(range.range_end), "10.1.1.254");
    assert_eq!(ipv4_to_string(range.gateway), "10.1.1.1");

    let range = Ipv4Range::from_subnet("10.1.1.77/30").unwrap();
    assert_eq!(ipv4_to_string(range.gateway), "10.1.1.77");
    assert_eq!(ipv4_to_string(range.range_start), "10.1.1.78");
    assert_eq!(ipv4_to_string(range.range_end), "10.1.1.78");
}

#[test]
fn subnet_errors() {
    assert_eq!(
        Ipv4Range::from_subnet("10.1.1.0"),
        Err("invalid CNI subnet \"10.1.1.0\"".to_string())
    );
    assert_eq!(
        Ipv4Range::from_subnet("10.1.1/24"),
        Err("invalid CNI subnet address \"10.1.1/24\": invalid IPv4 address syntax".to_string())
    );
    assert_eq!(
        Ipv4Range::from_subnet("10.1.1.0/x"),
        Err("invalid CNI subnet prefix \"10.1.1.0/x\": invalid digit found in string".to_string())
    );
    assert_eq!(
        Ipv4Range::from_subnet("10.1.1.0/"),
        Err("invalid CNI subnet prefix \"10.1.1.0/\": cannot parse integer from empty string"
            .to_string())
    );
    assert_eq!(
        Ipv4Range::from_subnet("10.1.1.0/31"),
        Err("CNI subnet \"10.1.1.0/31\" must have at least two usable addresses".to_string())
    );
    assert_eq!(
        Ipv4Range::from_subnet("10.1.1.0/99999999999"),
        Err("invalid CNI subnet prefix \"10.1.1.0/99999999999\": number too large to fit in target type".to_string())
    );
}

#[test]
fn container_ip_metadata() {
    assert_eq!(read_container_ip(None), None);
    assert_eq!(
        read_container_ip(Some(br#"{"container_ip":"10.1.1.5"}"#.as_slice())),
        Some("10.1.1.5".to_string())
    );
    assert_eq!(read_container_ip(Some(br#"{"container_ip":""}"#.as_slice())), None);
    assert_eq!(read_container_ip(Some(b"garbage".as_slice())), None);
}

#[test]
fn run_layout_names_and_paths() {
    assert_eq!(snapshot_key("billow-abc"), "billow-abc-rootfs");
    assert_eq!(run_dir("/run/billow/tasks", "billow-abc"), "/run/billow/tasks/billow-abc");
    assert_eq!(metadata_path("/run/t/x"), "/run/t/x/network.json");
    let stdio = StdioPaths::for_run_dir("/run/t/x");
    assert_eq!(stdio.stdin, "/run/t/x/stdin");
    assert_eq!(stdio.stdout, "/run/t/x/stdout");
    assert_eq!(stdio.stderr, "/run/t/x/stderr");
}

#[test]
fn cleanup_undoes_what_was_created() {
    let mut cleanup = RunCleanup::new("t".to_string(), "t-rootfs".to_string(), "/run/t".to_string());
    assert_eq!(cleanup.steps(false), vec![]);
    cleanup.mark_container_created();
    cleanup.mark_snapshot_created();
    assert_eq!(
        cleanup.steps(true),
        vec![CleanupStep::DeleteContainer, CleanupStep::RemoveSnapshot, CleanupStep::RemoveRunDir]
    );
    cleanup.mark_task_created();
    assert_eq!(cleanup.steps(false)[0], CleanupStep::DeleteTask);
    let existing = RunCleanup::existing("t".to_string(), "t-rootfs".to_string(), "/run/t".to_string());
    assert_eq!(existing.steps(false).len(), 3);
    assert_eq!(
        existing.step_error(CleanupStep::RemoveSnapshot, "busy"),
        "remove snapshot t-rootfs failed: busy"
    );
    assert_eq!(
        existing.step_error(CleanupStep::RemoveRunDir, "denied"),
        "remove task directory /run/t failed: denied"
    );
    assert!(cleanup_outcome(&vec![]).is_ok());
    assert_eq!(
        cleanup_outcome(&vec!["a failed".to_string(), "b failed".to_string()]),
        Err("a failed; b failed".to_string())
    );
}

#[test]
fn logs_are_bounded() {
    assert_eq!(bounded_log(b"hello".to_vec(), 10), (b"hello".to_vec(), false));
    assert_eq!(bounded_log(b"hello".to_vec(), 5), (b"hello".to_vec(), false));
    assert_eq!(bounded_log(b"hello!".to_vec(), 5), (b"hello".to_vec(), true));
    assert_eq!(bounded_log(Vec::new(), 0), (Vec::new(), false));
}

#[test]
fn runtime_failures_are_internal_errors() {
    let e = workload_runtime_error("boom");
    assert_eq!(e.code(), ErrorCode::Internal);
    assert_eq!(e.message(), "boom");
    let e = start_failure("pull failed", Some("snapshot busy"));
    assert_eq!(e.message(), "pull failed; cleanup also failed: snapshot busy");
    assert_eq!(start_failure("pull failed", None).message(), "pull failed");
}

#[test]
fn default_capabilities_do_not_use_ambient_set() {
    let capabilities = default_capabilities();

    assert!(capabilities.ambient.is_empty());
    assert_eq!(capabilities.bounding.len(), 14);
    assert_eq!(capabilities.bounding, capabilities.permitted);
}

#[test]
fn namespace_helper_status_names_the_failed_step() {
    let path = "/run/billow/netns/billow-w1-a";
    assert_eq!(namespace_helper_result(path, true, 0), Ok(()));
    assert_eq!(
        namespace_helper_result(path, true, 2),
        Err("failed to create network namespace /run/billow/netns/billow-w1-a: unshare failed".to_string())
    );
    assert_eq!(
        namespace_helper_result(path, true, 3),
        Err("failed to create network namespace /run/billow/netns/billow-w1-a: bind mount failed".to_string())
    );
    assert_eq!(
        namespace_helper_result(path, true, 1),
        Err("failed to create network namespace /run/billow/netns/billow-w1-a: unknown helper failure"
            .to_string())
    );
    assert_eq!(
        namespace_helper_result(path, false, 0),
        Err("failed to create network namespace /run/billow/netns/billow-w1-a: helper did not exit cleanly"
            .to_string())
    );
}

#[test]
fn manifest_names_its_configuration() {
    let manifest = br#"{"schemaVersion":2,"mediaType":"application/vnd.oci.image.manifest.v1+json",
        "config":{"mediaType":"application/vnd.oci.image.config.v1+json","digest":"sha256:cccccccccccccccccccccccccccccccccccccccccccccccccccccccccccccccc","size":7},
        "layers":[{"mediaType":"application/vnd.oci.image.layer.v1.tar+gzip","digest":"sha256:dddddddddddddddddddddddddddddddddddddddddddddddddddddddddddddddd","size":9}]}"#;
    assert_eq!(
        manifest_config(manifest.as_slice()),
        Ok("sha256:cccccccccccccccccccccccccccccccccccccccccccccccccccccccccccccccc".to_string())
    );
    assert!(manifest_config(b"{}".as_slice()).is_err());
    // A manifest's content is read as one even where the descriptor's type is
    // not a manifest type.
    assert_eq!(
        resolve_manifest_digest("application/octet-stream", "sha256:m", Some(manifest.as_slice()), "amd64"),
        Ok("sha256:m".to_string())
    );
}

#[test]
fn configuration_gives_process_and_layers() {
    let bytes = br#"{"architecture":"amd64","os":"linux",
        "config":{"Entrypoint":["/docker-entrypoint.sh"],"Cmd":["nginx","-g","daemon off;"],"Env":["PATH=/usr/bin"],"WorkingDir":"/srv"},
        "rootfs":{"type":"layers","diff_ids":["sha256:aaa","sha256:bbb"]}}"#;
    let (config, diff_ids) = image_configuration(bytes.as_slice()).unwrap();
    let config = config.unwrap();
    assert_eq!(config.entrypoint, Some(vec!["/docker-entrypoint.sh".to_string()]));
    assert_eq!(
        config.cmd,
        Some(vec!["nginx".to_string(), "-g".to_string(), "daemon off;".to_string()])
    );
    assert_eq!(config.env, Some(vec!["PATH=/usr/bin".to_string()]));
    assert_eq!(config.working_dir, Some("/srv".to_string()));
    assert_eq!(diff_ids, vec!["sha256:aaa".to_string(), "sha256:bbb".to_string()]);
    assert_eq!(
        image_command(Some(&config)).unwrap(),
        vec!["/docker-entrypoint.sh", "nginx", "-g", "daemon off;"]
    );

    let bare = br#"{"architecture":"amd64","os":"linux","rootfs":{"type":"layers","diff_ids":[]}}"#;
    let (config, diff_ids) = image_configuration(bare.as_slice()).unwrap();
    assert!(config.is_none());
    assert!(diff_ids.is_empty());
    assert!(image_configuration(b"[]".as_slice()).is_err());
}

#[test]
fn cni_bridge_config_uses_billow_network_defaults() {
    let config = NetworkConfig {
        plugin_dir: String::from("/plugins"),
        netns_dir: String::from("/netns"),
        ipam_dir: String::from("/ipam"),
        network_name: String::from("billow-net"),
        bridge_name: String::from("billow0"),
        subnet: String::from("10.1.1.0/24"),
        range: Ipv4Range::from_subnet("10.1.1.0/24").unwrap(),
    };
    let value: serde_json::Value = serde_json::from_slice(config.bridge_config().as_bytes()).unwrap();

    assert_eq!(value["name"], "billow-net");
    assert_eq!(value["bridge"], "billow0");
    assert_eq!(value["ipam"]["ranges"][0][0]["subnet"], "10.1.1.0/24");
    assert_eq!(value["ipam"]["ranges"][0][0]["rangeStart"], "10.1.1.2");
    assert_eq!(value["ipam"]["ranges"][0][0]["rangeEnd"], "10.1.1.254");
    assert_eq!(value["ipam"]["ranges"][0][0]["gateway"], "10.1.1.1");
    assert_eq!(value["ipam"]["dataDir"], "/ipam");
}

#[test]
fn cni_configs_are_written_as_serde_json_writes_them() {
    let config = NetworkConfig {
        plugin_dir: String::from("/plugins"),
        netns_dir: String::from("/netns"),
        ipam_dir: String::from("/var/lib/\"billow\"\\ipam"),
        network_name: String::from("billow-net"),
        bridge_name: String::from("br\u{1}\u{8}\u{c}\t\n\r\u{1f}\u{7f}é0"),
        subnet: String::from("10.1.1.0/24"),
        range: Ipv4Range::from_subnet("10.1.1.0/24").unwrap(),
    };
    let text = config.bridge_config();
    let value: serde_json::Value = serde_json::from_str(&text).unwrap();
    assert_eq!(serde_json::to_string(&value).unwrap(), text);
    assert_eq!(value["bridge"], "br\u{1}\u{8}\u{c}\t\n\r\u{1f}\u{7f}é0");
    assert_eq!(value["isGateway"], true);
    assert_eq!(value["ipMasq"], true);
    assert_eq!(value["cniVersion"], "1.0.0");
    assert_eq!(value["type"], "bridge");
    assert_eq!(value["ipam"]["type"], "host-local");
    assert_eq!(value["ipam"]["routes"][0]["dst"], "0.0.0.0/0");
    assert_eq!(value["ipam"]["dataDir"], "/var/lib/\"billow\"\\ipam");

    let lo = NetworkConfig::loopback_config();
    assert_eq!(lo, r#"{"cniVersion":"1.0.0","name":"lo","type":"loopback"}"#);
    let value: serde_json::Value = serde_json::from_str(&lo).unwrap();
    assert_eq!(serde_json::to_string(&value).unwrap(), lo);
}

#[test]
fn network_metadata_reads_back() {
    for ip in ["10.1.1.2", "", "a\"b\\c\u{1}\n\t\r\u{8}\u{c}é"] {
        let text = metadata_json(ip);
        let value: serde_json::Value = serde_json::from_str(&text).unwrap();
        assert_eq!(serde_json::to_string(&value).unwrap(), text);
        assert_eq!(value["container_ip"], ip);
    }
    assert_eq!(metadata_json("10.1.1.2"), r#"{"container_ip":"10.1.1.2"}"#);
    assert_eq!(read_container_ip(Some(metadata_json("10.1.1.7").as_bytes())), Some("10.1.1.7".to_string()));
    assert_eq!(read_container_ip(Some(metadata_json("").as_bytes())), None);
}
