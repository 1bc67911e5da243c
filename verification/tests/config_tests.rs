use entrypoint::docker::container::config::{
    core_container_config, floxy_container_config, otel_container_config, otel_install_requested,
    parse_env_pairs, webapp_container_config, webapp_install_requested, ContainerConfig,
    ContainerEnv, Mount, MountType, RestartPolicyName, CORE_OTEL_HTTP_COLLECTOR_ENDPOINT_ENV,
    CORE_SECRET_EXPORT_PATH_ENV, OTEL_CERTS_MOUNT_TARGET_COLLECTOR, OTEL_CERTS_MOUNT_TARGET_CORE,
    OTEL_HTTP_PORT,
};
use entrypoint::docker::network::FLECS_NETWORK_NAME;
use entrypoint::docker::volume::{OTEL_CERTS_VOLUME, OTEL_LOGS_VOLUME};
use entrypoint::net::Ipv4Addr;

#[test]
fn single_pair_no_escaping() {
    assert_eq!(parse_env_pairs("KEY=value"), vec!["KEY=value"]);
}

#[test]
fn multiple_pairs_no_escaping() {
    assert_eq!(
        parse_env_pairs("KEY1=foo KEY2=bar KEY3=baz"),
        vec!["KEY1=foo", "KEY2=bar", "KEY3=baz"]
    );
}

#[test]
fn escaped_space_in_value() {
    assert_eq!(
        parse_env_pairs(r"KEY=hello\ world"),
        vec!["KEY=hello world"]
    );
}

#[test]
fn escaped_backslash_in_value() {
    assert_eq!(
        parse_env_pairs(r"KEY=path\\to\\file"),
        vec![r"KEY=path\to\file"]
    );
}

#[test]
fn multiple_pairs_with_spaces_in_values() {
    assert_eq!(
        parse_env_pairs(r"KEY1=hello\ world KEY2=foo\ bar"),
        vec!["KEY1=hello world", "KEY2=foo bar"]
    );
}

#[test]
fn url_value() {
    assert_eq!(
        parse_env_pairs("FLECS_CORE_MARGO_WFM_URL=http://example.com:8080/path"),
        vec!["FLECS_CORE_MARGO_WFM_URL=http://example.com:8080/path"]
    );
}

#[test]
fn empty_input() {
    assert_eq!(parse_env_pairs(""), Vec::<String>::new());
}

#[test]
fn multiple_spaces_between_pairs() {
    assert_eq!(
        parse_env_pairs("KEY1=foo  KEY2=bar"),
        vec!["KEY1=foo", "KEY2=bar"]
    );
}

#[test]
fn trailing_backslash_is_kept() {
    assert_eq!(parse_env_pairs(r"KEY=value\"), vec![r"KEY=value\"]);
}

#[test]
fn only_spaces_give_no_pairs() {
    assert_eq!(parse_env_pairs("   "), Vec::<String>::new());
}

#[test]
fn leading_and_trailing_spaces_are_dropped() {
    assert_eq!(parse_env_pairs("  A=1 "), vec!["A=1"]);
}

#[test]
fn escaped_ordinary_character_is_kept_without_backslash() {
    assert_eq!(parse_env_pairs(r"A=\x"), vec!["A=x"]);
}

#[test]
fn env_pairs_round_trip_on_values() {
    // Escaping values and joining them with spaces is undone by the parser.
    let values = vec!["A=hello world", r"B=c:\dir", "C= x "];
    let mut text = String::new();
    for (i, v) in values.iter().enumerate() {
        if i > 0 {
            text.push(' ');
        }
        for c in v.chars() {
            if c == '\\' || c == ' ' {
                text.push('\\');
            }
            text.push(c);
        }
    }
    assert_eq!(parse_env_pairs(&text), values);
}

fn mounts_of(config: &ContainerConfig) -> &[Mount] {
    config
        .1
        .host_config
        .as_ref()
        .unwrap()
        .mounts
        .as_deref()
        .unwrap()
}

#[test]
fn otel_container_config_joins_flecs_network_with_static_ip_and_no_host_mode() {
    let ip = Ipv4Addr::new(172, 21, 255, 253);
    let config = otel_container_config(ip, &ContainerEnv::default());
    assert_eq!(
        config.1.image.as_deref(),
        Some("cr.flecs.tech/flecs/otel-collector:0")
    );
    assert!(
        config
            .1
            .host_config
            .as_ref()
            .unwrap()
            .network_mode
            .is_none()
    );
    assert!(
        config
            .1
            .host_config
            .as_ref()
            .unwrap()
            .port_bindings
            .is_none()
    );
    assert!(config.1.exposed_ports.is_none());
    let endpoints = config
        .1
        .networking_config
        .as_ref()
        .unwrap()
        .endpoints_config
        .as_ref()
        .unwrap();
    let endpoint = &endpoints.iter().find(|(n, _)| n == FLECS_NETWORK_NAME).unwrap().1;
    assert_eq!(endpoint.ipv4_address.as_deref(), Some("172.21.255.253"));
}

#[test]
fn otel_container_config_mounts_certs_volume_at_collector_path() {
    let config = otel_container_config(Ipv4Addr::new(172, 21, 255, 253), &ContainerEnv::default());
    let mounts = mounts_of(&config);
    assert!(
        mounts
            .iter()
            .any(|m| m.source.as_deref() == Some(OTEL_CERTS_VOLUME)
                && m.target.as_deref() == Some(OTEL_CERTS_MOUNT_TARGET_COLLECTOR))
    );
}

#[test]
fn otel_container_config_mounts_docker_socket_at_var_run() {
    let config = otel_container_config(Ipv4Addr::new(172, 21, 255, 253), &ContainerEnv::default());
    let mounts = mounts_of(&config);
    assert!(
        mounts
            .iter()
            .any(|m| m.source.as_deref() == Some("/run/docker.sock")
                && m.target.as_deref() == Some("/var/run/docker.sock"))
    );
}

#[test]
fn otel_container_config_mounts_host_root_readonly_at_hostfs() {
    let config = otel_container_config(Ipv4Addr::new(172, 21, 255, 253), &ContainerEnv::default());
    let mounts = mounts_of(&config);
    assert!(mounts.iter().any(|m| m.source.as_deref() == Some("/")
        && m.target.as_deref() == Some("/hostfs")
        && m.read_only == Some(true)));
}

#[test]
fn otel_container_config_mounts_logs_volume() {
    let config = otel_container_config(Ipv4Addr::new(172, 21, 255, 253), &ContainerEnv::default());
    let mounts = mounts_of(&config);
    assert!(
        mounts
            .iter()
            .any(|m| m.source.as_deref() == Some(OTEL_LOGS_VOLUME)
                && m.target.as_deref() == Some("/var/log/otelcol"))
    );
}

#[test]
fn core_container_config_without_otel_has_no_otel_mount_or_env() {
    let config = core_container_config(None, &ContainerEnv::default());
    let mounts = mounts_of(&config);
    assert!(
        !mounts
            .iter()
            .any(|m| m.source.as_deref() == Some(OTEL_CERTS_VOLUME))
    );
    assert!(config.1.env.is_none());
}

#[test]
fn core_container_config_with_otel_adds_mount_and_env() {
    let ip = Ipv4Addr::new(172, 21, 255, 253);
    let config = core_container_config(Some(ip), &ContainerEnv::default());
    let mounts = mounts_of(&config);
    assert!(
        mounts
            .iter()
            .any(|m| m.source.as_deref() == Some(OTEL_CERTS_VOLUME)
                && m.target.as_deref() == Some(OTEL_CERTS_MOUNT_TARGET_CORE))
    );
    let env = config.1.env.unwrap();
    assert!(env.contains(&format!(
        "{CORE_SECRET_EXPORT_PATH_ENV}={OTEL_CERTS_MOUNT_TARGET_CORE}"
    )));
    assert!(env.contains(&format!(
        "{CORE_OTEL_HTTP_COLLECTOR_ENDPOINT_ENV}=http://{}:{OTEL_HTTP_PORT}",
        ip.to_string()
    )));
}

#[test]
fn core_container_config_still_host_network_mode() {
    let config = core_container_config(Some(Ipv4Addr::new(172, 21, 255, 253)), &ContainerEnv::default());
    assert_eq!(
        config
            .1
            .host_config
            .as_ref()
            .unwrap()
            .network_mode
            .as_deref(),
        Some("host")
    );
}

#[test]
fn core_container_config_image_and_env_from_variables() {
    let env = ContainerEnv {
        core_version: Some("v5.0.0".to_string()),
        core_env: Some(r"A=1 B=two\ words".to_string()),
        ..ContainerEnv::default()
    };
    let config = core_container_config(None, &env);
    assert_eq!(config.0.name.as_deref(), Some("flecs-flecsd"));
    assert_eq!(config.1.hostname.as_deref(), Some("flecs-flecsd"));
    assert_eq!(config.1.image.as_deref(), Some("cr.flecs.tech/flecs/flecs-core:v5.0.0"));
    assert_eq!(config.1.env, Some(vec!["A=1".to_string(), "B=two words".to_string()]));
    let mounts = mounts_of(&config);
    assert_eq!(mounts.len(), 3);
    assert_eq!(mounts[0].typ, Some(MountType::Bind));
    assert_eq!(mounts[0].source.as_deref(), Some("/run/docker.sock"));
    assert_eq!(mounts[0].target.as_deref(), Some("/run/docker.sock"));
    assert_eq!(mounts[1].source.as_deref(), Some("flecs-floxy_data"));
    assert_eq!(mounts[1].target.as_deref(), Some("/tmp/floxy"));
    assert_eq!(mounts[2].source.as_deref(), Some("flecsd"));
    assert_eq!(mounts[2].target.as_deref(), Some("/var/lib/flecs"));
}

#[test]
fn core_container_config_default_version_is_latest() {
    let config = core_container_config(None, &ContainerEnv::default());
    assert_eq!(config.1.image.as_deref(), Some("cr.flecs.tech/flecs/flecs-core:latest"));
}

#[test]
fn core_container_config_with_otel_env_comes_before_extra_pairs() {
    let env = ContainerEnv { core_env: Some("X=y".to_string()), ..ContainerEnv::default() };
    let config = core_container_config(Some(Ipv4Addr::new(10, 0, 0, 7)), &env);
    assert_eq!(
        config.1.env,
        Some(vec![
            "FLECS_CORE_SECRET_EXPORT_PATH=/etc/flecs/otel-certs".to_string(),
            "FLECS_CORE_OTEL_HTTP_COLLECTOR_ENDPOINT=http://10.0.0.7:4318".to_string(),
            "X=y".to_string(),
        ])
    );
}

#[test]
fn floxy_container_config_sets_ports_gateway_and_volumes() {
    let env = ContainerEnv { floxy_env: Some("EXTRA=1".to_string()), ..ContainerEnv::default() };
    let config = floxy_container_config(8080, 4443, Ipv4Addr::new(172, 22, 0, 1), &env);
    assert_eq!(config.0.name.as_deref(), Some("flecs-floxy"));
    assert_eq!(config.1.image.as_deref(), Some("cr.flecs.tech/flecs/floxy:0"));
    assert_eq!(
        config.1.env,
        Some(vec![
            "FLOXY_HTTP_PORT=8080".to_string(),
            "FLOXY_HTTPS_PORT=4443".to_string(),
            "FLOXY_FLECS_GATEWAY=172.22.0.1".to_string(),
            "EXTRA=1".to_string(),
        ])
    );
    let host = config.1.host_config.as_ref().unwrap();
    assert_eq!(host.network_mode.as_deref(), Some("host"));
    let policy = host.restart_policy.unwrap();
    assert_eq!(policy.name, Some(RestartPolicyName::OnFailure));
    assert_eq!(policy.maximum_retry_count, Some(0));
    let mounts = mounts_of(&config);
    assert_eq!(mounts.len(), 2);
    assert_eq!(mounts[0].source.as_deref(), Some("flecs-floxy_certs"));
    assert_eq!(mounts[0].target.as_deref(), Some("/etc/nginx/certs"));
    assert_eq!(mounts[1].source.as_deref(), Some("flecs-floxy_data"));
    assert_eq!(mounts[1].target.as_deref(), Some("/tmp/floxy"));
}

#[test]
fn otel_container_config_uses_export_destination_and_version() {
    let env = ContainerEnv {
        otel_version: Some("2".to_string()),
        otel_export_destination: Some("https://otel.example".to_string()),
        ..ContainerEnv::default()
    };
    let config = otel_container_config(Ipv4Addr::new(172, 21, 255, 253), &env);
    assert_eq!(config.1.image.as_deref(), Some("cr.flecs.tech/flecs/otel-collector:2"));
    assert_eq!(config.1.env, Some(vec!["OTLP_UPSTREAM_ENDPOINT=https://otel.example".to_string()]));
}

#[test]
fn otel_container_config_default_export_destination_is_empty() {
    let config = otel_container_config(Ipv4Addr::new(172, 21, 255, 253), &ContainerEnv::default());
    assert_eq!(config.1.env, Some(vec!["OTLP_UPSTREAM_ENDPOINT=".to_string()]));
}

#[test]
fn webapp_container_config_tag_hosts_and_endpoint() {
    let env = ContainerEnv {
        webapp_version: Some("4.1".to_string()),
        whitelabel: Some("acme".to_string()),
        ..ContainerEnv::default()
    };
    let config = webapp_container_config(Ipv4Addr::new(172, 21, 255, 254), Ipv4Addr::new(172, 21, 0, 1), &env);
    assert_eq!(config.0.name.as_deref(), Some("flecs-webapp"));
    assert_eq!(config.1.image.as_deref(), Some("cr.flecs.tech/flecs/webapp:4.1-acme"));
    assert!(config.1.hostname.is_none());
    assert!(config.1.env.is_none());
    let host = config.1.host_config.as_ref().unwrap();
    assert_eq!(host.extra_hosts, Some(vec!["flecs-floxy:172.21.0.1".to_string()]));
    let endpoints = config.1.networking_config.as_ref().unwrap().endpoints_config.as_ref().unwrap();
    assert_eq!(endpoints.len(), 1);
    assert_eq!(endpoints[0].0, "flecs");
    assert_eq!(endpoints[0].1.ipv4_address.as_deref(), Some("172.21.255.254"));
}

#[test]
fn webapp_container_config_env_only_when_pairs_given() {
    let blank = ContainerEnv { webapp_env: Some("  ".to_string()), ..ContainerEnv::default() };
    let config = webapp_container_config(Ipv4Addr::new(1, 2, 3, 4), Ipv4Addr::new(1, 2, 0, 1), &blank);
    assert!(config.1.env.is_none());
    assert_eq!(config.1.image.as_deref(), Some("cr.flecs.tech/flecs/webapp:latest"));
    let some = ContainerEnv { webapp_env: Some("K=v".to_string()), ..ContainerEnv::default() };
    let config = webapp_container_config(Ipv4Addr::new(1, 2, 3, 4), Ipv4Addr::new(1, 2, 0, 1), &some);
    assert_eq!(config.1.env, Some(vec!["K=v".to_string()]));
}

#[test]
fn install_requests_follow_their_variables() {
    assert!(otel_install_requested(Some("1")));
    assert!(!otel_install_requested(Some("true")));
    assert!(!otel_install_requested(None));
    assert!(webapp_install_requested(None));
    assert!(webapp_install_requested(Some("1")));
    assert!(!webapp_install_requested(Some("0")));
}
