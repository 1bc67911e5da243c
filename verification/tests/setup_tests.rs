use entrypoint::docker::network::ifaddr::{NetworkAdapter, ReadNetworkAdaptersError};
use entrypoint::docker::network::{
    get_busy_ports, network_contains_ip, network_setup, network_setup_step, ExistingNetwork,
    InspectOutcome, Ipam, IpamConfig, NetworkInfo, NetworkSetupAction, NetworkSetupError,
    NetworkSetupEvent, NetworkSetupState, TcpNetEntry, TcpState,
};
use entrypoint::net::{IpAddr, Ipv4Addr, Ipv6Addr};

fn listening(port: u16) -> TcpNetEntry {
    TcpNetEntry { state: TcpState::Listen, local_port: port }
}

fn step(state: NetworkSetupState, event: NetworkSetupEvent) -> (NetworkSetupState, NetworkSetupAction) {
    assert!(state.expects(&event));
    network_setup_step(state, event)
}

#[test]
fn busy_ports_are_listening_ports_once() {
    let entries = vec![
        listening(80),
        TcpNetEntry { state: TcpState::Established, local_port: 443 },
        listening(80),
        listening(22),
    ];
    assert_eq!(get_busy_ports(&entries), vec![80, 22]);
}

#[test]
fn contains_ip_uses_prefix_mask() {
    let net = (Ipv4Addr::new(172, 21, 0, 0), 16);
    assert!(network_contains_ip(net, IpAddr::V4(Ipv4Addr::new(172, 21, 3, 4))));
    assert!(!network_contains_ip(net, IpAddr::V4(Ipv4Addr::new(172, 22, 3, 4))));
    assert!(!network_contains_ip(net, IpAddr::V6(Ipv6Addr::from_octets([0; 16]))));
    assert!(network_contains_ip((Ipv4Addr::new(10, 0, 0, 1), 32), IpAddr::V4(Ipv4Addr::new(10, 0, 0, 1))));
}

#[test]
fn setup_picks_first_free_ports_then_reuses_existing_network() {
    let (state, action) = network_setup();
    assert_eq!(action, NetworkSetupAction::ReadBusyPorts);
    let (state, action) = step(state, NetworkSetupEvent::BusyPorts(Ok(vec![listening(80), listening(443), listening(8443)])));
    assert_eq!(state, NetworkSetupState::Inspecting { http: 8080, https: 4443 });
    assert_eq!(action, NetworkSetupAction::InspectNetwork);
    let network = ExistingNetwork {
        ipam: Some(Ipam {
            config: Some(vec![IpamConfig { gateway: Some("172.23.0.1".to_string()), subnet: None }]),
        }),
    };
    let (state, action) = step(state, NetworkSetupEvent::NetworkInspected(InspectOutcome::Found(network)));
    assert_eq!(state, NetworkSetupState::Finished);
    assert_eq!(
        action,
        NetworkSetupAction::Finish(Ok(NetworkInfo {
            free_http_port: 8080,
            free_https_port: 4443,
            gateway: Ipv4Addr::new(172, 23, 0, 1)
        }))
    );
}

#[test]
fn setup_reports_busy_ports() {
    let (state, _) = network_setup();
    let (_, action) = step(state, NetworkSetupEvent::BusyPorts(Ok(vec![listening(80), listening(8080), listening(8000)])));
    assert_eq!(action, NetworkSetupAction::Finish(Err(NetworkSetupError::PortBusy("http"))));
    let (state, _) = network_setup();
    let (_, action) = step(state, NetworkSetupEvent::BusyPorts(Ok(vec![listening(443), listening(8443), listening(4443)])));
    assert_eq!(action, NetworkSetupAction::Finish(Err(NetworkSetupError::PortBusy("https"))));
    let (state, _) = network_setup();
    let (_, action) = step(state, NetworkSetupEvent::BusyPorts(Err("no proc".to_string())));
    assert_eq!(action, NetworkSetupAction::Finish(Err(NetworkSetupError::Procfs("no proc".to_string()))));
}

#[test]
fn setup_rejects_incomplete_existing_network() {
    let inspecting = NetworkSetupState::Inspecting { http: 80, https: 443 };
    let cases = vec![
        (ExistingNetwork { ipam: None }, "Network flecs has no ipam"),
        (ExistingNetwork { ipam: Some(Ipam { config: None }) }, "Network flecs has no ipam config"),
        (ExistingNetwork { ipam: Some(Ipam { config: Some(vec![]) }) }, "Network flecs has no ipam config"),
        (
            ExistingNetwork { ipam: Some(Ipam { config: Some(vec![IpamConfig { gateway: None, subnet: None }]) }) },
            "Network flecs has no gateway",
        ),
    ];
    for (network, message) in cases {
        let (_, action) = step(inspecting, NetworkSetupEvent::NetworkInspected(InspectOutcome::Found(network)));
        assert_eq!(
            action,
            NetworkSetupAction::Finish(Err(NetworkSetupError::Logic { message: message.to_string() }))
        );
    }
    let bad = ExistingNetwork {
        ipam: Some(Ipam { config: Some(vec![IpamConfig { gateway: Some("172.23.0".to_string()), subnet: None }]) }),
    };
    let (_, action) = step(inspecting, NetworkSetupEvent::NetworkInspected(InspectOutcome::Found(bad)));
    assert!(matches!(action, NetworkSetupAction::Finish(Err(NetworkSetupError::InvalidIpv4(_)))));
    let (_, action) = step(inspecting, NetworkSetupEvent::NetworkInspected(InspectOutcome::Failed("boom".to_string())));
    assert_eq!(action, NetworkSetupAction::Finish(Err(NetworkSetupError::Bollard("boom".to_string()))));
}

#[test]
fn setup_creates_network_in_first_free_subnet() {
    let inspecting = NetworkSetupState::Inspecting { http: 80, https: 443 };
    let (state, action) = step(inspecting, NetworkSetupEvent::NetworkInspected(InspectOutcome::NotFound));
    assert_eq!(state, NetworkSetupState::ReadingAdapters { http: 80, https: 443 });
    assert_eq!(action, NetworkSetupAction::ReadAdapters);
    let mut lo = NetworkAdapter::new("lo".to_string());
    lo.ip_addresses.push(IpAddr::V4(Ipv4Addr::new(127, 0, 0, 1)));
    lo.ip_addresses.push(IpAddr::V6(Ipv6Addr::from_octets([0, 0, 0, 0, 0, 0, 0, 0, 0, 0, 0, 0, 0, 0, 0, 1])));
    let mut eth = NetworkAdapter::new("eth0".to_string());
    eth.ip_addresses.push(IpAddr::V4(Ipv4Addr::new(172, 21, 0, 5)));
    let (state, action) = step(state, NetworkSetupEvent::AdaptersRead(Ok(vec![lo, eth])));
    let gateway = Ipv4Addr::new(172, 22, 0, 1);
    assert_eq!(state, NetworkSetupState::Creating { http: 80, https: 443, gateway });
    match action {
        NetworkSetupAction::CreateNetwork(req) => {
            assert_eq!(req.name, "flecs");
            assert_eq!(req.driver.as_deref(), Some("bridge"));
            let config = req.ipam.unwrap().config.unwrap();
            assert_eq!(config.len(), 1);
            assert_eq!(config[0].gateway.as_deref(), Some("172.22.0.1"));
            assert_eq!(config[0].subnet.as_deref(), Some("172.22.0.0/16"));
        }
        other => panic!("unexpected {other:?}"),
    }
    let (state, action) = step(state, NetworkSetupEvent::NetworkCreated(Ok(())));
    assert_eq!(state, NetworkSetupState::Finished);
    assert_eq!(
        action,
        NetworkSetupAction::Finish(Ok(NetworkInfo { free_http_port: 80, free_https_port: 443, gateway }))
    );
}

#[test]
fn setup_without_adapter_addresses_takes_first_subnet() {
    let reading = NetworkSetupState::ReadingAdapters { http: 80, https: 443 };
    let (state, _) = step(reading, NetworkSetupEvent::AdaptersRead(Ok(vec![])));
    assert_eq!(state, NetworkSetupState::Creating { http: 80, https: 443, gateway: Ipv4Addr::new(172, 21, 0, 1) });
}

#[test]
fn setup_finds_no_subnet_when_every_candidate_is_taken() {
    let reading = NetworkSetupState::ReadingAdapters { http: 80, https: 443 };
    let mut adapter = NetworkAdapter::new("br0".to_string());
    adapter.ip_addresses.push(IpAddr::V4(Ipv4Addr::new(127, 0, 0, 1)));
    for second in 21..=31u8 {
        adapter.ip_addresses.push(IpAddr::V4(Ipv4Addr::new(172, second, 3, 4)));
    }
    let (state, action) = step(reading, NetworkSetupEvent::AdaptersRead(Ok(vec![adapter])));
    assert_eq!(state, NetworkSetupState::Finished);
    assert_eq!(
        action,
        NetworkSetupAction::Finish(Err(NetworkSetupError::Logic {
            message: "No free subnet found for network flecs".to_string()
        }))
    );
    let (_, action) = step(reading, NetworkSetupEvent::AdaptersRead(Err(ReadNetworkAdaptersError::IO("x".to_string()))));
    assert_eq!(
        action,
        NetworkSetupAction::Finish(Err(NetworkSetupError::ReadNetworkAdapters(ReadNetworkAdaptersError::IO("x".to_string()))))
    );
}

#[test]
fn setup_reports_create_failure() {
    let creating = NetworkSetupState::Creating { http: 80, https: 443, gateway: Ipv4Addr::new(172, 21, 0, 1) };
    let (_, action) = step(creating, NetworkSetupEvent::NetworkCreated(Err("denied".to_string())));
    assert_eq!(action, NetworkSetupAction::Finish(Err(NetworkSetupError::Bollard("denied".to_string()))));
    assert!(!creating.expects(&NetworkSetupEvent::BusyPorts(Ok(vec![]))));
}
