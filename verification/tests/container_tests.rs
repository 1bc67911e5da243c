use entrypoint::docker::container::config::ContainerEnv;
use entrypoint::docker::container::{
    create_containers, re_create_container, re_create_container_step, CreateContainerError,
    LookupOutcome, RecreateAction, RecreateEvent, RecreateState, MANAGED_CONTAINERS,
};
use entrypoint::docker::volume::{
    create_floxy_data_volume, create_otel_certs_volume, create_otel_logs_volume, volume_setup_step,
    VolumeSetupAction, VolumeSetupEvent, VolumeSetupState,
};
use entrypoint::net::Ipv4Addr;
use entrypoint::signal::{on_signal_event, Signal, SignalAction, SignalEvent};

fn step(state: RecreateState, event: RecreateEvent) -> (RecreateState, RecreateAction) {
    assert!(state.expects(&event));
    re_create_container_step(state, event)
}

fn floxy_config() -> entrypoint::docker::container::config::ContainerConfig {
    create_containers(Ipv4Addr::new(172, 21, 0, 1), &ContainerEnv::default()).remove(0)
}

#[test]
fn containers_created_in_order_with_webapp_next_to_gateway() {
    let configs = create_containers(Ipv4Addr::new(172, 24, 0, 1), &ContainerEnv::default());
    let names: Vec<_> = configs.iter().map(|c| c.0.name.clone().unwrap()).collect();
    assert_eq!(names, vec!["flecs-floxy", "flecs-flecsd", "flecs-webapp"]);
    assert_eq!(
        configs[0].1.env.as_ref().unwrap()[..2].to_vec(),
        vec!["FLOXY_HTTP_PORT=80".to_string(), "FLOXY_HTTPS_PORT=443".to_string()]
    );
    let endpoints = configs[2].1.networking_config.as_ref().unwrap().endpoints_config.as_ref().unwrap();
    assert_eq!(endpoints[0].1.ipv4_address.as_deref(), Some("172.24.255.254"));
    assert_eq!(MANAGED_CONTAINERS, ["flecs-floxy", "flecs-flecsd", "flecs-webapp"]);
}

#[test]
fn recreate_requires_image_and_name() {
    let mut config = floxy_config();
    config.1.image = None;
    let (state, action) = re_create_container(config);
    assert!(matches!(state, RecreateState::Finished));
    assert!(matches!(action, RecreateAction::Finish(Err(CreateContainerError::Logic { ref message })) if message == "Container config contains no image"));
    let mut config = floxy_config();
    config.0.name = None;
    let (_, action) = re_create_container(config);
    assert!(matches!(action, RecreateAction::Finish(Err(CreateContainerError::Logic { ref message })) if message == "Container config contains no container name"));
}

#[test]
fn recreate_pulls_split_image_then_creates() {
    let (state, action) = re_create_container(floxy_config());
    match action {
        RecreateAction::Pull { image, tag } => {
            assert_eq!(image, "cr.flecs.tech/flecs/floxy");
            assert_eq!(tag.as_deref(), Some("0"));
        }
        other => panic!("unexpected {other:?}"),
    }
    let (state, action) = step(state, RecreateEvent::Pulled(Ok(())));
    assert!(matches!(action, RecreateAction::InspectContainer(ref n) if n == "flecs-floxy"));
    let (state, action) = step(state, RecreateEvent::ContainerInspected(LookupOutcome::NotFound));
    assert!(matches!(state, RecreateState::Creating));
    match action {
        RecreateAction::CreateContainer(c) => assert_eq!(c, floxy_config()),
        other => panic!("unexpected {other:?}"),
    }
    let (state, action) = step(state, RecreateEvent::Created(Ok("abc123".to_string())));
    assert!(matches!(state, RecreateState::Finished));
    assert!(matches!(action, RecreateAction::Finish(Ok(ref id)) if id == "abc123"));
}

#[test]
fn recreate_image_without_tag() {
    let mut config = floxy_config();
    config.1.image = Some("busybox".to_string());
    let (_, action) = re_create_container(config);
    assert!(matches!(action, RecreateAction::Pull { ref image, tag: None } if image == "busybox"));
}

#[test]
fn recreate_tolerates_failed_pull_unless_inspection_fails() {
    for outcome in [LookupOutcome::Found, LookupOutcome::NotFound] {
        let (state, _) = re_create_container(floxy_config());
        let (state, action) = step(state, RecreateEvent::Pulled(Err("offline".to_string())));
        assert!(matches!(action, RecreateAction::InspectImage(ref i) if i == "cr.flecs.tech/flecs/floxy:0"));
        let (_, action) = step(state, RecreateEvent::ImageInspected(outcome));
        assert!(matches!(action, RecreateAction::InspectContainer(ref n) if n == "flecs-floxy"));
    }
    let (state, _) = re_create_container(floxy_config());
    let (state, _) = step(state, RecreateEvent::Pulled(Err("offline".to_string())));
    let (_, action) = step(state, RecreateEvent::ImageInspected(LookupOutcome::Failed("daemon".to_string())));
    assert!(matches!(action, RecreateAction::Finish(Err(CreateContainerError::Bollard(ref m))) if m == "offline"));
}

#[test]
fn recreate_removes_existing_container_first() {
    let configs = create_containers(Ipv4Addr::new(172, 21, 0, 1), &ContainerEnv::default());
    let core = configs[1].clone();
    let (state, _) = re_create_container(core.clone());
    let (state, _) = step(state, RecreateEvent::Pulled(Ok(())));
    let (state, action) = step(state, RecreateEvent::ContainerInspected(LookupOutcome::Found));
    // The removal always names the proxy's container.
    assert!(matches!(action, RecreateAction::RemoveContainer(ref n) if n == "flecs-floxy"));
    let (_, action) = step(state, RecreateEvent::Removed(Ok(())));
    assert!(matches!(action, RecreateAction::CreateContainer(ref c) if *c == core));
}

#[test]
fn recreate_reports_docker_errors() {
    let (state, _) = re_create_container(floxy_config());
    let (state, _) = step(state, RecreateEvent::Pulled(Ok(())));
    let (_, action) = step(state, RecreateEvent::ContainerInspected(LookupOutcome::Failed("x".to_string())));
    assert!(matches!(action, RecreateAction::Finish(Err(CreateContainerError::Bollard(ref m))) if m == "x"));
    let (_, action) = step(RecreateState::Creating, RecreateEvent::Created(Err("y".to_string())));
    assert!(matches!(action, RecreateAction::Finish(Err(CreateContainerError::Bollard(ref m))) if m == "y"));
}

#[test]
fn volumes_reused_or_created() {
    let (state, action) = create_floxy_data_volume();
    assert!(matches!(action, VolumeSetupAction::InspectVolume(ref n) if n == "flecs-floxy_data"));
    assert!(state.expects(&VolumeSetupEvent::Inspected(LookupOutcome::Found)));
    let (state2, action) = volume_setup_step(state, VolumeSetupEvent::Inspected(LookupOutcome::NotFound));
    match action {
        VolumeSetupAction::CreateVolume(req) => {
            assert_eq!(req.name.as_deref(), Some("flecs-floxy_data"));
            assert_eq!(req.driver.as_deref(), Some("local"));
            assert_eq!(
                req.driver_opts,
                Some(vec![
                    ("type".to_string(), "tmpfs".to_string()),
                    ("device".to_string(), "tmpfs".to_string()),
                    ("o".to_string(), "size=4m".to_string()),
                ])
            );
        }
        other => panic!("unexpected {other:?}"),
    }
    let (_, action) = volume_setup_step(state2, VolumeSetupEvent::Created(Err("no space".to_string())));
    assert!(matches!(action, VolumeSetupAction::Finish(Err(ref m)) if m == "no space"));
    let (state, _) = create_otel_certs_volume();
    let (_, action) = volume_setup_step(state, VolumeSetupEvent::Inspected(LookupOutcome::Found));
    assert!(matches!(action, VolumeSetupAction::Finish(Ok(()))));
    let (state, _) = create_otel_logs_volume();
    match volume_setup_step(state, VolumeSetupEvent::Inspected(LookupOutcome::NotFound)).1 {
        VolumeSetupAction::CreateVolume(req) => {
            assert_eq!(req.name.as_deref(), Some("flecs-otelcol_logs"));
            assert_eq!(req.driver_opts, None);
        }
        other => panic!("unexpected {other:?}"),
    }
    assert!(!VolumeSetupState::Creating.expects(&VolumeSetupEvent::Inspected(LookupOutcome::Found)));
}

#[test]
fn signals_stop_the_entrypoint() {
    assert_eq!(on_signal_event(SignalEvent::Received(Signal::Int)), SignalAction::Stop);
    assert_eq!(on_signal_event(SignalEvent::Received(Signal::Term)), SignalAction::Stop);
    assert_eq!(on_signal_event(SignalEvent::Failed), SignalAction::Wait);
    assert_eq!(on_signal_event(SignalEvent::Closed), SignalAction::End);
}
