//! The containers that flecs runs: their names, and the state machine that
//! pulls an image and (re)creates a container from a configuration.

pub mod config;

use crate::docker::container::config::{
    core_config_view, core_container_config, floxy_config_view, floxy_container_config,
    webapp_config_view, webapp_container_config, ContainerConfig, ContainerCreateBodyView,
    ContainerEnv,
};
use crate::net::{ipv4_bits, ipv4_octets, Ipv4Addr};
use crate::text::{split_once, split_once_text, to_owned_string};
use vstd::prelude::*;

verus! {

broadcast use {Ipv4Addr::lemma_from_bits_spec, Ipv4Addr::lemma_view_injective};

/// The name of the flecs core container.
pub const CORE_CONTAINER_NAME: &'static str = "flecs-flecsd";

/// The volume that holds the state of the core.
pub const CORE_VOLUME: &'static str = "flecsd";

/// The name of the web app container.
pub const WEBAPP_CONTAINER_NAME: &'static str = "flecs-webapp";

/// The name of the proxy container.
pub const FLOXY_CONTAINER_NAME: &'static str = "flecs-floxy";

/// The name of the OpenTelemetry collector container.
pub const OTEL_CONTAINER_NAME: &'static str = "flecs-otelcol";

/// The containers that flecs manages, in the order in which it starts,
/// stops and removes them.
pub const MANAGED_CONTAINERS: [&'static str; 3] = [
    FLOXY_CONTAINER_NAME,
    CORE_CONTAINER_NAME,
    WEBAPP_CONTAINER_NAME,
];

/// Why creating a container failed.
#[derive(Debug, Clone, PartialEq, Eq)]
pub enum CreateContainerError {
    /// An error of the Docker API, by its message.
    Bollard(String),
    Logic { message: String },
}

/// The address of the web app on the flecs network: the first two octets
/// of the gateway, then `255.254`.
pub open spec fn webapp_ip(gateway: u32) -> u32 {
    ipv4_bits(ipv4_octets(gateway)[0], ipv4_octets(gateway)[1], 255, 254)
}

/// The configurations of the containers to create, in order: the proxy on
/// ports 80 and 443, the core without a collector, and the web app at its
/// address next to the gateway.
pub open spec fn container_configs_view(gateway: u32, env: ContainerEnv) -> Seq<
    (Option<Seq<char>>, ContainerCreateBodyView),
> {
    seq![
        floxy_config_view(80, 443, gateway, env),
        core_config_view(None, env),
        webapp_config_view(webapp_ip(gateway), gateway, env),
    ]
}

/// The configurations of the containers that flecs creates, in the order
/// in which it (re)creates them; `gateway` is the flecs network's gateway.
pub fn create_containers(gateway: Ipv4Addr, env: &ContainerEnv) -> (r: Vec<ContainerConfig>)
    ensures
        r@.map_values(|c: ContainerConfig| c@) == container_configs_view(gateway@, *env),
{
    let http_port: u16 = 80;
    let https_port: u16 = 443;
    let octets = gateway.octets();
    let webapp = Ipv4Addr::new(octets[0], octets[1], 255, 254);
    let mut r: Vec<ContainerConfig> = Vec::new();
    r.push(floxy_container_config(http_port, https_port, gateway, env));
    r.push(core_container_config(None, env));
    r.push(webapp_container_config(webapp, gateway, env));
    proof {
        assert(r@.map_values(|c: ContainerConfig| c@) == container_configs_view(gateway@, *env));
    }
    r
}

/// A container to (re)create: its configuration, its image reference and
/// its name.
pub struct RecreateJob {
    config: ContainerConfig,
    image_with_tag: String,
    container_name: String,
}

impl View for RecreateJob {
    type V = ((Option<Seq<char>>, ContainerCreateBodyView), Seq<char>, Seq<char>);

    closed spec fn view(&self) -> ((Option<Seq<char>>, ContainerCreateBodyView), Seq<char>, Seq<char>) {
        (self.config@, self.image_with_tag@, self.container_name@)
    }
}

/// Where [`re_create_container_step`] stands.
pub enum RecreateState {
    /// Waiting for the image to be pulled.
    Pulling(RecreateJob),
    /// The pull failed with the given message; waiting for Docker's answer
    /// about a local copy of the image.
    InspectingImage(RecreateJob, String),
    /// Waiting for Docker's answer about an existing container.
    InspectingContainer(RecreateJob),
    /// Waiting for an existing container to be removed.
    Removing(RecreateJob),
    /// Waiting for the container to be created.
    Creating,
    /// Done; the last action carried the result.
    Finished,
}

/// What Docker answered when asked for an image or a container.
#[derive(Debug, Clone, PartialEq, Eq)]
pub enum LookupOutcome {
    Found,
    /// Docker answered 404.
    NotFound,
    /// Any other error, by its message.
    Failed(String),
}

/// The outcome of an action of [`re_create_container_step`]; errors by
/// their messages.
#[derive(Debug, PartialEq, Eq)]
pub enum RecreateEvent {
    Pulled(Result<(), String>),
    ImageInspected(LookupOutcome),
    ContainerInspected(LookupOutcome),
    Removed(Result<(), String>),
    /// The id of the new container, or the error.
    Created(Result<String, String>),
}

/// What the driver does next for [`re_create_container_step`].
#[derive(Debug)]
pub enum RecreateAction {
    /// Pull `image` (with `tag`, if any).
    Pull { image: String, tag: Option<String> },
    /// Ask Docker for the local image with this reference.
    InspectImage(String),
    /// Ask Docker for the container with this name.
    InspectContainer(String),
    /// Remove the container with this name, forcibly.
    RemoveContainer(String),
    CreateContainer(ContainerConfig),
    Finish(Result<String, CreateContainerError>),
}

/// An image reference split at its first `:` into image and tag.
pub open spec fn image_and_tag(s: Seq<char>) -> (Seq<char>, Option<Seq<char>>) {
    match split_once_text(s, ':') {
        Some((image, tag)) => (image, Some(tag)),
        None => (s, None),
    }
}

/// Whether `event` answers the action that led to `state`.
pub open spec fn recreate_expects(state: RecreateState, event: RecreateEvent) -> bool {
    match state {
        RecreateState::Pulling(_) => event is Pulled,
        RecreateState::InspectingImage(_, _) => event is ImageInspected,
        RecreateState::InspectingContainer(_) => event is ContainerInspected,
        RecreateState::Removing(_) => event is Removed,
        RecreateState::Creating => event is Created,
        RecreateState::Finished => false,
    }
}

impl RecreateState {
    /// Whether `event` answers the action that led to this state.
    pub fn expects(&self, event: &RecreateEvent) -> (r: bool)
        ensures
            r == recreate_expects(*self, *event),
    {
        match self {
            RecreateState::Pulling(_) => matches!(event, RecreateEvent::Pulled(_)),
            RecreateState::InspectingImage(_, _) => matches!(event, RecreateEvent::ImageInspected(_)),
            RecreateState::InspectingContainer(_) => matches!(event, RecreateEvent::ContainerInspected(_)),
            RecreateState::Removing(_) => matches!(event, RecreateEvent::Removed(_)),
            RecreateState::Creating => matches!(event, RecreateEvent::Created(_)),
            RecreateState::Finished => false,
        }
    }
}

/// A `Logic` error with a copy of `message`.
fn logic_error(message: &str) -> (e: CreateContainerError)
    ensures
        e matches CreateContainerError::Logic { message: m } && m@ == message@,
{
    CreateContainerError::Logic { message: to_owned_string(message) }
}

/// Starts (re)creating a container from `config`: it needs an image and a
/// name (else a `Logic` error); the first action pulls the image, split at
/// its first `:` into image and tag. Each outcome then goes to
/// [`re_create_container_step`].
pub fn re_create_container(config: ContainerConfig) -> (r: (RecreateState, RecreateAction))
    ensures
        match (config.1.image, config.0.name) {
            (None, _) => r.0 is Finished && (r.1 matches RecreateAction::Finish(
                Err(CreateContainerError::Logic { message }),
            ) && message@ == "Container config contains no image"@),
            (Some(_), None) => r.0 is Finished && (r.1 matches RecreateAction::Finish(
                Err(CreateContainerError::Logic { message }),
            ) && message@ == "Container config contains no container name"@),
            (Some(image_with_tag), Some(name)) => r.0 matches RecreateState::Pulling(job) && job@
                == (config@, image_with_tag@, name@) && (r.1 matches RecreateAction::Pull {
                image,
                tag,
            } && (image@, match tag {
                Some(t) => Some(t@),
                None => None,
            }) == image_and_tag(image_with_tag@)),
        },
{
    let image_with_tag = match &config.1.image {
        Some(i) => i.clone(),
        None => {
            return (
                RecreateState::Finished,
                RecreateAction::Finish(Err(logic_error("Container config contains no image"))),
            );
        },
    };
    let container_name = match &config.0.name {
        Some(n) => n.clone(),
        None => {
            return (
                RecreateState::Finished,
                RecreateAction::Finish(
                    Err(logic_error("Container config contains no container name")),
                ),
            );
        },
    };
    let (image, tag) = match split_once(image_with_tag.as_str(), ':') {
        None => (image_with_tag.clone(), None),
        Some((image, tag)) => (to_owned_string(image), Some(to_owned_string(tag))),
    };
    let job = RecreateJob { config, image_with_tag, container_name };
    (RecreateState::Pulling(job), RecreateAction::Pull { image, tag })
}

/// One step of (re)creating a container. A failed pull is tolerated when
/// Docker answers for the local image, found or not (404); any other answer
/// ends with the pull's error. An existing container is removed first; note
/// that the container removed is always the proxy's
/// ([`FLOXY_CONTAINER_NAME`]), whatever the job's name. The result is the
/// new container's id; Docker errors end the job with that error.
pub fn re_create_container_step(state: RecreateState, event: RecreateEvent) -> (r: (
    RecreateState,
    RecreateAction,
))
    requires
        recreate_expects(state, event),
    ensures
        (r.1 is Finish) == (r.0 is Finished),
        state matches RecreateState::Pulling(job) ==> match event {
            RecreateEvent::Pulled(Ok(())) => r.0 matches RecreateState::InspectingContainer(j) && j@
                == job@ && (r.1 matches RecreateAction::InspectContainer(n) && n@ == job@.2),
            RecreateEvent::Pulled(Err(e)) => r.0 matches RecreateState::InspectingImage(j, pe) && j@
                == job@ && pe@ == e@ && (r.1 matches RecreateAction::InspectImage(i) && i@
                == job@.1),
            _ => true,
        },
        state matches RecreateState::InspectingImage(job, pull_error) ==> match event {
            RecreateEvent::ImageInspected(LookupOutcome::Failed(_)) => r.1 matches RecreateAction::Finish(
                Err(CreateContainerError::Bollard(m)),
            ) && m@ == pull_error@,
            RecreateEvent::ImageInspected(_) => r.0 matches RecreateState::InspectingContainer(j) && j@
                == job@ && (r.1 matches RecreateAction::InspectContainer(n) && n@ == job@.2),
            _ => true,
        },
        state matches RecreateState::InspectingContainer(job) ==> match event {
            RecreateEvent::ContainerInspected(LookupOutcome::Found) => r.0 matches RecreateState::Removing(j)
                && j@ == job@ && (r.1 matches RecreateAction::RemoveContainer(n) && n@
                == FLOXY_CONTAINER_NAME@),
            RecreateEvent::ContainerInspected(LookupOutcome::NotFound) => r.0 is Creating && (r.1 matches RecreateAction::CreateContainer(
                c,
            ) && c@ == job@.0),
            RecreateEvent::ContainerInspected(LookupOutcome::Failed(e)) => r.1 matches RecreateAction::Finish(
                Err(CreateContainerError::Bollard(m)),
            ) && m@ == e@,
            _ => true,
        },
        state matches RecreateState::Removing(job) ==> match event {
            RecreateEvent::Removed(Ok(())) => r.0 is Creating && (r.1 matches RecreateAction::CreateContainer(
                c,
            ) && c@ == job@.0),
            RecreateEvent::Removed(Err(e)) => r.1 matches RecreateAction::Finish(
                Err(CreateContainerError::Bollard(m)),
            ) && m@ == e@,
            _ => true,
        },
        state is Creating ==> match event {
            RecreateEvent::Created(Ok(id)) => r.1 matches RecreateAction::Finish(Ok(x)) && x@ == id@,
            RecreateEvent::Created(Err(e)) => r.1 matches RecreateAction::Finish(
                Err(CreateContainerError::Bollard(m)),
            ) && m@ == e@,
            _ => true,
        },
{
    let fin = RecreateState::Finished;
    match state {
        RecreateState::Pulling(job) => match event {
            RecreateEvent::Pulled(Ok(())) => {
                let name = job.container_name.clone();
                (RecreateState::InspectingContainer(job), RecreateAction::InspectContainer(name))
            },
            RecreateEvent::Pulled(Err(e)) => {
                let image = job.image_with_tag.clone();
                (RecreateState::InspectingImage(job, e), RecreateAction::InspectImage(image))
            },
            _ => (fin, RecreateAction::Finish(Err(logic_error("")))),
        },
        RecreateState::InspectingImage(job, pull_error) => match event {
            RecreateEvent::ImageInspected(LookupOutcome::Failed(_)) => (
                fin,
                RecreateAction::Finish(Err(CreateContainerError::Bollard(pull_error))),
            ),
            RecreateEvent::ImageInspected(_) => {
                let name = job.container_name.clone();
                (RecreateState::InspectingContainer(job), RecreateAction::InspectContainer(name))
            },
            _ => (fin, RecreateAction::Finish(Err(logic_error("")))),
        },
        RecreateState::InspectingContainer(job) => match event {
            RecreateEvent::ContainerInspected(LookupOutcome::Found) => (
                RecreateState::Removing(job),
                RecreateAction::RemoveContainer(to_owned_string(FLOXY_CONTAINER_NAME)),
            ),
            RecreateEvent::ContainerInspected(LookupOutcome::NotFound) => (
                RecreateState::Creating,
                RecreateAction::CreateContainer(job.config),
            ),
            RecreateEvent::ContainerInspected(LookupOutcome::Failed(e)) => (
                fin,
                RecreateAction::Finish(Err(CreateContainerError::Bollard(e))),
            ),
            _ => (fin, RecreateAction::Finish(Err(logic_error("")))),
        },
        RecreateState::Removing(job) => match event {
            RecreateEvent::Removed(Ok(())) => (
                RecreateState::Creating,
                RecreateAction::CreateContainer(job.config),
            ),
            RecreateEvent::Removed(Err(e)) => (
                fin,
                RecreateAction::Finish(Err(CreateContainerError::Bollard(e))),
            ),
            _ => (fin, RecreateAction::Finish(Err(logic_error("")))),
        },
        RecreateState::Creating => match event {
            RecreateEvent::Created(Ok(id)) => (fin, RecreateAction::Finish(Ok(id))),
            RecreateEvent::Created(Err(e)) => (
                fin,
                RecreateAction::Finish(Err(CreateContainerError::Bollard(e))),
            ),
            _ => (fin, RecreateAction::Finish(Err(logic_error("")))),
        },
        RecreateState::Finished => (fin, RecreateAction::Finish(Err(logic_error("")))),
    }
}

} // verus!
