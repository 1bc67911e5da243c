//! The volumes that the containers share, and the state machine that
//! reuses a volume or creates it.

use crate::docker::container::LookupOutcome;
use crate::text::to_owned_string;
use vstd::prelude::*;

verus! {

/// The tmpfs volume of the proxy's data.
pub const FLOXY_DATA_VOLUME: &'static str = "flecs-floxy_data";

/// The volume of the proxy's certificates.
pub const FLOXY_CERT_VOLUME: &'static str = "flecs-floxy_certs";

/// The tmpfs volume through which the core hands its identity to the collector.
pub const OTEL_CERTS_VOLUME: &'static str = "flecs-otelcol_certs";

/// The volume of the collector's log files.
pub const OTEL_LOGS_VOLUME: &'static str = "flecs-otelcol_logs";

/// A request to create a volume.
#[derive(Debug, Clone, PartialEq, Eq)]
pub struct VolumeCreateRequest {
    pub name: Option<String>,
    pub driver: Option<String>,
    pub driver_opts: Option<Vec<(String, String)>>,
}

/// [`VolumeCreateRequest`] as plain values: name, driver, driver options.
pub type VolumeCreateRequestView = (
    Option<Seq<char>>,
    Option<Seq<char>>,
    Option<Seq<(Seq<char>, Seq<char>)>>,
);

impl View for VolumeCreateRequest {
    type V = VolumeCreateRequestView;

    open spec fn view(&self) -> VolumeCreateRequestView {
        (
            match self.name {
                Some(n) => Some(n@),
                None => None,
            },
            match self.driver {
                Some(d) => Some(d@),
                None => None,
            },
            match self.driver_opts {
                Some(o) => Some(o@.map_values(|p: (String, String)| (p.0@, p.1@))),
                None => None,
            },
        )
    }
}

/// A local tmpfs volume named `name` of at most `size` (`size=` option).
pub open spec fn tmpfs_request_view(name: Seq<char>, size: Seq<char>) -> VolumeCreateRequestView {
    (
        Some(name),
        Some("local"@),
        Some(seq![("type"@, "tmpfs"@), ("device"@, "tmpfs"@), ("o"@, "size="@ + size)]),
    )
}

/// Where [`volume_setup_step`] stands.
pub enum VolumeSetupState {
    /// Waiting for Docker's answer about the volume to be created by this
    /// request.
    Inspecting(VolumeCreateRequest),
    /// Waiting for the volume to be created.
    Creating,
    /// Done; the last action carried the result.
    Finished,
}

/// The outcome of an action of [`volume_setup_step`].
#[derive(Debug, PartialEq, Eq)]
pub enum VolumeSetupEvent {
    Inspected(LookupOutcome),
    /// The outcome of creating the volume, an error by its message.
    Created(Result<(), String>),
}

/// What the driver does next for [`volume_setup_step`].
#[derive(Debug)]
pub enum VolumeSetupAction {
    /// Ask Docker for the volume with this name.
    InspectVolume(String),
    CreateVolume(VolumeCreateRequest),
    /// The result, an error by its message.
    Finish(Result<(), String>),
}

/// Starts making sure that the volume `name` exists: ask Docker for it,
/// keeping `request` for when it does not.
fn volume_setup(name: &str, request: VolumeCreateRequest) -> (r: (VolumeSetupState, VolumeSetupAction))
    ensures
        r.0 matches VolumeSetupState::Inspecting(req) && req@ == request@,
        r.1 matches VolumeSetupAction::InspectVolume(n) && n@ == name@,
{
    (VolumeSetupState::Inspecting(request), VolumeSetupAction::InspectVolume(to_owned_string(name)))
}

/// Starts making sure that the tmpfs volume `name` of at most `size`
/// exists.
pub fn create_tmpfs_volume(name: &str, size: &str) -> (r: (VolumeSetupState, VolumeSetupAction))
    ensures
        r.0 matches VolumeSetupState::Inspecting(req) && req@ == tmpfs_request_view(name@, size@),
        r.1 matches VolumeSetupAction::InspectVolume(n) && n@ == name@,
{
    let mut o = to_owned_string("size=");
    o.append(size);
    let mut opts: Vec<(String, String)> = Vec::new();
    opts.push((to_owned_string("type"), to_owned_string("tmpfs")));
    opts.push((to_owned_string("device"), to_owned_string("tmpfs")));
    opts.push((to_owned_string("o"), o));
    let ghost opts_v = opts@;
    let request = VolumeCreateRequest {
        name: Some(to_owned_string(name)),
        driver: Some(to_owned_string("local")),
        driver_opts: Some(opts),
    };
    proof {
        assert(opts_v.map_values(|p: (String, String)| (p.0@, p.1@)) == seq![
            ("type"@, "tmpfs"@),
            ("device"@, "tmpfs"@),
            ("o"@, "size="@ + size@),
        ]);
    }
    volume_setup(name, request)
}

/// Starts making sure that the proxy's 4 MiB tmpfs data volume exists.
pub fn create_floxy_data_volume() -> (r: (VolumeSetupState, VolumeSetupAction))
    ensures
        r.0 matches VolumeSetupState::Inspecting(req) && req@ == tmpfs_request_view(
            FLOXY_DATA_VOLUME@,
            "4m"@,
        ),
        r.1 matches VolumeSetupAction::InspectVolume(n) && n@ == FLOXY_DATA_VOLUME@,
{
    create_tmpfs_volume(FLOXY_DATA_VOLUME, "4m")
}

/// Starts making sure that the 1 MiB tmpfs certificate volume shared by
/// the core and the collector exists.
pub fn create_otel_certs_volume() -> (r: (VolumeSetupState, VolumeSetupAction))
    ensures
        r.0 matches VolumeSetupState::Inspecting(req) && req@ == tmpfs_request_view(
            OTEL_CERTS_VOLUME@,
            "1m"@,
        ),
        r.1 matches VolumeSetupAction::InspectVolume(n) && n@ == OTEL_CERTS_VOLUME@,
{
    create_tmpfs_volume(OTEL_CERTS_VOLUME, "1m")
}

/// Starts making sure that the collector's log volume, a plain local
/// volume, exists.
pub fn create_otel_logs_volume() -> (r: (VolumeSetupState, VolumeSetupAction))
    ensures
        r.0 matches VolumeSetupState::Inspecting(req) && req@ == (
            Some(OTEL_LOGS_VOLUME@),
            Some("local"@),
            None::<Seq<(Seq<char>, Seq<char>)>>,
        ),
        r.1 matches VolumeSetupAction::InspectVolume(n) && n@ == OTEL_LOGS_VOLUME@,
{
    let request = VolumeCreateRequest {
        name: Some(to_owned_string(OTEL_LOGS_VOLUME)),
        driver: Some(to_owned_string("local")),
        driver_opts: None,
    };
    volume_setup(OTEL_LOGS_VOLUME, request)
}

/// Whether `event` answers the action that led to `state`.
pub open spec fn volume_setup_expects(state: VolumeSetupState, event: VolumeSetupEvent) -> bool {
    match state {
        VolumeSetupState::Inspecting(_) => event is Inspected,
        VolumeSetupState::Creating => event is Created,
        VolumeSetupState::Finished => false,
    }
}

impl VolumeSetupState {
    /// Whether `event` answers the action that led to this state.
    pub fn expects(&self, event: &VolumeSetupEvent) -> (r: bool)
        ensures
            r == volume_setup_expects(*self, *event),
    {
        match self {
            VolumeSetupState::Inspecting(_) => matches!(event, VolumeSetupEvent::Inspected(_)),
            VolumeSetupState::Creating => matches!(event, VolumeSetupEvent::Created(_)),
            VolumeSetupState::Finished => false,
        }
    }
}

/// One step of making sure that a volume exists: an existing volume is
/// reused, a missing one (404) is created with the kept request, and any
/// other Docker error ends with that error.
pub fn volume_setup_step(state: VolumeSetupState, event: VolumeSetupEvent) -> (r: (
    VolumeSetupState,
    VolumeSetupAction,
))
    requires
        volume_setup_expects(state, event),
    ensures
        (r.1 is Finish) == (r.0 is Finished),
        state matches VolumeSetupState::Inspecting(request) ==> match event {
            VolumeSetupEvent::Inspected(LookupOutcome::Found) => r.1 matches VolumeSetupAction::Finish(
                Ok(()),
            ),
            VolumeSetupEvent::Inspected(LookupOutcome::NotFound) => r.0 is Creating && (r.1 matches VolumeSetupAction::CreateVolume(
                req,
            ) && req@ == request@),
            VolumeSetupEvent::Inspected(LookupOutcome::Failed(e)) => r.1 matches VolumeSetupAction::Finish(
                Err(m),
            ) && m@ == e@,
            _ => true,
        },
        state is Creating ==> match event {
            VolumeSetupEvent::Created(Ok(())) => r.1 matches VolumeSetupAction::Finish(Ok(())),
            VolumeSetupEvent::Created(Err(e)) => r.1 matches VolumeSetupAction::Finish(Err(m)) && m@
                == e@,
            _ => true,
        },
{
    let fin = VolumeSetupState::Finished;
    match state {
        VolumeSetupState::Inspecting(request) => match event {
            VolumeSetupEvent::Inspected(LookupOutcome::Found) => (fin, VolumeSetupAction::Finish(Ok(()))),
            VolumeSetupEvent::Inspected(LookupOutcome::NotFound) => (
                VolumeSetupState::Creating,
                VolumeSetupAction::CreateVolume(request),
            ),
            VolumeSetupEvent::Inspected(LookupOutcome::Failed(e)) => (
                fin,
                VolumeSetupAction::Finish(Err(e)),
            ),
            _ => (fin, VolumeSetupAction::Finish(Ok(()))),
        },
        VolumeSetupState::Creating => match event {
            VolumeSetupEvent::Created(Ok(())) => (fin, VolumeSetupAction::Finish(Ok(()))),
            VolumeSetupEvent::Created(Err(e)) => (fin, VolumeSetupAction::Finish(Err(e))),
            _ => (fin, VolumeSetupAction::Finish(Ok(()))),
        },
        VolumeSetupState::Finished => (fin, VolumeSetupAction::Finish(Ok(()))),
    }
}

} // verus!
