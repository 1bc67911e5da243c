//! The configurations of the containers: image, mounts, environment,
//! networking. They are built from a few inputs and from the values of
//! environment variables, which the driver reads and hands over.

use crate::docker::container::{
    CORE_CONTAINER_NAME, CORE_VOLUME, FLOXY_CONTAINER_NAME, OTEL_CONTAINER_NAME,
    WEBAPP_CONTAINER_NAME,
};
use crate::docker::network::FLECS_NETWORK_NAME;
use crate::docker::volume::{
    FLOXY_CERT_VOLUME, FLOXY_DATA_VOLUME, OTEL_CERTS_VOLUME, OTEL_LOGS_VOLUME,
};
use crate::net::{ipv4_text, Ipv4Addr};
use crate::text::{decimal, push_char, push_decimal, to_owned_string};
use vstd::prelude::*;

verus! {

/// The registry of the flecs images.
pub const CONTAINER_REGISTRY: &'static str = "cr.flecs.tech";

/// The image of the core.
pub const CORE_IMAGE: &'static str = "flecs/flecs-core";

/// The tag of the core image when `VERSION_CORE` is not set.
pub const CORE_VERSION: &'static str = "latest";

/// The variable that overrides the core's image tag.
pub const CORE_VERSION_ENV: &'static str = "VERSION_CORE";

/// The image of the proxy.
pub const FLOXY_IMAGE: &'static str = "flecs/floxy";

/// The tag of the proxy image.
pub const FLOXY_VERSION: &'static str = "0";

/// The image of the web app.
pub const WEBAPP_IMAGE: &'static str = "flecs/webapp";

/// The tag of the web app image when `VERSION_WEBAPP` is not set.
pub const WEBAPP_VERSION: &'static str = "latest";

/// The variable that overrides the web app's image tag.
pub const WEBAPP_VERSION_ENV: &'static str = "VERSION_WEBAPP";

/// The variable whose value is appended to the web app's image tag.
pub const WHITELABEL_ENV: &'static str = "WHITELABEL";

/// The variable with extra `KEY=value` pairs for the core.
pub const CORE_ENV_VAR: &'static str = "FILIP_CORE_ENV";

/// The variable with extra `KEY=value` pairs for the proxy.
pub const FLOXY_ENV_VAR: &'static str = "FILIP_FLOXY_ENV";

/// The variable with extra `KEY=value` pairs for the web app.
pub const WEBAPP_ENV_VAR: &'static str = "FILIP_WEBAPP_ENV";

/// The image of the OpenTelemetry collector.
pub const OTEL_IMAGE: &'static str = "flecs/otel-collector";

/// The tag of the collector image when `VERSION_OTEL_COLLECTOR` is not set.
pub const OTEL_VERSION_DEFAULT: &'static str = "0";

/// The variable that asks for the collector (`1`).
pub const OTEL_INSTALL_ENV: &'static str = "INSTALL_OTEL_COLLECTOR";

/// The variable that declines the web app (`0`).
pub const WEBAPP_INSTALL_ENV: &'static str = "INSTALL_WEBAPP";

/// The variable that overrides the collector's image tag.
pub const OTEL_VERSION_ENV: &'static str = "VERSION_OTEL_COLLECTOR";

/// The variable with the collector's export destination.
pub const OTEL_EXPORT_DESTINATION_ENV: &'static str = "OTEL_EXPORT_DESTINATION";

/// The collector's variable for its upstream endpoint.
pub const OTEL_UPSTREAM_ENDPOINT_ENV: &'static str = "OTLP_UPSTREAM_ENDPOINT";

/// The collector's OTLP/HTTP port.
pub const OTEL_HTTP_PORT: u16 = 4318;

/// Path inside the otel-collector container its exporter reads the device's
/// mTLS identity from (client.pem/client.key), matching its baked-in config.
pub const OTEL_CERTS_MOUNT_TARGET_COLLECTOR: &'static str = "/etc/otelcol/certs";

/// Where the collector's `file` log exporter writes its rotating backups.
pub const OTEL_LOGS_MOUNT_TARGET: &'static str = "/var/log/otelcol";

/// Path inside the core container flecsd is told (via
/// `FLECS_CORE_SECRET_EXPORT_PATH`) to export its mTLS identity to, so it
/// ends up on the volume shared with the otel-collector.
pub const OTEL_CERTS_MOUNT_TARGET_CORE: &'static str = "/etc/flecs/otel-certs";

/// The core's variable for where it exports its identity.
pub const CORE_SECRET_EXPORT_PATH_ENV: &'static str = "FLECS_CORE_SECRET_EXPORT_PATH";

/// The core's variable for the collector's OTLP/HTTP endpoint.
pub const CORE_OTEL_HTTP_COLLECTOR_ENDPOINT_ENV: &'static str = "FLECS_CORE_OTEL_HTTP_COLLECTOR_ENDPOINT";

/// State of the scanner behind [`parse_env_pairs`]: the pairs finished so
/// far, the pair being read, and whether the previous character was an
/// unconsumed backslash.
pub type EnvScan = (Seq<Seq<char>>, Seq<char>, bool);

/// One character of the scan: a backslash escapes the next character, an
/// unescaped space ends the current pair (empty pairs are dropped).
pub open spec fn env_scan_step(st: EnvScan, c: char) -> EnvScan {
    if st.2 {
        (st.0, st.1.push(c), false)
    } else if c == '\\' {
        (st.0, st.1, true)
    } else if c == ' ' {
        if st.1.len() > 0 {
            (st.0.push(st.1), Seq::empty(), false)
        } else {
            st
        }
    } else {
        (st.0, st.1.push(c), false)
    }
}

/// The scan over a whole sequence of characters, from state `st`.
pub open spec fn env_scan(st: EnvScan, s: Seq<char>) -> EnvScan
    decreases s.len(),
{
    if s.len() == 0 {
        st
    } else {
        env_scan_step(env_scan(st, s.drop_last()), s.last())
    }
}

/// End of input: a dangling backslash is kept literally, and a non-empty
/// pending pair is emitted.
pub open spec fn env_scan_finish(st: EnvScan) -> Seq<Seq<char>> {
    let cur = if st.2 { st.1.push('\\') } else { st.1 };
    if cur.len() > 0 { st.0.push(cur) } else { st.0 }
}

/// The `KEY=value` pairs of a space-separated list with backslash escapes.
pub open spec fn env_pairs(s: Seq<char>) -> Seq<Seq<char>> {
    env_scan_finish(env_scan((Seq::empty(), Seq::empty(), false), s))
}

/// The text that [`parse_env_pairs`] reads back as the single value `v`:
/// every backslash and space in `v` is preceded by a backslash.
pub open spec fn env_escape(v: Seq<char>) -> Seq<char>
    decreases v.len(),
{
    if v.len() == 0 {
        Seq::empty()
    } else {
        let c = v.last();
        env_escape(v.drop_last()) + if c == '\\' || c == ' ' {
            seq!['\\', c]
        } else {
            seq![c]
        }
    }
}

/// The escaped values, separated by single spaces.
pub open spec fn env_join(vs: Seq<Seq<char>>) -> Seq<char>
    decreases vs.len(),
{
    if vs.len() == 0 {
        Seq::empty()
    } else if vs.len() == 1 {
        env_escape(vs[0])
    } else {
        env_join(vs.drop_last()) + seq![' '] + env_escape(vs.last())
    }
}

proof fn lemma_env_scan_append(st: EnvScan, p: Seq<char>, q: Seq<char>)
    ensures
        env_scan(st, p + q) == env_scan(env_scan(st, p), q),
    decreases q.len(),
{
    if q.len() == 0 {
        assert(p + q == p);
    } else {
        lemma_env_scan_append(st, p, q.drop_last());
        assert((p + q).drop_last() == p + q.drop_last());
        assert((p + q).last() == q.last());
    }
}

proof fn lemma_env_scan_one(st: EnvScan, c: char)
    ensures
        env_scan(st, seq![c]) == env_scan_step(st, c),
{
    let one = seq![c];
    assert(one.drop_last() == Seq::<char>::empty());
    assert(one.last() == c);
    assert(env_scan(st, one.drop_last()) == st);
}

proof fn lemma_env_scan_escape(done: Seq<Seq<char>>, cur: Seq<char>, v: Seq<char>)
    ensures
        env_scan((done, cur, false), env_escape(v)) == (done, cur + v, false),
    decreases v.len(),
{
    if v.len() == 0 {
        assert(cur + v == cur);
    } else {
        let c = v.last();
        let w = v.drop_last();
        lemma_env_scan_escape(done, cur, w);
        let st0: EnvScan = (done, cur + w, false);
        if c == '\\' || c == ' ' {
            let tail = seq!['\\', c];
            lemma_env_scan_append((done, cur, false), env_escape(w), tail);
            assert(tail.drop_last() == seq!['\\']);
            assert(seq!['\\'].drop_last() == Seq::<char>::empty());
            lemma_env_scan_one(st0, '\\');
            assert(tail.last() == c);
            assert(env_scan(st0, tail) == env_scan_step(env_scan(st0, seq!['\\']), c));
        } else {
            let tail = seq![c];
            lemma_env_scan_append((done, cur, false), env_escape(w), tail);
            assert(tail.drop_last() == Seq::<char>::empty());
            lemma_env_scan_one(st0, c);
        }
        assert((cur + w).push(c) == cur + v);
    }
}

proof fn lemma_env_scan_join(vs: Seq<Seq<char>>)
    requires
        vs.len() > 0,
        forall|i: int| 0 <= i < vs.len() ==> #[trigger] vs[i].len() > 0,
    ensures
        env_scan((Seq::empty(), Seq::empty(), false), env_join(vs)) == (
            vs.drop_last(),
            vs.last(),
            false,
        ),
    decreases vs.len(),
{
    let init: EnvScan = (Seq::empty(), Seq::empty(), false);
    if vs.len() == 1 {
        lemma_env_scan_escape(Seq::empty(), Seq::empty(), vs[0]);
        assert(Seq::<char>::empty() + vs[0] == vs[0]);
        assert(vs.drop_last() == Seq::<Seq<char>>::empty());
    } else {
        let ws = vs.drop_last();
        assert forall|i: int| 0 <= i < ws.len() implies #[trigger] ws[i].len() > 0 by {
            assert(ws[i] == vs[i]);
        }
        lemma_env_scan_join(ws);
        let st1 = env_scan(init, env_join(ws));
        assert(st1 == (ws.drop_last(), ws.last(), false));
        assert(ws[ws.len() - 1].len() > 0);
        assert(seq![' '].drop_last() == Seq::<char>::empty());
        lemma_env_scan_one(st1, ' ');
        assert(ws.drop_last().push(ws.last()) == ws);
        let st2 = env_scan(st1, seq![' ']);
        assert(st2 == (ws, Seq::<char>::empty(), false));
        assert(env_join(vs) == env_join(ws) + seq![' '] + env_escape(vs.last()));
        lemma_env_scan_append(init, env_join(ws) + seq![' '], env_escape(vs.last()));
        lemma_env_scan_append(init, env_join(ws), seq![' ']);
        lemma_env_scan_escape(ws, Seq::empty(), vs.last());
        assert(Seq::<char>::empty() + vs.last() == vs.last());
    }
}

/// Escaping non-empty values and joining them with spaces is undone by
/// [`parse_env_pairs`]: spaces and backslashes inside values survive.
pub proof fn law_env_pairs_round_trip(vs: Seq<Seq<char>>)
    requires
        forall|i: int| 0 <= i < vs.len() ==> #[trigger] vs[i].len() > 0,
    ensures
        env_pairs(env_join(vs)) == vs,
{
    if vs.len() == 0 {
        assert(vs == Seq::<Seq<char>>::empty());
    } else {
        lemma_env_scan_join(vs);
        assert(vs[vs.len() - 1].len() > 0);
        assert(vs.drop_last().push(vs.last()) == vs);
    }
}

proof fn lemma_env_scan_nonempty(s: Seq<char>)
    ensures
        forall|i: int|
            0 <= i < env_scan((Seq::empty(), Seq::empty(), false), s).0.len()
                ==> #[trigger] env_scan((Seq::empty(), Seq::empty(), false), s).0[i].len() > 0,
    decreases s.len(),
{
    let init: EnvScan = (Seq::empty(), Seq::empty(), false);
    if s.len() > 0 {
        lemma_env_scan_nonempty(s.drop_last());
        let st = env_scan(init, s.drop_last());
        let nx = env_scan(init, s);
        assert(nx == env_scan_step(st, s.last()));
        assert forall|i: int| 0 <= i < nx.0.len() implies #[trigger] nx.0[i].len() > 0 by {
            if i < st.0.len() {
                assert(nx.0[i] == st.0[i]);
            }
        }
    }
}

/// No pair that [`parse_env_pairs`] returns is empty.
pub proof fn law_env_pairs_nonempty(s: Seq<char>)
    ensures
        forall|i: int| 0 <= i < env_pairs(s).len() ==> #[trigger] env_pairs(s)[i].len() > 0,
{
    lemma_env_scan_nonempty(s);
}

/// Splits `s` at unescaped spaces into `KEY=value` pairs; `\` escapes the
/// character after it (so `\ ` is a space inside a value and `\\` a
/// backslash), a trailing lone `\` is kept, and runs of spaces yield no
/// empty pairs.
pub fn parse_env_pairs(s: &str) -> (pairs: Vec<String>)
    ensures
        pairs@.map_values(|p: String| p@) == env_pairs(s@),
{
    let mut result: Vec<String> = Vec::new();
    let mut current = String::new();
    let mut escaped = false;
    let n = s.unicode_len();
    let mut i: usize = 0;
    while i < n
        invariant
            n == s@.len(),
            i <= n,
            (result@.map_values(|p: String| p@), current@, escaped) == env_scan(
                (Seq::empty(), Seq::empty(), false),
                s@.take(i as int),
            ),
        decreases n - i,
    {
        let c = s.get_char(i);
        proof {
            assert(s@.take(i + 1).drop_last() == s@.take(i as int));
        }
        if escaped {
            push_char(&mut current, c);
            escaped = false;
        } else if c == '\\' {
            escaped = true;
        } else if c == ' ' {
            if !current.as_str().is_empty() {
                let ghost before = result@;
                result.push(current);
                current = String::new();
                proof {
                    assert(result@.map_values(|p: String| p@) == before.map_values(
                        |p: String| p@,
                    ).push(result@.last()@));
                }
            }
        } else {
            push_char(&mut current, c);
        }
        i = i + 1;
    }
    proof {
        assert(s@.take(n as int) == s@);
    }
    if escaped {
        push_char(&mut current, '\\');
    }
    if !current.as_str().is_empty() {
        let ghost before = result@;
        result.push(current);
        proof {
            assert(result@.map_values(|p: String| p@) == before.map_values(|p: String| p@).push(
                result@.last()@,
            ));
        }
    }
    result
}

/// Whether two strings are equal.
fn str_eq(a: &str, b: &str) -> (r: bool)
    ensures
        r == (a@ == b@),
{
    let n = a.unicode_len();
    if n != b.unicode_len() {
        return false;
    }
    let mut i: usize = 0;
    while i < n
        invariant
            n == a@.len(),
            n == b@.len(),
            i <= n,
            forall|j: int| 0 <= j < i ==> a@[j] == b@[j],
        decreases n - i,
    {
        if a.get_char(i) != b.get_char(i) {
            return false;
        }
        i = i + 1;
    }
    proof {
        assert(a@ == b@);
    }
    true
}

/// Whether the OpenTelemetry collector should be installed, from the value
/// of `INSTALL_OTEL_COLLECTOR`: only `1` asks for it.
pub fn otel_install_requested(value: Option<&str>) -> (r: bool)
    ensures
        r == (value matches Some(v) && v@ == "1"@),
{
    match value {
        Some(v) => str_eq(v, "1"),
        None => false,
    }
}

/// Whether the web app should be installed, from the value of
/// `INSTALL_WEBAPP`: it is, unless the value is `0`.
pub fn webapp_install_requested(value: Option<&str>) -> (r: bool)
    ensures
        r == !(value matches Some(v) && v@ == "0"@),
{
    match value {
        Some(v) => !str_eq(v, "0"),
        None => true,
    }
}

/// The values of the environment variables that the configurations read
/// (`None` for a variable that is not set).
#[derive(Debug, Clone, PartialEq, Eq, Default)]
pub struct ContainerEnv {
    /// `VERSION_CORE`
    pub core_version: Option<String>,
    /// `FILIP_CORE_ENV`
    pub core_env: Option<String>,
    /// `FILIP_FLOXY_ENV`
    pub floxy_env: Option<String>,
    /// `VERSION_OTEL_COLLECTOR`
    pub otel_version: Option<String>,
    /// `OTEL_EXPORT_DESTINATION`
    pub otel_export_destination: Option<String>,
    /// `VERSION_WEBAPP`
    pub webapp_version: Option<String>,
    /// `FILIP_WEBAPP_ENV`
    pub webapp_env: Option<String>,
    /// `WHITELABEL`
    pub whitelabel: Option<String>,
}

/// An optional string as characters.
pub open spec fn opt_chars(s: Option<String>) -> Option<Seq<char>> {
    match s {
        Some(t) => Some(t@),
        None => None,
    }
}

/// Strings as characters.
pub open spec fn strings_view(v: Seq<String>) -> Seq<Seq<char>> {
    v.map_values(|s: String| s@)
}

/// The pairs of an optional `KEY=value` list.
pub open spec fn opt_env_pairs(s: Option<String>) -> Seq<Seq<char>> {
    match s {
        Some(p) => env_pairs(p@),
        None => Seq::empty(),
    }
}

/// The kind of a mount.
#[derive(Debug, Clone, Copy, PartialEq, Eq, Structural)]
pub enum MountType {
    Bind,
    Volume,
}

/// A mount of a container.
#[derive(Debug, Clone, PartialEq, Eq)]
pub struct Mount {
    pub typ: Option<MountType>,
    pub source: Option<String>,
    pub target: Option<String>,
    pub read_only: Option<bool>,
}

/// [`Mount`] as plain values.
pub struct MountView {
    pub typ: Option<MountType>,
    pub source: Option<Seq<char>>,
    pub target: Option<Seq<char>>,
    pub read_only: Option<bool>,
}

impl View for Mount {
    type V = MountView;

    open spec fn view(&self) -> MountView {
        MountView {
            typ: self.typ,
            source: opt_chars(self.source),
            target: opt_chars(self.target),
            read_only: self.read_only,
        }
    }
}

/// What the restart policy names.
#[derive(Debug, Clone, Copy, PartialEq, Eq, Structural)]
pub enum RestartPolicyName {
    Empty,
    No,
    Always,
    UnlessStopped,
    OnFailure,
}

/// When Docker restarts a container.
#[derive(Debug, Clone, Copy, PartialEq, Eq, Structural)]
pub struct RestartPolicy {
    pub maximum_retry_count: Option<i64>,
    pub name: Option<RestartPolicyName>,
}

/// A host address and port that a container port is published on.
#[derive(Debug, Clone, PartialEq, Eq)]
pub struct PortBinding {
    pub host_ip: Option<String>,
    pub host_port: Option<String>,
}

/// Published ports as plain values: each container port (such as
/// `80/tcp`) with the host addresses and ports it is bound to.
pub type PortMapView = Seq<(Seq<char>, Option<Seq<(Option<Seq<char>>, Option<Seq<char>>)>>)>;

/// [`PortBinding`] as plain values: host address and host port.
pub open spec fn port_binding_view(b: PortBinding) -> (Option<Seq<char>>, Option<Seq<char>>) {
    (opt_chars(b.host_ip), opt_chars(b.host_port))
}

/// Published ports, each container port with its bindings, as plain values.
pub open spec fn port_map_view(m: Seq<(String, Option<Vec<PortBinding>>)>) -> PortMapView {
    m.map_values(
        |e: (String, Option<Vec<PortBinding>>)|
            (
                e.0@,
                match e.1 {
                    Some(v) => Some(v@.map_values(|b: PortBinding| port_binding_view(b))),
                    None => None,
                },
            ),
    )
}

/// The host side of a container's configuration.
#[derive(Debug, Clone, PartialEq, Eq)]
pub struct HostConfig {
    pub network_mode: Option<String>,
    pub mounts: Option<Vec<Mount>>,
    pub restart_policy: Option<RestartPolicy>,
    pub extra_hosts: Option<Vec<String>>,
    /// The container ports published on the host.
    pub port_bindings: Option<Vec<(String, Option<Vec<PortBinding>>)>>,
}

/// [`HostConfig`] as plain values.
pub struct HostConfigView {
    pub network_mode: Option<Seq<char>>,
    pub mounts: Option<Seq<MountView>>,
    pub restart_policy: Option<RestartPolicy>,
    pub extra_hosts: Option<Seq<Seq<char>>>,
    pub port_bindings: Option<PortMapView>,
}

impl View for HostConfig {
    type V = HostConfigView;

    open spec fn view(&self) -> HostConfigView {
        HostConfigView {
            network_mode: opt_chars(self.network_mode),
            mounts: match self.mounts {
                Some(m) => Some(m@.map_values(|x: Mount| x@)),
                None => None,
            },
            restart_policy: self.restart_policy,
            extra_hosts: match self.extra_hosts {
                Some(h) => Some(strings_view(h@)),
                None => None,
            },
            port_bindings: match self.port_bindings {
                Some(m) => Some(port_map_view(m@)),
                None => None,
            },
        }
    }
}

/// The settings of a container in one network: its static address.
#[derive(Debug, Clone, PartialEq, Eq)]
pub struct EndpointSettings {
    pub ipv4_address: Option<String>,
}

/// The networks a container joins, by name.
#[derive(Debug, Clone, PartialEq, Eq)]
pub struct NetworkingConfig {
    pub endpoints_config: Option<Vec<(String, EndpointSettings)>>,
}

/// [`NetworkingConfig`] as plain values: network names and addresses.
pub open spec fn networking_view(n: NetworkingConfig) -> Option<Seq<(Seq<char>, Option<Seq<char>>)>> {
    match n.endpoints_config {
        Some(e) => Some(
            e@.map_values(|x: (String, EndpointSettings)| (x.0@, opt_chars(x.1.ipv4_address))),
        ),
        None => None,
    }
}

/// The container side of a container's configuration.
#[derive(Debug, Clone, PartialEq, Eq)]
pub struct ContainerCreateBody {
    pub image: Option<String>,
    pub hostname: Option<String>,
    pub host_config: Option<HostConfig>,
    pub env: Option<Vec<String>>,
    /// The container ports exposed without publishing them.
    pub exposed_ports: Option<Vec<String>>,
    pub networking_config: Option<NetworkingConfig>,
}

/// [`ContainerCreateBody`] as plain values.
pub struct ContainerCreateBodyView {
    pub image: Option<Seq<char>>,
    pub hostname: Option<Seq<char>>,
    pub host_config: Option<HostConfigView>,
    pub env: Option<Seq<Seq<char>>>,
    pub exposed_ports: Option<Seq<Seq<char>>>,
    pub networking_config: Option<Option<Seq<(Seq<char>, Option<Seq<char>>)>>>,
}

impl View for ContainerCreateBody {
    type V = ContainerCreateBodyView;

    open spec fn view(&self) -> ContainerCreateBodyView {
        ContainerCreateBodyView {
            image: opt_chars(self.image),
            hostname: opt_chars(self.hostname),
            host_config: match self.host_config {
                Some(h) => Some(h@),
                None => None,
            },
            env: match self.env {
                Some(e) => Some(strings_view(e@)),
                None => None,
            },
            exposed_ports: match self.exposed_ports {
                Some(p) => Some(strings_view(p@)),
                None => None,
            },
            networking_config: match self.networking_config {
                Some(n) => Some(networking_view(n)),
                None => None,
            },
        }
    }
}

/// The options of creating a container: its name.
#[derive(Debug, Clone, PartialEq, Eq)]
pub struct CreateContainerOptions {
    pub name: Option<String>,
}

impl View for CreateContainerOptions {
    type V = Option<Seq<char>>;

    open spec fn view(&self) -> Option<Seq<char>> {
        opt_chars(self.name)
    }
}

/// A container's name options and body.
pub type ContainerConfig = (CreateContainerOptions, ContainerCreateBody);

/// A mount without read-only flag.
pub open spec fn mount_view(typ: MountType, source: Seq<char>, target: Seq<char>) -> MountView {
    MountView { typ: Some(typ), source: Some(source), target: Some(target), read_only: None }
}

/// Restart on failure, with no retry limit given (`0`).
pub open spec fn on_failure_policy() -> RestartPolicy {
    RestartPolicy { maximum_retry_count: Some(0), name: Some(RestartPolicyName::OnFailure) }
}

/// A host configuration with only the given parts set (no published ports).
pub open spec fn host_view(
    network_mode: Option<Seq<char>>,
    mounts: Option<Seq<MountView>>,
    restart_policy: Option<RestartPolicy>,
    extra_hosts: Option<Seq<Seq<char>>>,
) -> HostConfigView {
    HostConfigView { network_mode, mounts, restart_policy, extra_hosts, port_bindings: None }
}

/// The image reference `registry/image:tag`.
pub open spec fn image_ref(image: Seq<char>, tag: Seq<char>) -> Seq<char> {
    CONTAINER_REGISTRY@ + "/"@ + image + ":"@ + tag
}

/// `network` with the static address `ip`, the only network joined.
pub open spec fn single_endpoint(ip: u32) -> Option<Option<Seq<(Seq<char>, Option<Seq<char>>)>>> {
    Some(Some(seq![(FLECS_NETWORK_NAME@, Some(ipv4_text(ip)))]))
}

/// A mount of the given kind, source and target.
fn mount(typ: MountType, source: &str, target: &str) -> (m: Mount)
    ensures
        m@ == mount_view(typ, source@, target@),
{
    Mount {
        typ: Some(typ),
        source: Some(to_owned_string(source)),
        target: Some(to_owned_string(target)),
        read_only: None,
    }
}

/// `registry/image:tag`.
fn image_string(image: &str, tag: &str) -> (s: String)
    ensures
        s@ == image_ref(image@, tag@),
{
    let mut s = to_owned_string(CONTAINER_REGISTRY);
    s.append("/");
    s.append(image);
    s.append(":");
    s.append(tag);
    s
}

/// `KEY=` followed by the decimal numeral of `n`.
fn key_number(key: &str, n: u64) -> (s: String)
    ensures
        s@ == key@ + "="@ + decimal(n as nat),
{
    let mut s = to_owned_string(key);
    s.append("=");
    push_decimal(&mut s, n);
    s
}

/// `KEY=` followed by the dotted-decimal notation of `ip`.
fn key_address(key: &str, ip: &Ipv4Addr) -> (s: String)
    ensures
        s@ == key@ + "="@ + ipv4_text(ip@),
{
    let mut s = to_owned_string(key);
    s.append("=");
    ip.push_text(&mut s);
    s
}

/// Appends the pairs of an optional `KEY=value` list.
fn extend_with_pairs(env: &mut Vec<String>, pairs: &Option<String>)
    ensures
        strings_view(final(env)@) == strings_view(old(env)@) + opt_env_pairs(*pairs),
{
    match pairs {
        Some(p) => {
            let extra = parse_env_pairs(p.as_str());
            let ghost start = env@;
            let n = extra.len();
            let mut i: usize = 0;
            let mut extra = extra;
            let ghost all = extra@;
            while i < n
                invariant
                    n == all.len(),
                    i <= n,
                    extra@ == all,
                    strings_view(all) == env_pairs(p@),
                    strings_view(env@) == strings_view(start) + strings_view(all).take(i as int),
                decreases n - i,
            {
                let s = extra[i].clone();
                let ghost before = env@;
                env.push(s);
                proof {
                    assert(strings_view(env@) == strings_view(before).push(all[i as int]@));
                    assert(strings_view(all).take(i + 1) == strings_view(all).take(i as int).push(
                        all[i as int]@,
                    ));
                    assert(strings_view(env@) == strings_view(start) + strings_view(all).take(i + 1));
                }
                i = i + 1;
            }
            proof {
                assert(strings_view(all).take(n as int) == strings_view(all));
            }
        },
        None => {
            proof {
                assert(strings_view(env@) + Seq::<Seq<char>>::empty() == strings_view(env@));
            }
        },
    }
}

/// The configuration of the proxy: host networking, its certificate and
/// data volumes, restart on failure, and the ports and gateway it serves
/// as variables, followed by the pairs of `FILIP_FLOXY_ENV`.
pub open spec fn floxy_config_view(http_port: u16, https_port: u16, gateway: u32, env: ContainerEnv) -> (
    Option<Seq<char>>,
    ContainerCreateBodyView,
) {
    (
        Some(FLOXY_CONTAINER_NAME@),
        ContainerCreateBodyView {
            image: Some(image_ref(FLOXY_IMAGE@, FLOXY_VERSION@)),
            hostname: Some(FLOXY_CONTAINER_NAME@),
            host_config: Some(
                host_view(
                    Some("host"@),
                    Some(
                        seq![
                            mount_view(MountType::Volume, FLOXY_CERT_VOLUME@, "/etc/nginx/certs"@),
                            mount_view(MountType::Volume, FLOXY_DATA_VOLUME@, "/tmp/floxy"@),
                        ],
                    ),
                    Some(on_failure_policy()),
                    None,
                ),
            ),
            env: Some(
                seq![
                    "FLOXY_HTTP_PORT"@ + "="@ + decimal(http_port as nat),
                    "FLOXY_HTTPS_PORT"@ + "="@ + decimal(https_port as nat),
                    "FLOXY_FLECS_GATEWAY"@ + "="@ + ipv4_text(gateway),
                ] + opt_env_pairs(env.floxy_env),
            ),
            exposed_ports: None,
            networking_config: None,
        },
    )
}

/// The configuration of the proxy container.
pub fn floxy_container_config(http_port: u16, https_port: u16, gateway: Ipv4Addr, env: &ContainerEnv) -> (r:
    ContainerConfig)
    ensures
        r@ == floxy_config_view(http_port, https_port, gateway@, *env),
{
    let mut vars: Vec<String> = Vec::new();
    vars.push(key_number("FLOXY_HTTP_PORT", http_port as u64));
    vars.push(key_number("FLOXY_HTTPS_PORT", https_port as u64));
    vars.push(key_address("FLOXY_FLECS_GATEWAY", &gateway));
    let ghost first = strings_view(vars@);
    extend_with_pairs(&mut vars, &env.floxy_env);
    let mut mounts: Vec<Mount> = Vec::new();
    mounts.push(mount(MountType::Volume, FLOXY_CERT_VOLUME, "/etc/nginx/certs"));
    mounts.push(mount(MountType::Volume, FLOXY_DATA_VOLUME, "/tmp/floxy"));
    let r = (
        CreateContainerOptions { name: Some(to_owned_string(FLOXY_CONTAINER_NAME)) },
        ContainerCreateBody {
            image: Some(image_string(FLOXY_IMAGE, FLOXY_VERSION)),
            hostname: Some(to_owned_string(FLOXY_CONTAINER_NAME)),
            host_config: Some(
                HostConfig {
                    network_mode: Some(to_owned_string("host")),
                    mounts: Some(mounts),
                    restart_policy: Some(
                        RestartPolicy {
                            maximum_retry_count: Some(0),
                            name: Some(RestartPolicyName::OnFailure),
                        },
                    ),
                    extra_hosts: None,
                    port_bindings: None,
                },
            ),
            env: Some(vars),
            exposed_ports: None,
            networking_config: None,
        },
    );
    proof {
        let mv = r.1.host_config->0.mounts->0@.map_values(|x: Mount| x@);
        assert(mv == seq![
            mount_view(MountType::Volume, FLOXY_CERT_VOLUME@, "/etc/nginx/certs"@),
            mount_view(MountType::Volume, FLOXY_DATA_VOLUME@, "/tmp/floxy"@),
        ]);
        assert(first == seq![
            "FLOXY_HTTP_PORT"@ + "="@ + decimal(http_port as nat),
            "FLOXY_HTTPS_PORT"@ + "="@ + decimal(https_port as nat),
            "FLOXY_FLECS_GATEWAY"@ + "="@ + ipv4_text(gateway@),
        ]);
    }
    r
}

/// The docker socket, bound at the same path.
pub open spec fn docker_socket_mount_view() -> MountView {
    mount_view(MountType::Bind, "/run/docker.sock"@, "/run/docker.sock"@)
}

/// otel-collector's `docker_stats` receiver is enabled by default and hard
/// requires the docker socket at this exact path. Its runtime image is
/// built `FROM scratch`, so there's no `/var/run -> /run` symlink.
pub open spec fn otel_docker_socket_mount_view() -> MountView {
    mount_view(MountType::Bind, "/run/docker.sock"@, "/var/run/docker.sock"@)
}

/// otel-collector's `hostmetrics` receiver (cpu/memory/disk/filesystem/
/// network/load scrapers) is configured to use `root_path: /hostfs`.
/// To actually read host metrics it needs the host root mounted there.
pub open spec fn otel_hostfs_mount_view() -> MountView {
    MountView {
        typ: Some(MountType::Bind),
        source: Some("/"@),
        target: Some("/hostfs"@),
        read_only: Some(true),
    }
}

/// The mount of the docker socket into the core.
fn docker_socket_mount() -> (m: Mount)
    ensures
        m@ == docker_socket_mount_view(),
{
    mount(MountType::Bind, "/run/docker.sock", "/run/docker.sock")
}

/// The mount of the docker socket into the collector.
fn otel_docker_socket_mount() -> (m: Mount)
    ensures
        m@ == otel_docker_socket_mount_view(),
{
    mount(MountType::Bind, "/run/docker.sock", "/var/run/docker.sock")
}

/// The read-only mount of the host's root into the collector.
fn otel_hostfs_mount() -> (m: Mount)
    ensures
        m@ == otel_hostfs_mount_view(),
{
    Mount {
        typ: Some(MountType::Bind),
        source: Some(to_owned_string("/")),
        target: Some(to_owned_string("/hostfs")),
        read_only: Some(true),
    }
}

/// A variable's value, or a default.
pub open spec fn value_or(v: Option<String>, default: Seq<char>) -> Seq<char> {
    match v {
        Some(s) => s@,
        None => default,
    }
}

/// The variables that tell the core about the collector at `ip`.
pub open spec fn core_otel_vars(ip: u32) -> Seq<Seq<char>> {
    seq![
        CORE_SECRET_EXPORT_PATH_ENV@ + "="@ + OTEL_CERTS_MOUNT_TARGET_CORE@,
        CORE_OTEL_HTTP_COLLECTOR_ENDPOINT_ENV@ + "="@ + "http://"@ + ipv4_text(ip) + ":"@ + decimal(
            OTEL_HTTP_PORT as nat,
        ),
    ]
}

/// The environment of the core: the collector's variables when there is
/// one, then the pairs of `FILIP_CORE_ENV`.
pub open spec fn core_env_list(otelcol_ip: Option<Ipv4Addr>, env: ContainerEnv) -> Seq<Seq<char>> {
    let otel_vars = match otelcol_ip {
        Some(ip) => core_otel_vars(ip@),
        None => Seq::empty(),
    };
    otel_vars + opt_env_pairs(env.core_env)
}

/// The collector's certificate volume, when there is a collector.
pub open spec fn core_otel_mounts(otelcol_ip: Option<Ipv4Addr>) -> Seq<MountView> {
    match otelcol_ip {
        Some(_) => seq![mount_view(MountType::Volume, OTEL_CERTS_VOLUME@, OTEL_CERTS_MOUNT_TARGET_CORE@)],
        None => Seq::empty(),
    }
}

/// The configuration of the core: host networking, the docker socket, the
/// proxy's data volume and its own volume, plus the collector's certificate
/// volume when there is a collector; no environment when it would be empty.
pub open spec fn core_config_view(otelcol_ip: Option<Ipv4Addr>, env: ContainerEnv) -> (
    Option<Seq<char>>,
    ContainerCreateBodyView,
) {
    (
        Some(CORE_CONTAINER_NAME@),
        ContainerCreateBodyView {
            image: Some(image_ref(CORE_IMAGE@, value_or(env.core_version, CORE_VERSION@))),
            hostname: Some(CORE_CONTAINER_NAME@),
            host_config: Some(
                host_view(
                    Some("host"@),
                    Some(
                        seq![
                            docker_socket_mount_view(),
                            mount_view(MountType::Volume, FLOXY_DATA_VOLUME@, "/tmp/floxy"@),
                            mount_view(MountType::Volume, CORE_VOLUME@, "/var/lib/flecs"@),
                        ] + core_otel_mounts(otelcol_ip),
                    ),
                    None,
                    None,
                ),
            ),
            env: if core_env_list(otelcol_ip, env).len() == 0 {
                None
            } else {
                Some(core_env_list(otelcol_ip, env))
            },
            exposed_ports: None,
            networking_config: None,
        },
    )
}

/// The value of a variable, or a default.
fn or_default<'a>(v: &'a Option<String>, default: &'a str) -> (r: &'a str)
    ensures
        r@ == value_or(*v, default@),
{
    match v {
        Some(s) => s.as_str(),
        None => default,
    }
}

/// The configuration of the core container; `otelcol_ip` is the
/// collector's static address on the flecs network, if it is installed.
pub fn core_container_config(otelcol_ip: Option<Ipv4Addr>, env: &ContainerEnv) -> (r: ContainerConfig)
    ensures
        r@ == core_config_view(otelcol_ip, *env),
{
    let version = or_default(&env.core_version, CORE_VERSION);
    let mut mounts: Vec<Mount> = Vec::new();
    mounts.push(docker_socket_mount());
    mounts.push(mount(MountType::Volume, FLOXY_DATA_VOLUME, "/tmp/floxy"));
    mounts.push(mount(MountType::Volume, CORE_VOLUME, "/var/lib/flecs"));
    let mut vars: Vec<String> = Vec::new();
    if let Some(ip) = otelcol_ip {
        mounts.push(mount(MountType::Volume, OTEL_CERTS_VOLUME, OTEL_CERTS_MOUNT_TARGET_CORE));
        let mut v1 = to_owned_string(CORE_SECRET_EXPORT_PATH_ENV);
        v1.append("=");
        v1.append(OTEL_CERTS_MOUNT_TARGET_CORE);
        vars.push(v1);
        let mut v2 = to_owned_string(CORE_OTEL_HTTP_COLLECTOR_ENDPOINT_ENV);
        v2.append("=");
        v2.append("http://");
        ip.push_text(&mut v2);
        v2.append(":");
        push_decimal(&mut v2, OTEL_HTTP_PORT as u64);
        vars.push(v2);
        proof {
            assert(strings_view(vars@) == core_otel_vars(ip@));
        }
    } else {
        proof {
            assert(strings_view(vars@) == Seq::<Seq<char>>::empty());
        }
    }
    let ghost otel_vars = strings_view(vars@);
    extend_with_pairs(&mut vars, &env.core_env);
    let ghost mounts_v = mounts@;
    proof {
        assert(strings_view(vars@) == core_env_list(otelcol_ip, *env));
    }
    let vars_opt = if vars.len() == 0 {
        None
    } else {
        Some(vars)
    };
    let r = (
        CreateContainerOptions { name: Some(to_owned_string(CORE_CONTAINER_NAME)) },
        ContainerCreateBody {
            image: Some(image_string(CORE_IMAGE, version)),
            hostname: Some(to_owned_string(CORE_CONTAINER_NAME)),
            host_config: Some(
                HostConfig {
                    network_mode: Some(to_owned_string("host")),
                    mounts: Some(mounts),
                    restart_policy: None,
                    extra_hosts: None,
                    port_bindings: None,
                },
            ),
            env: vars_opt,
            exposed_ports: None,
            networking_config: None,
        },
    );
    proof {
        let mv = mounts_v.map_values(|x: Mount| x@);
        let base = seq![
            docker_socket_mount_view(),
            mount_view(MountType::Volume, FLOXY_DATA_VOLUME@, "/tmp/floxy"@),
            mount_view(MountType::Volume, CORE_VOLUME@, "/var/lib/flecs"@),
        ];
        match otelcol_ip {
            Some(_) => {
                assert(mv == base + seq![
                    mount_view(MountType::Volume, OTEL_CERTS_VOLUME@, OTEL_CERTS_MOUNT_TARGET_CORE@),
                ]);
            },
            None => {
                assert(mv == base + Seq::<MountView>::empty());
            },
        }
    }
    r
}

/// The configuration of the collector: it joins only the flecs network,
/// with the static address `ip`; it mounts its certificate and log volumes,
/// the docker socket and the host's root, restarts on failure, and gets its
/// upstream endpoint from `OTEL_EXPORT_DESTINATION` (empty when unset).
pub open spec fn otel_config_view(ip: u32, env: ContainerEnv) -> (
    Option<Seq<char>>,
    ContainerCreateBodyView,
) {
    (
        Some(OTEL_CONTAINER_NAME@),
        ContainerCreateBodyView {
            image: Some(image_ref(OTEL_IMAGE@, value_or(env.otel_version, OTEL_VERSION_DEFAULT@))),
            hostname: Some(OTEL_CONTAINER_NAME@),
            host_config: Some(
                host_view(
                    None,
                    Some(
                        seq![
                            mount_view(
                                MountType::Volume,
                                OTEL_CERTS_VOLUME@,
                                OTEL_CERTS_MOUNT_TARGET_COLLECTOR@,
                            ),
                            mount_view(MountType::Volume, OTEL_LOGS_VOLUME@, OTEL_LOGS_MOUNT_TARGET@),
                            otel_docker_socket_mount_view(),
                            otel_hostfs_mount_view(),
                        ],
                    ),
                    Some(on_failure_policy()),
                    None,
                ),
            ),
            env: Some(
                seq![
                    OTEL_UPSTREAM_ENDPOINT_ENV@ + "="@ + value_or(
                        env.otel_export_destination,
                        Seq::empty(),
                    ),
                ],
            ),
            exposed_ports: None,
            networking_config: single_endpoint(ip),
        },
    )
}

/// The flecs network with the static address `ip` as the only endpoint.
fn flecs_endpoint(ip: &Ipv4Addr) -> (n: NetworkingConfig)
    ensures
        Some(networking_view(n)) == single_endpoint(ip@),
{
    let mut endpoints: Vec<(String, EndpointSettings)> = Vec::new();
    endpoints.push(
        (to_owned_string(FLECS_NETWORK_NAME), EndpointSettings { ipv4_address: Some(ip.to_string()) }),
    );
    let n = NetworkingConfig { endpoints_config: Some(endpoints) };
    proof {
        assert(networking_view(n) == Some(seq![(FLECS_NETWORK_NAME@, Some(ipv4_text(ip@)))]));
    }
    n
}

/// The configuration of the collector container; `ip` is its static
/// address on the flecs bridge network, which is the only network it
/// joins, so it is unreachable from outside Docker's bridge network.
pub fn otel_container_config(ip: Ipv4Addr, env: &ContainerEnv) -> (r: ContainerConfig)
    ensures
        r@ == otel_config_view(ip@, *env),
{
    let version = or_default(&env.otel_version, OTEL_VERSION_DEFAULT);
    let destination = or_default(&env.otel_export_destination, "");
    let mut mounts: Vec<Mount> = Vec::new();
    mounts.push(mount(MountType::Volume, OTEL_CERTS_VOLUME, OTEL_CERTS_MOUNT_TARGET_COLLECTOR));
    mounts.push(mount(MountType::Volume, OTEL_LOGS_VOLUME, OTEL_LOGS_MOUNT_TARGET));
    mounts.push(otel_docker_socket_mount());
    mounts.push(otel_hostfs_mount());
    let mut var = to_owned_string(OTEL_UPSTREAM_ENDPOINT_ENV);
    var.append("=");
    var.append(destination);
    let mut vars: Vec<String> = Vec::new();
    vars.push(var);
    let ghost mounts_v = mounts@;
    let ghost vars_v = vars@;
    let r = (
        CreateContainerOptions { name: Some(to_owned_string(OTEL_CONTAINER_NAME)) },
        ContainerCreateBody {
            image: Some(image_string(OTEL_IMAGE, version)),
            hostname: Some(to_owned_string(OTEL_CONTAINER_NAME)),
            host_config: Some(
                HostConfig {
                    network_mode: None,
                    mounts: Some(mounts),
                    restart_policy: Some(
                        RestartPolicy {
                            maximum_retry_count: Some(0),
                            name: Some(RestartPolicyName::OnFailure),
                        },
                    ),
                    extra_hosts: None,
                    port_bindings: None,
                },
            ),
            env: Some(vars),
            exposed_ports: None,
            networking_config: Some(flecs_endpoint(&ip)),
        },
    );
    proof {
        reveal_strlit("");
        assert(mounts_v.map_values(|x: Mount| x@) == seq![
            mount_view(MountType::Volume, OTEL_CERTS_VOLUME@, OTEL_CERTS_MOUNT_TARGET_COLLECTOR@),
            mount_view(MountType::Volume, OTEL_LOGS_VOLUME@, OTEL_LOGS_MOUNT_TARGET@),
            otel_docker_socket_mount_view(),
            otel_hostfs_mount_view(),
        ]);
        assert(strings_view(vars_v) == seq![
            OTEL_UPSTREAM_ENDPOINT_ENV@ + "="@ + value_or(env.otel_export_destination, Seq::empty()),
        ]);
    }
    r
}

/// The environment of the web app: the pairs of `FILIP_WEBAPP_ENV`, or
/// none when it is unset or has no pairs.
pub open spec fn webapp_env_view(env: ContainerEnv) -> Option<Seq<Seq<char>>> {
    match env.webapp_env {
        Some(p) => if env_pairs(p@).len() > 0 {
            Some(env_pairs(p@))
        } else {
            None
        },
        None => None,
    }
}

/// The tag of the web app image: the version, followed by `-` and the
/// value of `WHITELABEL` when that is set.
pub open spec fn webapp_tag(env: ContainerEnv) -> Seq<char> {
    let version = value_or(env.webapp_version, WEBAPP_VERSION@);
    match env.whitelabel {
        Some(w) => version + "-"@ + w@,
        None => version,
    }
}

/// The configuration of the web app: it joins the flecs network with the
/// static address `ip` and reaches the proxy as `flecs-floxy` at `gateway`.
pub open spec fn webapp_config_view(ip: u32, gateway: u32, env: ContainerEnv) -> (
    Option<Seq<char>>,
    ContainerCreateBodyView,
) {
    (
        Some(WEBAPP_CONTAINER_NAME@),
        ContainerCreateBodyView {
            image: Some(image_ref(WEBAPP_IMAGE@, webapp_tag(env))),
            hostname: None,
            host_config: Some(
                host_view(None, None, None, Some(seq!["flecs-floxy:"@ + ipv4_text(gateway)])),
            ),
            env: webapp_env_view(env),
            exposed_ports: None,
            networking_config: single_endpoint(ip),
        },
    )
}

/// The configuration of the web app container.
pub fn webapp_container_config(ip: Ipv4Addr, gateway: Ipv4Addr, env: &ContainerEnv) -> (r:
    ContainerConfig)
    ensures
        r@ == webapp_config_view(ip@, gateway@, *env),
{
    let version = or_default(&env.webapp_version, WEBAPP_VERSION);
    let vars: Option<Vec<String>> = match &env.webapp_env {
        Some(p) => {
            let v = parse_env_pairs(p.as_str());
            if v.len() == 0 {
                None
            } else {
                Some(v)
            }
        },
        None => None,
    };
    let mut tag = to_owned_string(version);
    match &env.whitelabel {
        Some(w) => {
            tag.append("-");
            tag.append(w.as_str());
        },
        None => {},
    }
    let mut host = to_owned_string("flecs-floxy:");
    gateway.push_text(&mut host);
    let mut hosts: Vec<String> = Vec::new();
    hosts.push(host);
    let ghost hosts_v = hosts@;
    let r = (
        CreateContainerOptions { name: Some(to_owned_string(WEBAPP_CONTAINER_NAME)) },
        ContainerCreateBody {
            image: Some(image_string(WEBAPP_IMAGE, tag.as_str())),
            hostname: None,
            host_config: Some(
                HostConfig {
                    network_mode: None,
                    mounts: None,
                    restart_policy: None,
                    extra_hosts: Some(hosts),
                    port_bindings: None,
                },
            ),
            env: vars,
            exposed_ports: None,
            networking_config: Some(flecs_endpoint(&ip)),
        },
    );
    proof {
        assert(strings_view(hosts_v) == seq!["flecs-floxy:"@ + ipv4_text(gateway@)]);
    }
    r
}


/// One of the named Docker volumes that the containers use.
pub open spec fn is_named_volume(s: Seq<char>) -> bool {
    ||| s == FLOXY_CERT_VOLUME@
    ||| s == FLOXY_DATA_VOLUME@
    ||| s == CORE_VOLUME@
    ||| s == OTEL_CERTS_VOLUME@
    ||| s == OTEL_LOGS_VOLUME@
}

/// A mount Docker can carry out as meant: a named volume is mounted as a
/// volume, a volume mount's source is a named volume, and a bind mount's
/// source is an absolute host path.
pub open spec fn mount_sound(m: MountView) -> bool {
    &&& (m.source matches Some(s) && is_named_volume(s)) ==> m.typ == Some(MountType::Volume)
    &&& m.typ == Some(MountType::Volume) ==> (m.source matches Some(s) && is_named_volume(s))
    &&& m.typ == Some(MountType::Bind) ==> (m.source matches Some(s) && s.len() > 0 && s[0]
        == '/')
}

/// Every mount of a container body is sound.
pub open spec fn body_mounts_sound(b: ContainerCreateBodyView) -> bool {
    match b.host_config {
        Some(h) => match h.mounts {
            Some(ms) => forall|i: int| 0 <= i < ms.len() ==> mount_sound(#[trigger] ms[i]),
            None => true,
        },
        None => true,
    }
}

proof fn lemma_volume_mount_sound(source: Seq<char>, target: Seq<char>)
    requires
        is_named_volume(source),
    ensures
        mount_sound(mount_view(MountType::Volume, source, target)),
{
}

proof fn lemma_bind_mount_sound(source: Seq<char>, target: Seq<char>, read_only: Option<bool>)
    requires
        source.len() > 0,
        source[0] == '/',
    ensures
        mount_sound(MountView { typ: Some(MountType::Bind), source: Some(source), target: Some(target), read_only }),
{
    reveal_strlit("flecs-floxy_certs");
    reveal_strlit("flecs-floxy_data");
    reveal_strlit("flecsd");
    reveal_strlit("flecs-otelcol_certs");
    reveal_strlit("flecs-otelcol_logs");
    assert(!is_named_volume(source)) by {
        if is_named_volume(source) {
            assert(source[0] == 'f');
        }
    }
}

/// The mounts of every container configuration are sound: the proxy's,
/// the core's (with or without a collector), the web app's and the
/// collector's named volumes are volume mounts, and their bind mounts
/// (the Docker socket, the host root) have absolute sources.
pub proof fn law_container_mounts_sound(
    http_port: u16,
    https_port: u16,
    gateway: u32,
    ip: u32,
    otelcol_ip: Option<Ipv4Addr>,
    env: ContainerEnv,
)
    ensures
        body_mounts_sound(floxy_config_view(http_port, https_port, gateway, env).1),
        body_mounts_sound(core_config_view(otelcol_ip, env).1),
        body_mounts_sound(webapp_config_view(ip, gateway, env).1),
        body_mounts_sound(otel_config_view(ip, env).1),
{
    reveal_strlit("/run/docker.sock");
    reveal_strlit("/");
    lemma_volume_mount_sound(FLOXY_CERT_VOLUME@, "/etc/nginx/certs"@);
    lemma_volume_mount_sound(FLOXY_DATA_VOLUME@, "/tmp/floxy"@);
    lemma_volume_mount_sound(CORE_VOLUME@, "/var/lib/flecs"@);
    lemma_volume_mount_sound(OTEL_CERTS_VOLUME@, OTEL_CERTS_MOUNT_TARGET_CORE@);
    lemma_volume_mount_sound(OTEL_CERTS_VOLUME@, OTEL_CERTS_MOUNT_TARGET_COLLECTOR@);
    lemma_volume_mount_sound(OTEL_LOGS_VOLUME@, OTEL_LOGS_MOUNT_TARGET@);
    lemma_bind_mount_sound("/run/docker.sock"@, "/run/docker.sock"@, None);
    lemma_bind_mount_sound("/run/docker.sock"@, "/var/run/docker.sock"@, None);
    lemma_bind_mount_sound("/"@, "/hostfs"@, Some(true));
    let core = core_config_view(otelcol_ip, env).1.host_config->0.mounts->0;
    assert forall|i: int| 0 <= i < core.len() implies mount_sound(#[trigger] core[i]) by {
        if i >= 3 {
            assert(core[i] == core_otel_mounts(otelcol_ip)[i - 3]);
        }
    }
}

} // verus!
