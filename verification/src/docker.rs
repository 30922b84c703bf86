//! What the container daemon says of a container and of itself, read out of
//! its answers.

use vstd::prelude::*;
use crate::json::{json_document, Json};
use crate::text::{
    leading_run, pairs_view, same_text, starts_with_text, strip_leading, text_starts_with,
};
use crate::types::{
    CommitInfo, ContainerMetadata, DockerInfo, MountInfo, PluginInfo, RegistryConfig, SwarmInfo,
    Timestamp,
};

verus! {

/// The instant that a text in the RFC 3339 format names, or `None` where the
/// text is none.
pub uninterp spec fn rfc3339_instant(text: Seq<char>) -> Option<Timestamp>;

/// `chrono::DateTime::parse_from_rfc3339`, taken on trust: it hands out the
/// instant that the text names, as seconds and nanoseconds of Unix time, and
/// nothing where it refuses the text.
#[verifier::external_body]
fn parse_rfc3339(text: &str) -> (r: Option<Timestamp>)
    ensures
        r == rfc3339_instant(text@),
{
    match chrono::DateTime::parse_from_rfc3339(text) {
        Ok(t) => Some(Timestamp { secs: t.timestamp(), nanos: t.timestamp_subsec_nanos() }),
        Err(_) => None,
    }
}

/// Why an answer of the daemon could not be used.
#[derive(Debug)]
pub enum DockerError {
    /// The daemon's answer is not the JSON that was asked for.
    InvalidAnswer,
    /// The daemon knows no such container.
    ContainerNotFound(String),
    MissingId,
    MissingImage,
    MissingImageId,
    MissingCreated,
    /// The time of creation is no RFC 3339 text; the text.
    InvalidCreated(String),
    /// The daemon names no merged directory.
    EmptyLayerPath,
    /// The merged directory has no parent; the directory.
    InvalidLayerPath(String),
    /// The daemon names no writable directory.
    UpperDirUnavailable,
    /// None of the directories made up from the driver's data is there.
    InspectionFailed,
    /// The container is in a state that allows no work on its layer; the
    /// state.
    InvalidState(String),
}

impl DockerError {
    /// The words of the error.
    pub open spec fn message_text(self) -> Seq<char> {
        match self {
            DockerError::InvalidAnswer => "Failed to parse docker JSON output"@,
            DockerError::ContainerNotFound(id) => "Container not found: "@ + id@,
            DockerError::MissingId => "Missing container ID"@,
            DockerError::MissingImage => "Missing container image"@,
            DockerError::MissingImageId => "Missing container image ID"@,
            DockerError::MissingCreated => "Missing container created timestamp"@,
            DockerError::InvalidCreated(t) => "Failed to parse created timestamp: "@ + t@,
            DockerError::EmptyLayerPath => "Container layer path is empty"@,
            DockerError::InvalidLayerPath(p) => "Invalid layer path: "@ + p@,
            DockerError::UpperDirUnavailable => "Container upper layer path is empty or not available"@,
            DockerError::InspectionFailed => "Could not determine upper layer path from GraphDriver inspection"@,
            DockerError::InvalidState(s) => "Container is in '"@ + s@
                + "' state and cannot be used for layer operations"@,
        }
    }

    /// The error in words.
    pub fn message(&self) -> (r: String)
        ensures
            r@ == self.message_text(),
    {
        match self {
            DockerError::InvalidAnswer => "Failed to parse docker JSON output".to_owned(),
            DockerError::ContainerNotFound(id) => "Container not found: ".to_owned().concat(
                id.as_str(),
            ),
            DockerError::MissingId => "Missing container ID".to_owned(),
            DockerError::MissingImage => "Missing container image".to_owned(),
            DockerError::MissingImageId => "Missing container image ID".to_owned(),
            DockerError::MissingCreated => "Missing container created timestamp".to_owned(),
            DockerError::InvalidCreated(t) => "Failed to parse created timestamp: ".to_owned()
                .concat(t.as_str()),
            DockerError::EmptyLayerPath => "Container layer path is empty".to_owned(),
            DockerError::InvalidLayerPath(p) => "Invalid layer path: ".to_owned().concat(p.as_str()),
            DockerError::UpperDirUnavailable => "Container upper layer path is empty or not available"
                .to_owned(),
            DockerError::InspectionFailed => "Could not determine upper layer path from GraphDriver inspection"
                .to_owned(),
            DockerError::InvalidState(s) => "Container is in '".to_owned().concat(s.as_str()).concat(
                "' state and cannot be used for layer operations",
            ),
        }
    }
}

/// The mathematical value of a [`MountInfo`].
pub ghost struct MountView {
    pub source: Seq<char>,
    pub destination: Seq<char>,
    pub mode: Seq<char>,
    pub rw: bool,
    pub propagation: Seq<char>,
}

impl View for MountInfo {
    type V = MountView;

    open spec fn view(&self) -> MountView {
        MountView {
            source: self.source@,
            destination: self.destination@,
            mode: self.mode@,
            rw: self.rw,
            propagation: self.propagation@,
        }
    }
}

/// The values of a list of mounts.
pub open spec fn mounts_view(mounts: Seq<MountInfo>) -> Seq<MountView> {
    Seq::new(mounts.len(), |i: int| mounts[i]@)
}

/// The digest of an image, with the name of the hash in front where the
/// daemon left it out.
pub open spec fn image_digest_of(image_id: Seq<char>) -> Seq<char> {
    if starts_with_text(image_id, "sha256:"@) {
        image_id
    } else {
        "sha256:"@ + image_id
    }
}

/// The pairs whose key is not `key`, in their order.
pub open spec fn without_key(pairs: Seq<(Seq<char>, Seq<char>)>, key: Seq<char>) -> Seq<
    (Seq<char>, Seq<char>),
>
    decreases pairs.len(),
{
    if pairs.len() == 0 {
        Seq::empty()
    } else if pairs.last().0 == key {
        without_key(pairs.drop_last(), key)
    } else {
        without_key(pairs.drop_last(), key).push(pairs.last())
    }
}

/// No key stands twice among the pairs.
pub open spec fn distinct_keys(pairs: Seq<(Seq<char>, Seq<char>)>) -> bool {
    forall|i: int, j: int| 0 <= i < j < pairs.len() ==> (#[trigger] pairs[i]).0 != (#[trigger] pairs[j]).0
}

/// The labels among the members of an object: those whose value is a text,
/// in the order of the members. Of several texts under one key only the
/// last is kept.
pub open spec fn labels_of(members: Seq<(String, Json)>) -> Seq<(Seq<char>, Seq<char>)>
    decreases members.len(),
{
    if members.len() == 0 {
        Seq::empty()
    } else {
        let rest = labels_of(members.drop_last());
        match members.last().1 {
            Json::Text(v) => without_key(rest, members.last().0@).push((members.last().0@, v@)),
            _ => rest,
        }
    }
}

/// What is left without a key holds that key nowhere, holds nothing that
/// was not there, and no key twice where none stood twice.
pub proof fn lemma_without_key(pairs: Seq<(Seq<char>, Seq<char>)>, key: Seq<char>)
    ensures
        forall|j: int|
            0 <= j < without_key(pairs, key).len() ==> (#[trigger] without_key(pairs, key)[j]).0
                != key,
        forall|j: int|
            0 <= j < without_key(pairs, key).len() ==> pairs.contains(
                #[trigger] without_key(pairs, key)[j],
            ),
        distinct_keys(pairs) ==> distinct_keys(without_key(pairs, key)),
    decreases pairs.len(),
{
    if pairs.len() > 0 {
        let front = pairs.drop_last();
        let last = pairs.last();
        let w = without_key(pairs, key);
        let wf = without_key(front, key);
        lemma_without_key(front, key);
        assert(last == pairs[pairs.len() - 1]);
        assert forall|j: int| 0 <= j < w.len() implies pairs.contains(#[trigger] w[j]) by {
            if j < wf.len() {
                assert(w[j] == wf[j]);
                assert(front.contains(wf[j]));
                let i = choose|i: int| 0 <= i < front.len() && front[i] == wf[j];
                assert(pairs[i] == w[j]);
            } else {
                assert(w[j] == last);
            }
        }
        if distinct_keys(pairs) {
            assert forall|i: int, j: int| 0 <= i < j < front.len() implies (#[trigger] front[i]).0
                != (#[trigger] front[j]).0 by {
                assert(front[i] == pairs[i] && front[j] == pairs[j]);
            }
            assert forall|a: int, b: int| 0 <= a < b < w.len() implies (#[trigger] w[a]).0 != (
            #[trigger] w[b]).0 by {
                if b < wf.len() {
                    assert(w[a] == wf[a] && w[b] == wf[b]);
                } else {
                    assert(w[b] == last);
                    assert(w[a] == wf[a]);
                    assert(front.contains(wf[a]));
                    let i = choose|i: int| 0 <= i < front.len() && front[i] == wf[a];
                    assert(pairs[i] == front[i]);
                }
            }
        }
    }
}

/// No key stands twice among the labels.
pub proof fn lemma_labels_distinct(members: Seq<(String, Json)>)
    ensures
        distinct_keys(labels_of(members)),
    decreases members.len(),
{
    if members.len() > 0 {
        let rest = labels_of(members.drop_last());
        lemma_labels_distinct(members.drop_last());
        match members.last().1 {
            Json::Text(v) => {
                let key = members.last().0@;
                let w = without_key(rest, key);
                let all = w.push((key, v@));
                lemma_without_key(rest, key);
                assert forall|a: int, b: int| 0 <= a < b < all.len() implies (#[trigger] all[a]).0
                    != (#[trigger] all[b]).0 by {
                    if b < w.len() {
                        assert(all[a] == w[a] && all[b] == w[b]);
                    } else {
                        assert(all[a] == w[a]);
                    }
                }
            },
            _ => {},
        }
    }
}

/// The mount that an element of the mount list describes: it has to name a
/// source, a destination and a mode.
pub open spec fn mount_of(m: Json) -> Option<MountView> {
    if m.member("Source"@).text() is Some && m.member("Destination"@).text() is Some && m.member(
        "Mode"@,
    ).text() is Some {
        Some(
            MountView {
                source: m.member("Source"@).text().unwrap(),
                destination: m.member("Destination"@).text().unwrap(),
                mode: m.member("Mode"@).text().unwrap(),
                rw: m.member("RW"@).bool_or(false),
                propagation: m.member("Propagation"@).text_or(""@),
            },
        )
    } else {
        None
    }
}

/// The mounts that the elements of a mount list describe, in their order.
pub open spec fn mounts_of(elements: Seq<Json>) -> Seq<MountView>
    decreases elements.len(),
{
    if elements.len() == 0 {
        Seq::empty()
    } else {
        let rest = mounts_of(elements.drop_last());
        match mount_of(elements.last()) {
            Some(m) => rest.push(m),
            None => rest,
        }
    }
}

/// `m` is what the daemon's description `c` of a container says.
pub open spec fn is_container_metadata(c: Json, m: ContainerMetadata) -> bool {
    let config = c.member("Config"@);
    let state = c.member("State"@);
    let name = c.member("Name"@).text_or(""@);
    &&& c.member("Id"@).text() == Some(m.id@)
    &&& m.name@ == name.skip(leading_run(name, '/') as int)
    &&& config.member("Image"@).text() == Some(m.image@)
    &&& c.member("Image"@).text() == Some(m.image_id@)
    &&& m.image_sha256@ == image_digest_of(m.image_id@)
    &&& c.member("Created"@).text() is Some
    &&& rfc3339_instant(c.member("Created"@).text().unwrap()) == Some(m.created)
    &&& m.state@ == state.member("Status"@).text_or("unknown"@)
    &&& m.status@ == m.state@ + " "@ + state.member("StartedAt"@).text_or(""@)
    &&& pairs_view(m.labels@) == labels_of(config.member("Labels"@).members())
    &&& distinct_keys(pairs_view(m.labels@))
    &&& mounts_view(m.mounts@) == mounts_of(c.member("Mounts"@).elements())
}

/// `e` is the error that the daemon's description `c` of a container calls
/// for: the first of what is missing.
pub open spec fn is_metadata_error(c: Json, e: DockerError) -> bool {
    if c.member("Id"@).text() is None {
        e is MissingId
    } else if c.member("Config"@).member("Image"@).text() is None {
        e is MissingImage
    } else if c.member("Image"@).text() is None {
        e is MissingImageId
    } else if c.member("Created"@).text() is None {
        e is MissingCreated
    } else {
        &&& rfc3339_instant(c.member("Created"@).text().unwrap()) is None
        &&& e matches DockerError::InvalidCreated(t)
        &&& t@ == c.member("Created"@).text().unwrap()
    }
}

/// `d` is what the daemon's description `info` of itself says, read at the
/// time `now`.
pub open spec fn is_docker_info(info: Json, now: Timestamp, d: DockerInfo) -> bool {
    &&& d.id@ == info.member("ID"@).text_or(""@)
    &&& d.containers == info.member("Containers"@).u64_or(0) as u32
    &&& d.containers_running == info.member("ContainersRunning"@).u64_or(0) as u32
    &&& d.containers_paused == info.member("ContainersPaused"@).u64_or(0) as u32
    &&& d.containers_stopped == info.member("ContainersStopped"@).u64_or(0) as u32
    &&& d.images == info.member("Images"@).u64_or(0) as u32
    &&& d.driver@ == info.member("Driver"@).text_or(""@)
    &&& d.driver_status@.len() == 0
    &&& d.system_status is None
    &&& d.plugins.volume@.len() == 0
    &&& d.plugins.network@.len() == 0
    &&& d.plugins.authorization is None
    &&& d.plugins.log@.len() == 0
    &&& d.memory_limit == info.member("MemoryLimit"@).bool_or(false)
    &&& d.swap_limit == info.member("SwapLimit"@).bool_or(false)
    &&& d.kernel_memory == info.member("KernelMemory"@).bool_or(false)
    &&& d.cpu_cfs_period == info.member("CpuCfsPeriod"@).bool_or(false)
    &&& d.cpu_cfs_quota == info.member("CpuCfsQuota"@).bool_or(false)
    &&& d.cpu_shares == info.member("CPUShares"@).bool_or(false)
    &&& d.cpu_set == info.member("CPUSet"@).bool_or(false)
    &&& d.pids_limit == info.member("PidsLimit"@).bool_or(false)
    &&& d.ipv4_forwarding == info.member("IPv4Forwarding"@).bool_or(false)
    &&& d.bridge_nf_iptables == info.member("BridgeNfIptables"@).bool_or(false)
    &&& d.bridge_nf_ip6tables == info.member("BridgeNfIp6tables"@).bool_or(false)
    &&& d.debug == info.member("Debug"@).bool_or(false)
    &&& d.nfd == info.member("NFd"@).u64_or(0) as u32
    &&& d.oom_kill_disable == info.member("OomKillDisable"@).bool_or(false)
    &&& d.n_goroutines == info.member("NGoroutines"@).u64_or(0) as u32
    &&& d.system_time == now
    &&& d.logging_driver@ == info.member("LoggingDriver"@).text_or(""@)
    &&& d.cgroup_driver@ == info.member("CgroupDriver"@).text_or(""@)
    &&& d.n_events_listener == info.member("NEventsListener"@).u64_or(0) as u32
    &&& d.kernel_version@ == info.member("KernelVersion"@).text_or(""@)
    &&& d.operating_system@ == info.member("OperatingSystem"@).text_or(""@)
    &&& d.os_type@ == info.member("OSType"@).text_or(""@)
    &&& d.architecture@ == info.member("Architecture"@).text_or(""@)
    &&& d.index_server_address@ == info.member("IndexServerAddress"@).text_or(""@)
    &&& d.registry_config.allow_nondistributable_artifacts_cidrs is None
    &&& d.registry_config.allow_nondistributable_artifacts_hostnames is None
    &&& d.registry_config.insecure_registry_cidrs is None
    &&& d.registry_config.index_configs@.len() == 0
    &&& d.registry_config.mirrors@.len() == 0
    &&& d.ncpu == info.member("NCPU"@).u64_or(0) as u32
    &&& d.mem_total == info.member("MemTotal"@).u64_or(0)
    &&& d.generic_resources is None
    &&& d.docker_root_dir@ == info.member("DockerRootDir"@).text_or(""@)
    &&& d.http_proxy@ == info.member("HttpProxy"@).text_or(""@)
    &&& d.https_proxy@ == info.member("HttpsProxy"@).text_or(""@)
    &&& d.no_proxy@ == info.member("NoProxy"@).text_or(""@)
    &&& d.name@ == info.member("Name"@).text_or(""@)
    &&& d.labels@.len() == 0
    &&& d.experimental_build == info.member("ExperimentalBuild"@).bool_or(false)
    &&& d.server_version@ == info.member("ServerVersion"@).text_or(""@)
    &&& d.cluster_store@ == info.member("ClusterStore"@).text_or(""@)
    &&& d.cluster_advertise@ == info.member("ClusterAdvertise"@).text_or(""@)
    &&& d.runtimes@.len() == 0
    &&& d.default_runtime@ == info.member("DefaultRuntime"@).text_or(""@)
    &&& d.swarm.node_id@ == ""@
    &&& d.swarm.node_addr@ == ""@
    &&& d.swarm.local_node_state@ == ""@
    &&& !d.swarm.control_available
    &&& d.swarm.error@ == ""@
    &&& d.swarm.remote_managers is None
    &&& d.swarm.nodes is None
    &&& d.swarm.managers is None
    &&& d.swarm.cluster is None
    &&& d.live_restore_enabled == info.member("LiveRestoreEnabled"@).bool_or(false)
    &&& d.isolation@ == info.member("Isolation"@).text_or(""@)
    &&& d.init_binary@ == info.member("InitBinary"@).text_or(""@)
    &&& d.containerd_commit.id@ == ""@
    &&& d.containerd_commit.expected@ == ""@
    &&& d.runc_commit.id@ == ""@
    &&& d.runc_commit.expected@ == ""@
    &&& d.init_commit.id@ == ""@
    &&& d.init_commit.expected@ == ""@
    &&& d.security_options@.len() == 0
}

/// Docker client: reads the answers of the Docker daemon.
#[derive(Debug, Clone, Copy)]
pub struct DockerClient;

/// A commit record that names nothing.
fn blank_commit() -> (c: CommitInfo)
    ensures
        c.id@ == ""@,
        c.expected@ == ""@,
{
    CommitInfo { id: "".to_owned(), expected: "".to_owned() }
}

/// The mount that an element of the mount list describes.
fn parse_mount(m: &Json) -> (r: Option<MountInfo>)
    ensures
        match r {
            Some(mount) => mount_of(*m) == Some(mount@),
            None => mount_of(*m) is None,
        },
{
    let source = match m.text_at("Source") {
        Some(s) => s,
        None => {
            return None;
        },
    };
    let destination = match m.text_at("Destination") {
        Some(s) => s,
        None => {
            return None;
        },
    };
    let mode = match m.text_at("Mode") {
        Some(s) => s,
        None => {
            return None;
        },
    };
    Some(
        MountInfo {
            source: source.to_owned(),
            destination: destination.to_owned(),
            mode: mode.to_owned(),
            rw: m.flag_at("RW"),
            propagation: m.text_or_at("Propagation", ""),
        },
    )
}

/// The pairs whose key is not `key`, in their order.
fn drop_key(pairs: Vec<(String, String)>, key: &str) -> (r: Vec<(String, String)>)
    ensures
        pairs_view(r@) == without_key(pairs_view(pairs@), key@),
{
    let mut kept: Vec<(String, String)> = Vec::new();
    let mut i: usize = 0;
    assert(pairs_view(pairs@).take(0) =~= Seq::<(Seq<char>, Seq<char>)>::empty());
    assert(pairs_view(kept@) =~= Seq::<(Seq<char>, Seq<char>)>::empty());
    while i < pairs.len()
        invariant
            i <= pairs.len(),
            pairs_view(kept@) == without_key(pairs_view(pairs@).take(i as int), key@),
        decreases pairs.len() - i,
    {
        proof {
            let next = pairs_view(pairs@).take(i + 1);
            assert(next.drop_last() =~= pairs_view(pairs@).take(i as int));
            assert(next.last() == (pairs@[i as int].0@, pairs@[i as int].1@));
        }
        if !same_text(pairs[i].0.as_str(), key) {
            let ghost before = pairs_view(kept@);
            kept.push((pairs[i].0.clone(), pairs[i].1.clone()));
            assert(pairs_view(kept@) =~= before.push((pairs@[i as int].0@, pairs@[i as int].1@)));
        }
        i += 1;
    }
    assert(pairs_view(pairs@).take(pairs@.len() as int) =~= pairs_view(pairs@));
    kept
}

impl DockerClient {
    /// A client.
    pub fn new() -> (r: Self) {
        Self
    }

    /// Parse container metadata from Docker inspect JSON: what the daemon's
    /// description of one container says, or the first of what it lacks.
    pub fn parse_container_metadata(&self, container: &Json) -> (r: Result<
        ContainerMetadata,
        DockerError,
    >)
        ensures
            match r {
                Ok(m) => is_container_metadata(*container, m),
                Err(e) => is_metadata_error(*container, e),
            },
    {
        let id = match container.text_at("Id") {
            Some(s) => s.to_owned(),
            None => {
                return Err(DockerError::MissingId);
            },
        };
        let name = strip_leading(container.text_or_at("Name", "").as_str(), '/');
        let image = match container.get("Config") {
            Some(config) => match config.text_at("Image") {
                Some(s) => s.to_owned(),
                None => {
                    return Err(DockerError::MissingImage);
                },
            },
            None => {
                return Err(DockerError::MissingImage);
            },
        };
        let image_id = match container.text_at("Image") {
            Some(s) => s.to_owned(),
            None => {
                return Err(DockerError::MissingImageId);
            },
        };
        let image_sha256 = if text_starts_with(image_id.as_str(), "sha256:") {
            image_id.clone()
        } else {
            "sha256:".to_owned().concat(image_id.as_str())
        };
        let created_text = match container.text_at("Created") {
            Some(s) => s,
            None => {
                return Err(DockerError::MissingCreated);
            },
        };
        let created = match parse_rfc3339(created_text) {
            Some(t) => t,
            None => {
                return Err(DockerError::InvalidCreated(created_text.to_owned()));
            },
        };
        let (state_status, started_at) = match container.get("State") {
            Some(state) => (state.text_or_at("Status", "unknown"), state.text_or_at("StartedAt", "")),
            None => ("unknown".to_owned(), "".to_owned()),
        };
        let status = state_status.clone().concat(" ").concat(started_at.as_str());

        let mut labels: Vec<(String, String)> = Vec::new();
        let ghost label_members = container.member("Config"@).member("Labels"@).members();
        let found_labels = match container.get("Config") {
            Some(config) => config.members_at("Labels"),
            None => None,
        };
        match found_labels {
            Some(members) => {
                let mut i: usize = 0;
                assert(members@.take(0) =~= Seq::<(String, Json)>::empty());
                while i < members.len()
                    invariant
                        i <= members.len(),
                        pairs_view(labels@) == labels_of(members@.take(i as int)),
                    decreases members.len() - i,
                {
                    proof {
                        let next = members@.take(i + 1);
                        assert(next.drop_last() =~= members@.take(i as int));
                        assert(next.last() == members@[i as int]);
                    }
                    match &members[i].1 {
                        Json::Text(v) => {
                            labels = drop_key(labels, members[i].0.as_str());
                            let ghost before = pairs_view(labels@);
                            labels.push((members[i].0.clone(), v.clone()));
                            assert(pairs_view(labels@) =~= before.push((members@[i as int].0@, v@)));
                        },
                        _ => {},
                    }
                    i += 1;
                }
                assert(members@.take(members@.len() as int) =~= members@);
            },
            None => {
                assert(pairs_view(labels@) =~= Seq::<(Seq<char>, Seq<char>)>::empty());
            },
        }
        assert(pairs_view(labels@) == labels_of(label_members));
        proof {
            lemma_labels_distinct(label_members);
        }

        let mut mounts: Vec<MountInfo> = Vec::new();
        match container.elements_at("Mounts") {
            Some(elements) => {
                let mut i: usize = 0;
                assert(elements@.take(0) =~= Seq::<Json>::empty());
                assert(mounts_view(mounts@) =~= Seq::<MountView>::empty());
                while i < elements.len()
                    invariant
                        i <= elements.len(),
                        mounts_view(mounts@) == mounts_of(elements@.take(i as int)),
                    decreases elements.len() - i,
                {
                    proof {
                        let next = elements@.take(i + 1);
                        assert(next.drop_last() =~= elements@.take(i as int));
                        assert(next.last() == elements@[i as int]);
                    }
                    let ghost before = mounts_view(mounts@);
                    match parse_mount(&elements[i]) {
                        Some(mount) => {
                            let ghost mv = mount@;
                            mounts.push(mount);
                            assert(mounts_view(mounts@) =~= before.push(mv));
                        },
                        None => {},
                    }
                    i += 1;
                }
                assert(elements@.take(elements@.len() as int) =~= elements@);
            },
            None => {
                assert(mounts_view(mounts@) =~= Seq::<MountView>::empty());
            },
        }

        Ok(
            ContainerMetadata {
                id,
                name,
                image,
                image_id,
                image_sha256,
                created,
                state: state_status,
                status,
                labels,
                mounts,
            },
        )
    }

    /// Parse Docker info from JSON: what the daemon's description of itself
    /// says, read at the time `now`. What the description leaves out reads
    /// as empty, zero or `false`; the parts that no archive depends on stay
    /// empty.
    pub fn parse_docker_info(&self, info: &Json, now: Timestamp) -> (r: Result<
        DockerInfo,
        DockerError,
    >)
        ensures
            r matches Ok(d) && is_docker_info(*info, now, d),
    {
        let docker_info = DockerInfo {
            id: info.text_or_at("ID", ""),
            containers: info.u32_at("Containers"),
            containers_running: info.u32_at("ContainersRunning"),
            containers_paused: info.u32_at("ContainersPaused"),
            containers_stopped: info.u32_at("ContainersStopped"),
            images: info.u32_at("Images"),
            driver: info.text_or_at("Driver", ""),
            driver_status: Vec::new(),
            system_status: None,
            plugins: PluginInfo {
                volume: Vec::new(),
                network: Vec::new(),
                authorization: None,
                log: Vec::new(),
            },
            memory_limit: info.flag_at("MemoryLimit"),
            swap_limit: info.flag_at("SwapLimit"),
            kernel_memory: info.flag_at("KernelMemory"),
            cpu_cfs_period: info.flag_at("CpuCfsPeriod"),
            cpu_cfs_quota: info.flag_at("CpuCfsQuota"),
            cpu_shares: info.flag_at("CPUShares"),
            cpu_set: info.flag_at("CPUSet"),
            pids_limit: info.flag_at("PidsLimit"),
            ipv4_forwarding: info.flag_at("IPv4Forwarding"),
            bridge_nf_iptables: info.flag_at("BridgeNfIptables"),
            bridge_nf_ip6tables: info.flag_at("BridgeNfIp6tables"),
            debug: info.flag_at("Debug"),
            nfd: info.u32_at("NFd"),
            oom_kill_disable: info.flag_at("OomKillDisable"),
            n_goroutines: info.u32_at("NGoroutines"),
            system_time: now,
            logging_driver: info.text_or_at("LoggingDriver", ""),
            cgroup_driver: info.text_or_at("CgroupDriver", ""),
            n_events_listener: info.u32_at("NEventsListener"),
            kernel_version: info.text_or_at("KernelVersion", ""),
            operating_system: info.text_or_at("OperatingSystem", ""),
            os_type: info.text_or_at("OSType", ""),
            architecture: info.text_or_at("Architecture", ""),
            index_server_address: info.text_or_at("IndexServerAddress", ""),
            registry_config: RegistryConfig {
                allow_nondistributable_artifacts_cidrs: None,
                allow_nondistributable_artifacts_hostnames: None,
                insecure_registry_cidrs: None,
                index_configs: Vec::new(),
                mirrors: Vec::new(),
            },
            ncpu: info.u32_at("NCPU"),
            mem_total: info.u64_at("MemTotal"),
            generic_resources: None,
            docker_root_dir: info.text_or_at("DockerRootDir", ""),
            http_proxy: info.text_or_at("HttpProxy", ""),
            https_proxy: info.text_or_at("HttpsProxy", ""),
            no_proxy: info.text_or_at("NoProxy", ""),
            name: info.text_or_at("Name", ""),
            labels: Vec::new(),
            experimental_build: info.flag_at("ExperimentalBuild"),
            server_version: info.text_or_at("ServerVersion", ""),
            cluster_store: info.text_or_at("ClusterStore", ""),
            cluster_advertise: info.text_or_at("ClusterAdvertise", ""),
            runtimes: Vec::new(),
            default_runtime: info.text_or_at("DefaultRuntime", ""),
            swarm: SwarmInfo {
                node_id: "".to_owned(),
                node_addr: "".to_owned(),
                local_node_state: "".to_owned(),
                control_available: false,
                error: "".to_owned(),
                remote_managers: None,
                nodes: None,
                managers: None,
                cluster: None,
            },
            live_restore_enabled: info.flag_at("LiveRestoreEnabled"),
            isolation: info.text_or_at("Isolation", ""),
            init_binary: info.text_or_at("InitBinary", ""),
            containerd_commit: blank_commit(),
            runc_commit: blank_commit(),
            init_commit: blank_commit(),
            security_options: Vec::new(),
        };
        Ok(docker_info)
    }

    /// Get container metadata out of the daemon's answer to an inspection of
    /// the container: the description of the first container that the
    /// answer, a JSON list, holds.
    pub fn get_container_metadata(&self, container_id: &str, inspect_output: &str) -> (r: Result<
        ContainerMetadata,
        DockerError,
    >)
        ensures
            match json_document(inspect_output@) {
                Some(Json::Array(inspected)) => if inspected@.len() == 0 {
                    &&& r matches Err(e)
                    &&& e matches DockerError::ContainerNotFound(id)
                    &&& id@ == container_id@
                } else {
                    match r {
                        Ok(m) => is_container_metadata(inspected@[0], m),
                        Err(e) => is_metadata_error(inspected@[0], e),
                    }
                },
                _ => r matches Err(e) && e is InvalidAnswer,
            },
    {
        match Json::parse(inspect_output) {
            Some(Json::Array(inspected)) => {
                if inspected.len() == 0 {
                    return Err(DockerError::ContainerNotFound(container_id.to_owned()));
                }
                self.parse_container_metadata(&inspected[0])
            },
            _ => Err(DockerError::InvalidAnswer),
        }
    }

    /// Get Docker daemon information out of the daemon's description of
    /// itself, a JSON text, read at the time `now`.
    pub fn get_docker_info(&self, info_output: &str, now: Timestamp) -> (r: Result<
        DockerInfo,
        DockerError,
    >)
        ensures
            match json_document(info_output@) {
                Some(info) => r matches Ok(d) && is_docker_info(info, now, d),
                None => r matches Err(e) && e is InvalidAnswer,
            },
    {
        match Json::parse(info_output) {
            Some(info) => self.parse_docker_info(&info, now),
            None => Err(DockerError::InvalidAnswer),
        }
    }
}

impl Default for DockerClient {
    fn default() -> (r: Self) {
        Self::new()
    }
}

} // verus!
