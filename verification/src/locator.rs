//! Finding the writable layer of a container on disk: three ways of reading
//! the daemon's answers, tried in a fixed order, and what is reported when
//! all of them fail.

use vstd::prelude::*;
use crate::docker::{DockerClient, DockerError};
use crate::json::{json_document, Json};
use crate::paths::{join_path, joined, parent_dir, parent_of};
use crate::text::{
    chars_of, contains_text, find_text, position_of, same_but_for_case, same_text,
    same_text_but_for_case, slice_text, text_contains, texts_view, trim_text, trimmed,
};

verus! {

/// The storage driver whose layout of directories the locator knows.
pub open spec fn supported_driver() -> Seq<char> {
    "overlay2"@
}

/// The segment that marks the driver's store of layers in a path.
pub open spec fn store_marker() -> Seq<char> {
    "/overlay2/"@
}

/// A container in this state allows no work on its layer: it is being
/// removed or dead, in whatever case the state is written.
pub open spec fn is_refused_state(state: Seq<char>) -> bool {
    same_but_for_case(state, "removing"@) || same_but_for_case(state, "dead"@)
}

/// The text that the daemon prints for a field that is not there.
pub open spec fn no_value() -> Seq<char> {
    "<no value>"@
}

/// The writable directory that the daemon names outright, if it names one.
pub open spec fn direct_path(output: Seq<char>) -> Option<Seq<char>> {
    let t = trimmed(output);
    if t.len() == 0 || t == no_value() {
        None
    } else {
        Some(t)
    }
}

/// The directory of the layer: the parent of the merged directory that the
/// daemon names, if it names one that lies in a directory.
pub open spec fn layer_dir(output: Seq<char>) -> Option<Seq<char>> {
    let t = trimmed(output);
    if t.len() == 0 || t == no_value() {
        None
    } else {
        match parent_of(t) {
            Some(d) => if d.len() > 0 {
                Some(d)
            } else {
                None
            },
            None => None,
        }
    }
}

/// The writable directory beside the merged directory that the daemon names,
/// if it names one that lies in a directory. Where the field is not there,
/// or holds a name without a directory, there is none.
pub open spec fn derived_path(output: Seq<char>) -> Option<Seq<char>> {
    match layer_dir(output) {
        Some(d) => Some(joined(d, "upper"@)),
        None => None,
    }
}

/// The name of the layer in a path through the driver's store of layers:
/// what stands between the marker and the next separator.
pub open spec fn layer_id_of(path: Seq<char>) -> Option<Seq<char>> {
    let pos = position_of(path, store_marker());
    if pos < 0 {
        None
    } else {
        let after = path.skip(pos + store_marker().len());
        let cut = position_of(after, "/"@);
        Some(if cut < 0 {
            after
        } else {
            after.take(cut)
        })
    }
}

/// The writable directory of the layer of the given name.
pub open spec fn upper_dir_of(layer_id: Seq<char>) -> Seq<char> {
    "/var/lib/docker/overlay2/"@ + layer_id + "/upper"@
}

/// The writable directory that one field of the driver's data points to: the
/// field has to be a text that goes through the store of layers, under a key
/// that speaks of a directory or a path.
pub open spec fn candidate_of(key: Seq<char>, value: Json) -> Option<Seq<char>> {
    match value {
        Json::Text(t) => if contains_text(t@, store_marker()) && (contains_text(key, "Dir"@)
            || contains_text(key, "Path"@)) {
            match layer_id_of(t@) {
                Some(id) => Some(upper_dir_of(id)),
                None => None,
            }
        } else {
            None
        },
        _ => None,
    }
}

/// The writable directories that the fields of the driver's data point to,
/// in the order of the fields.
pub open spec fn candidates_of(members: Seq<(String, Json)>) -> Seq<Seq<char>>
    decreases members.len(),
{
    if members.len() == 0 {
        Seq::empty()
    } else {
        let rest = candidates_of(members.drop_last());
        match candidate_of(members.last().0@, members.last().1) {
            Some(p) => rest.push(p),
            None => rest,
        }
    }
}

/// Position `i` is the first of the first `n` that is marked present.
pub open spec fn is_first_present(present: Seq<bool>, n: int, i: int) -> bool {
    &&& 0 <= i < n
    &&& i < present.len()
    &&& present[i]
    &&& forall|j: int| 0 <= j < i ==> !present[j]
}

/// None of the first `n` positions is marked present.
pub open spec fn none_present(present: Seq<bool>, n: int) -> bool {
    forall|j: int| 0 <= j < n && j < present.len() ==> !present[j]
}

/// The way by which the writable layer was found.
#[derive(Clone, Copy, Debug, PartialEq, Eq, Structural)]
pub enum Strategy {
    /// The daemon named the directory.
    Direct,
    /// The directory lies beside the merged directory that the daemon named.
    Derived,
    /// The directory was made up from the name of the layer in the driver's
    /// data, and is there.
    Inferred,
}

/// How far the search for the writable layer has come.
#[derive(Debug)]
pub enum LocatorState {
    Start,
    AskedUpperDir,
    AskedMergedDir,
    AskedGraphDriver,
    /// The directories that are being looked for on disk.
    Probing(Vec<String>),
    Finished,
}

/// What came back from the step before.
#[derive(Debug)]
pub enum LocatorEvent {
    Begin,
    /// What the daemon printed, or nothing where it failed.
    Text(Option<String>),
    /// For each directory that was looked for, whether it is there.
    Probed(Vec<bool>),
}

/// What is to be done next.
#[derive(Debug)]
pub enum LocatorAction {
    /// Ask the daemon for the writable directory of the container.
    QueryUpperDir,
    /// Ask the daemon for the merged directory of the container.
    QueryMergedDir,
    /// Ask the daemon for the driver's record of the container.
    QueryGraphDriver,
    /// Look on disk for each of these directories.
    Probe(Vec<String>),
    /// The writable layer, and the way by which it was found.
    Found(String, Strategy),
    /// Every way failed: gather what an operator needs to see.
    Diagnose,
}

/// What the daemon printed, if the event carries that.
pub open spec fn printed(event: LocatorEvent) -> Option<Seq<char>> {
    match event {
        LocatorEvent::Text(Some(s)) => Some(s@),
        _ => None,
    }
}

/// The step is over with the layer found at `path` by way of `strategy`.
pub open spec fn is_found(
    next: LocatorState,
    action: LocatorAction,
    path: Seq<char>,
    strategy: Strategy,
) -> bool {
    &&& next is Finished
    &&& action matches LocatorAction::Found(p, s)
    &&& p@ == path
    &&& s == strategy
}

/// `next` and `action` are what follows from `state` and `event`: the ways
/// are tried in their order, the first that gives a directory wins, and when
/// the last has failed the search ends in a diagnosis.
pub open spec fn is_locator_step(
    state: LocatorState,
    event: LocatorEvent,
    next: LocatorState,
    action: LocatorAction,
) -> bool {
    match state {
        LocatorState::Start => next is AskedUpperDir && action is QueryUpperDir,
        LocatorState::AskedUpperDir => if printed(event) is Some && direct_path(
            printed(event).unwrap(),
        ) is Some {
            is_found(next, action, direct_path(printed(event).unwrap()).unwrap(), Strategy::Direct)
        } else {
            next is AskedMergedDir && action is QueryMergedDir
        },
        LocatorState::AskedMergedDir => if printed(event) is Some && derived_path(
            printed(event).unwrap(),
        ) is Some {
            is_found(
                next,
                action,
                derived_path(printed(event).unwrap()).unwrap(),
                Strategy::Derived,
            )
        } else {
            next is AskedGraphDriver && action is QueryGraphDriver
        },
        LocatorState::AskedGraphDriver => if printed(event) is Some && json_document(
            printed(event).unwrap(),
        ) is Some {
            let doc = json_document(printed(event).unwrap()).unwrap();
            &&& next matches LocatorState::Probing(kept)
            &&& action matches LocatorAction::Probe(asked)
            &&& texts_view(kept@) == candidates_of(doc.member("Data"@).members())
            &&& texts_view(asked@) == candidates_of(doc.member("Data"@).members())
        } else {
            next is Finished && action is Diagnose
        },
        LocatorState::Probing(candidates) => next is Finished && match event {
            LocatorEvent::Probed(present) => if none_present(present@, candidates@.len() as int) {
                action is Diagnose
            } else {
                exists|i: int|
                    is_first_present(present@, candidates@.len() as int, i) && is_found(
                        next,
                        action,
                        #[trigger] candidates@[i]@,
                        Strategy::Inferred,
                    )
            },
            _ => action is Diagnose,
        },
        LocatorState::Finished => next is Finished && action is Diagnose,
    }
}

/// The description of the container in the daemon's answer to an
/// inspection: the first element of the JSON list that the answer holds.
pub open spec fn inspected_container(inspect_output: Seq<char>) -> Option<Json> {
    match json_document(inspect_output) {
        Some(Json::Array(inspected)) => if inspected@.len() > 0 {
            Some(inspected@[0])
        } else {
            None
        },
        _ => None,
    }
}

/// One field of the driver's data: its key, and the path it holds where its
/// value is a text.
#[derive(Debug)]
pub struct PathField {
    pub key: String,
    pub path: Option<String>,
}

/// What was found on disk at one path.
#[derive(Clone, Copy, Debug)]
pub struct PathProbe {
    pub exists: bool,
    /// The number of entries, where the path is a directory that can be read.
    pub entries: Option<usize>,
}

/// One field of the driver's data with what was found on disk at its path.
#[derive(Debug)]
pub struct FieldReport {
    pub key: String,
    pub path: Option<String>,
    pub exists: bool,
    pub entries: Option<usize>,
}

/// What is known when no way led to the writable layer.
#[derive(Debug)]
pub struct ResolutionFailure {
    pub container_id: String,
    /// Every field of the driver's data, with what is on disk at its path.
    pub fields: Vec<FieldReport>,
    /// The state of the container, where the daemon told it.
    pub state: Option<String>,
    /// The storage driver of the host, where the daemon told it.
    pub driver: Option<String>,
    /// The host runs a storage driver other than the supported one.
    pub driver_mismatch: bool,
    /// The first layers of the driver's store, where it could be listed.
    pub layers: Option<Vec<String>>,
    /// How many layers the driver's store holds.
    pub layers_total: usize,
}

/// The key and the path of each of the fields.
pub open spec fn fields_view(fields: Seq<PathField>) -> Seq<(Seq<char>, Option<Seq<char>>)> {
    Seq::new(
        fields.len(),
        |i: int|
            (
                fields[i].key@,
                match fields[i].path {
                    Some(p) => Some(p@),
                    None => None,
                },
            ),
    )
}

/// The key and the path of each member of the driver's data.
pub open spec fn path_fields_of(members: Seq<(String, Json)>) -> Seq<
    (Seq<char>, Option<Seq<char>>),
> {
    Seq::new(members.len(), |i: int| (members[i].0@, members[i].1.text()))
}

/// The report on field `i`: a field without a path, or without a probe, is
/// reported as not there.
pub open spec fn is_field_report(
    fields: Seq<PathField>,
    probes: Seq<PathProbe>,
    i: int,
    report: FieldReport,
) -> bool {
    let probed = fields[i].path is Some && i < probes.len();
    &&& report.key@ == fields[i].key@
    &&& match (report.path, fields[i].path) {
        (Some(a), Some(b)) => a@ == b@,
        (None, None) => true,
        _ => false,
    }
    &&& report.exists == (probed && probes[i].exists)
    &&& report.entries == if probed && probes[i].exists {
        probes[i].entries
    } else {
        None
    }
}

/// How many layers of the store are shown.
pub const SHOWN_LAYERS: usize = 5;

/// `failure` reports what was gathered.
pub open spec fn is_resolution_failure(
    container_id: Seq<char>,
    container: Option<Json>,
    fields: Seq<PathField>,
    probes: Seq<PathProbe>,
    driver: Option<Seq<char>>,
    listing: Option<Seq<String>>,
    failure: ResolutionFailure,
) -> bool {
    &&& failure.container_id@ == container_id
    &&& failure.fields@.len() == fields.len()
    &&& forall|i: int|
        0 <= i < fields.len() ==> is_field_report(fields, probes, i, #[trigger] failure.fields@[i])
    &&& match (failure.state, container) {
        (Some(s), Some(c)) => c.member("State"@).member("Status"@).text() == Some(s@),
        (None, Some(c)) => c.member("State"@).member("Status"@).text() is None,
        (None, None) => true,
        _ => false,
    }
    &&& match (failure.driver, driver) {
        (Some(a), Some(b)) => a@ == b,
        (None, None) => true,
        _ => false,
    }
    &&& failure.driver_mismatch == (driver is Some && driver.unwrap() != supported_driver())
    &&& match (failure.layers, listing) {
        (Some(shown), Some(all)) => {
            &&& failure.layers_total == all.len()
            &&& texts_view(shown@) == texts_view(
                all.take(
                    if all.len() < SHOWN_LAYERS {
                        all.len() as int
                    } else {
                        SHOWN_LAYERS as int
                    },
                ),
            )
        },
        (None, None) => failure.layers_total == 0,
        _ => false,
    }
}

impl ResolutionFailure {
    /// The failure in one sentence.
    pub fn message(&self) -> (r: String)
        ensures
            r@ == "Container upper layer directory not found after trying all methods. Container ID: "@
                + self.container_id@ + ". Please check the debugging information above."@,
    {
        "Container upper layer directory not found after trying all methods. Container ID: "
            .to_owned().concat(self.container_id.as_str()).concat(
            ". Please check the debugging information above.",
        )
    }
}

/// The description of the container in the daemon's answer to an
/// inspection.
fn first_container(inspect_output: &str) -> (r: Option<Json>)
    ensures
        r == inspected_container(inspect_output@),
{
    match Json::parse(inspect_output) {
        Some(Json::Array(inspected)) => {
            let mut inspected = inspected;
            if inspected.len() > 0 {
                Some(inspected.remove(0))
            } else {
                None
            }
        },
        _ => None,
    }
}

/// The fields of the driver's data in the description of a container.
fn container_path_fields(container: &Json) -> (r: Vec<PathField>)
    ensures
        fields_view(r@) == path_fields_of(
            container.member("GraphDriver"@).member("Data"@).members(),
        ),
{
    let mut fields: Vec<PathField> = Vec::new();
    let found = match container.get("GraphDriver") {
        Some(graph_driver) => graph_driver.members_at("Data"),
        None => None,
    };
    match found {
        Some(members) => {
            let mut i: usize = 0;
            while i < members.len()
                invariant
                    i <= members.len(),
                    fields@.len() == i,
                    forall|j: int|
                        0 <= j < i ==> fields_view(fields@)[j] == (#[trigger] path_fields_of(
                            members@,
                        )[j]),
                decreases members.len() - i,
            {
                let path = match &members[i].1 {
                    Json::Text(t) => Some(t.clone()),
                    _ => None,
                };
                fields.push(PathField { key: members[i].0.clone(), path });
                i += 1;
            }
            assert(fields_view(fields@) =~= path_fields_of(members@));
        },
        None => {
            assert(fields_view(fields@) =~= Seq::<(Seq<char>, Option<Seq<char>>)>::empty());
            assert(path_fields_of(Seq::<(String, Json)>::empty()) =~= Seq::<
                (Seq<char>, Option<Seq<char>>),
            >::empty());
        },
    }
    fields
}

impl DockerClient {
    /// Validate container state and readiness for layer operations. A
    /// container that is not there, or is being removed or dead, is refused.
    /// The answer says whether the host runs a storage driver other than the
    /// supported one, which is no reason to refuse.
    pub fn validate_container_for_layer_operations(
        &self,
        container_id: &str,
        exists: bool,
        state: &str,
        driver: &str,
    ) -> (r: Result<bool, DockerError>)
        ensures
            match r {
                Ok(mismatch) => {
                    &&& exists
                    &&& !is_refused_state(state@)
                    &&& mismatch == (driver@ != supported_driver())
                },
                Err(e) => if !exists {
                    e matches DockerError::ContainerNotFound(id) && id@ == container_id@
                } else {
                    &&& is_refused_state(state@)
                    &&& e matches DockerError::InvalidState(s)
                    &&& s@ == state@
                },
            },
    {
        match self.check_container_state(container_id, exists, state) {
            Ok(_) => Ok(!same_text(driver, "overlay2")),
            Err(e) => Err(e),
        }
    }

    /// The refusals among the validation of a container: a container that is
    /// not there, then one that is being removed or dead.
    pub fn check_container_state(&self, container_id: &str, exists: bool, state: &str) -> (r: Result<
        (),
        DockerError,
    >)
        ensures
            match r {
                Ok(_) => exists && !is_refused_state(state@),
                Err(e) => if !exists {
                    e matches DockerError::ContainerNotFound(id) && id@ == container_id@
                } else {
                    &&& is_refused_state(state@)
                    &&& e matches DockerError::InvalidState(s)
                    &&& s@ == state@
                },
            },
    {
        if !exists {
            return Err(DockerError::ContainerNotFound(container_id.to_owned()));
        }
        if same_text_but_for_case(state, "removing") || same_text_but_for_case(state, "dead") {
            return Err(DockerError::InvalidState(state.to_owned()));
        }
        Ok(())
    }

    /// Get the path to container's layer directory: the parent of the merged
    /// directory that the daemon printed. An answer that names no directory,
    /// or a name that lies in none, is refused.
    pub fn get_container_layer_path(&self, merged_dir_output: &str) -> (r: Result<
        String,
        DockerError,
    >)
        ensures
            match r {
                Ok(d) => layer_dir(merged_dir_output@) == Some(d@),
                Err(e) => layer_dir(merged_dir_output@) is None && if trimmed(
                    merged_dir_output@,
                ).len() == 0 || trimmed(merged_dir_output@) == no_value() {
                    e is EmptyLayerPath
                } else {
                    e matches DockerError::InvalidLayerPath(p) && p@ == trimmed(merged_dir_output@)
                },
            },
    {
        let merged_dir = trim_text(merged_dir_output);
        if merged_dir.as_str().is_empty() || same_text(merged_dir.as_str(), "<no value>") {
            return Err(DockerError::EmptyLayerPath);
        }
        match parent_dir(merged_dir.as_str()) {
            Some(d) => if d.as_str().is_empty() {
                Err(DockerError::InvalidLayerPath(merged_dir))
            } else {
                Ok(d)
            },
            None => Err(DockerError::InvalidLayerPath(merged_dir)),
        }
    }

    /// Method 1: the writable directory that the daemon printed.
    pub fn get_upper_layer_path_direct(&self, upper_dir_output: &str) -> (r: Result<
        String,
        DockerError,
    >)
        ensures
            match r {
                Ok(p) => direct_path(upper_dir_output@) == Some(p@),
                Err(e) => direct_path(upper_dir_output@) is None && e is UpperDirUnavailable,
            },
    {
        let upper_dir = trim_text(upper_dir_output);
        if upper_dir.as_str().is_empty() || same_text(upper_dir.as_str(), "<no value>") {
            return Err(DockerError::UpperDirUnavailable);
        }
        Ok(upper_dir)
    }

    /// Method 2: Traditional approach using MergedDir parent + upper.
    pub fn get_upper_layer_path_traditional(&self, merged_dir_output: &str) -> (r: Result<
        String,
        DockerError,
    >)
        ensures
            match r {
                Ok(p) => derived_path(merged_dir_output@) == Some(p@),
                Err(e) => derived_path(merged_dir_output@) is None && (e is EmptyLayerPath
                    || e is InvalidLayerPath),
            },
    {
        match self.get_container_layer_path(merged_dir_output) {
            Ok(layer_path) => Ok(join_path(layer_path.as_str(), "upper")),
            Err(e) => Err(e),
        }
    }

    /// Extract layer ID from overlay2 path.
    pub fn extract_layer_id_from_path(&self, path: &str) -> (r: Option<String>)
        ensures
            match r {
                Some(id) => layer_id_of(path@) == Some(id@),
                None => layer_id_of(path@) is None,
            },
    {
        let v = chars_of(path);
        let marker = chars_of("/overlay2/");
        let pos = match find_text(&v, &marker) {
            Some(pos) => pos,
            None => {
                return None;
            },
        };
        let n = v.len();
        assert(crate::text::occurs_at(v@, marker@, pos as int));
        assert(pos + marker@.len() <= n);
        let start = pos + marker.len();
        let after = slice_text(path, start, n);
        assert(after@ =~= path@.skip(start as int));
        let a = chars_of(after.as_str());
        let slash = chars_of("/");
        match find_text(&a, &slash) {
            Some(cut) => {
                assert(after@.take(cut as int) =~= after@.subrange(0, cut as int));
                Some(slice_text(after.as_str(), 0, cut))
            },
            None => Some(after),
        }
    }

    /// Method 3, first half: the writable directories that the driver's
    /// record of the container points to, to be looked for on disk.
    pub fn inspection_candidates(&self, graph_driver: &Json) -> (r: Vec<String>)
        ensures
            texts_view(r@) == candidates_of(graph_driver.member("Data"@).members()),
    {
        let mut found: Vec<String> = Vec::new();
        match graph_driver.members_at("Data") {
            Some(members) => {
                let mut i: usize = 0;
                assert(members@.take(0) =~= Seq::<(String, Json)>::empty());
                assert(texts_view(found@) =~= Seq::<Seq<char>>::empty());
                while i < members.len()
                    invariant
                        i <= members.len(),
                        texts_view(found@) == candidates_of(members@.take(i as int)),
                    decreases members.len() - i,
                {
                    proof {
                        let next = members@.take(i + 1);
                        assert(next.drop_last() =~= members@.take(i as int));
                        assert(next.last() == members@[i as int]);
                    }
                    let ghost before = texts_view(found@);
                    let key = members[i].0.as_str();
                    match &members[i].1 {
                        Json::Text(t) => {
                            if text_contains(t.as_str(), "/overlay2/") && (text_contains(key, "Dir")
                                || text_contains(key, "Path")) {
                                match self.extract_layer_id_from_path(t.as_str()) {
                                    Some(id) => {
                                        let p = "/var/lib/docker/overlay2/".to_owned().concat(
                                            id.as_str(),
                                        ).concat("/upper");
                                        let ghost pv = p@;
                                        found.push(p);
                                        assert(texts_view(found@) =~= before.push(pv));
                                    },
                                    None => {},
                                }
                            }
                        },
                        _ => {},
                    }
                    i += 1;
                }
                assert(members@.take(members@.len() as int) =~= members@);
            },
            None => {
                assert(texts_view(found@) =~= Seq::<Seq<char>>::empty());
            },
        }
        found
    }

    /// Method 3, second half: the first of the directories that is there.
    pub fn get_upper_layer_path_by_inspection(
        &self,
        candidates: &Vec<String>,
        present: &Vec<bool>,
    ) -> (r: Result<String, DockerError>)
        ensures
            match r {
                Ok(p) => exists|i: int|
                    is_first_present(present@, candidates@.len() as int, i) && p@
                        == #[trigger] candidates@[i]@,
                Err(e) => none_present(present@, candidates@.len() as int) && e is InspectionFailed,
            },
    {
        let mut i: usize = 0;
        while i < candidates.len() && i < present.len()
            invariant
                i <= candidates.len(),
                i <= present.len(),
                forall|j: int| 0 <= j < i ==> !present@[j],
            decreases candidates.len() - i,
        {
            if present[i] {
                let p = candidates[i].clone();
                assert(is_first_present(present@, candidates@.len() as int, i as int));
                assert(p@ == candidates@[i as int]@);
                return Ok(p);
            }
            i += 1;
        }
        Err(DockerError::InspectionFailed)
    }

    /// Get the upper layer directory path (read-write layer), one step at a
    /// time: from where the search stands and what came back, to where it
    /// stands next and what is to be done.
    pub fn get_upper_layer_path(&self, state: LocatorState, event: LocatorEvent) -> (r: (
        LocatorState,
        LocatorAction,
    ))
        ensures
            is_locator_step(state, event, r.0, r.1),
    {
        match state {
            LocatorState::Start => (LocatorState::AskedUpperDir, LocatorAction::QueryUpperDir),
            LocatorState::AskedUpperDir => {
                match event {
                    LocatorEvent::Text(Some(output)) => {
                        match self.get_upper_layer_path_direct(output.as_str()) {
                            Ok(p) => {
                                return (
                                    LocatorState::Finished,
                                    LocatorAction::Found(p, Strategy::Direct),
                                );
                            },
                            Err(_) => {},
                        }
                    },
                    _ => {},
                }
                (LocatorState::AskedMergedDir, LocatorAction::QueryMergedDir)
            },
            LocatorState::AskedMergedDir => {
                match event {
                    LocatorEvent::Text(Some(output)) => {
                        match self.get_upper_layer_path_traditional(output.as_str()) {
                            Ok(p) => {
                                return (
                                    LocatorState::Finished,
                                    LocatorAction::Found(p, Strategy::Derived),
                                );
                            },
                            Err(_) => {},
                        }
                    },
                    _ => {},
                }
                (LocatorState::AskedGraphDriver, LocatorAction::QueryGraphDriver)
            },
            LocatorState::AskedGraphDriver => {
                match event {
                    LocatorEvent::Text(Some(output)) => {
                        match Json::parse(output.as_str()) {
                            Some(doc) => {
                                let kept = self.inspection_candidates(&doc);
                                let asked = self.inspection_candidates(&doc);
                                (LocatorState::Probing(kept), LocatorAction::Probe(asked))
                            },
                            None => (LocatorState::Finished, LocatorAction::Diagnose),
                        }
                    },
                    _ => (LocatorState::Finished, LocatorAction::Diagnose),
                }
            },
            LocatorState::Probing(candidates) => {
                match event {
                    LocatorEvent::Probed(present) => {
                        match self.get_upper_layer_path_by_inspection(&candidates, &present) {
                            Ok(p) => {
                                proof {
                                    let n = candidates@.len() as int;
                                    let i = choose|i: int|
                                        is_first_present(present@, n, i) && p@
                                            == #[trigger] candidates@[i]@;
                                    assert(present@[i]);
                                    assert(!none_present(present@, n));
                                }
                                (LocatorState::Finished, LocatorAction::Found(p, Strategy::Inferred))
                            },
                            Err(_) => (LocatorState::Finished, LocatorAction::Diagnose),
                        }
                    },
                    _ => (LocatorState::Finished, LocatorAction::Diagnose),
                }
            },
            LocatorState::Finished => (LocatorState::Finished, LocatorAction::Diagnose),
        }
    }

    /// The fields of the driver's data in the daemon's answer to an
    /// inspection of the container: each key, and the path under it where
    /// the value is a text. An answer that describes no container has none.
    pub fn layer_path_fields(&self, inspect_output: &str) -> (r: Vec<PathField>)
        ensures
            fields_view(r@) == match inspected_container(inspect_output@) {
                Some(container) => path_fields_of(
                    container.member("GraphDriver"@).member("Data"@).members(),
                ),
                None => Seq::empty(),
            },
    {
        match first_container(inspect_output) {
            Some(container) => container_path_fields(&container),
            None => {
                let fields: Vec<PathField> = Vec::new();
                assert(fields_view(fields@) =~= Seq::<(Seq<char>, Option<Seq<char>>)>::empty());
                fields
            },
        }
    }

    /// Provide detailed error information when upper layer path cannot be
    /// found: every field of the driver's data with what is on disk at its
    /// path, the state of the container as the daemon's answer to an
    /// inspection tells it, the storage driver of the host, and the first
    /// layers of the driver's store.
    pub fn provide_detailed_layer_error(
        &self,
        container_id: &str,
        inspect_output: Option<&str>,
        fields: Vec<PathField>,
        probes: &Vec<PathProbe>,
        driver: Option<&str>,
        listing: Option<&Vec<String>>,
    ) -> (r: ResolutionFailure)
        ensures
            is_resolution_failure(
                container_id@,
                match inspect_output {
                    Some(output) => inspected_container(output@),
                    None => None,
                },
                fields@,
                probes@,
                match driver {
                    Some(d) => Some(d@),
                    None => None,
                },
                match listing {
                    Some(l) => Some(l@),
                    None => None,
                },
                r,
            ),
    {
        let mut reports: Vec<FieldReport> = Vec::new();
        let mut i: usize = 0;
        while i < fields.len()
            invariant
                i <= fields.len(),
                reports@.len() == i,
                forall|j: int|
                    0 <= j < i ==> is_field_report(fields@, probes@, j, #[trigger] reports@[j]),
            decreases fields.len() - i,
        {
            let field = &fields[i];
            let path = match &field.path {
                Some(p) => Some(p.clone()),
                None => None,
            };
            let probed = field.path.is_some() && i < probes.len();
            let exists = probed && probes[i].exists;
            let entries = if exists {
                probes[i].entries
            } else {
                None
            };
            reports.push(FieldReport { key: field.key.clone(), path, exists, entries });
            i += 1;
        }
        let container = match inspect_output {
            Some(output) => first_container(output),
            None => None,
        };
        let state = match &container {
            Some(c) => match c.get("State") {
                Some(s) => match s.text_at("Status") {
                    Some(t) => Some(t.to_owned()),
                    None => None,
                },
                None => None,
            },
            None => None,
        };
        let (driver_name, driver_mismatch) = match driver {
            Some(d) => (Some(d.to_owned()), !same_text(d, "overlay2")),
            None => (None, false),
        };
        let (layers, layers_total) = match listing {
            Some(all) => {
                let shown_len = if all.len() < SHOWN_LAYERS {
                    all.len()
                } else {
                    SHOWN_LAYERS
                };
                let mut shown: Vec<String> = Vec::new();
                let mut k: usize = 0;
                while k < shown_len
                    invariant
                        k <= shown_len <= all.len(),
                        shown@.len() == k,
                        forall|j: int| 0 <= j < k ==> (#[trigger] shown@[j])@ == all@[j]@,
                    decreases shown_len - k,
                {
                    shown.push(all[k].clone());
                    k += 1;
                }
                assert(texts_view(shown@) =~= texts_view(all@.take(shown_len as int)));
                (Some(shown), all.len())
            },
            None => (None, 0),
        };
        ResolutionFailure {
            container_id: container_id.to_owned(),
            fields: reports,
            state,
            driver: driver_name,
            driver_mismatch,
            layers,
            layers_total,
        }
    }
}

} // verus!
