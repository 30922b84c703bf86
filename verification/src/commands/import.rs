//! Applying an archive to the writable layer of a container.

use vstd::prelude::*;
use crate::archive::{
    all_contained, entries_of, extract_tar_archive, first_escape, is_escape_error, is_opened,
    kind_of, members_of, open_bundle, tar_members, ArchiveError, Bundle, MemberView,
};
use crate::checksum::{calculate_directory_checksum, checksum_text, lemma_sorted_tree};
use crate::commands::check::CheckError;
use crate::commands::export::{is_export, Export};
use crate::docker::{DockerClient, DockerError};
use crate::layer::{is_plain_entry, is_plain_tree, lemma_plain_members};
use crate::locator::is_refused_state;
use crate::paths::{with_extension, with_extension_of};
use crate::text::same_text;
use crate::tree::{distinct_paths, sorted_tree, tree_view, EntryKind, EntryView, TreeEntry};
use crate::types::{ContainerMetadata, DockerInfo, ExportData, Timestamp};

verus! {

/// One change to the file system that the import asks for.
#[derive(Debug)]
pub enum FsAction {
    /// Remove a directory with all that it holds.
    RemoveTree(String),
    /// Move a directory to another path.
    Rename { from: String, to: String },
    /// Make a directory, with the directories above it.
    CreateDir(String),
}

/// The mathematical value of an [`FsAction`].
pub ghost enum FsActionView {
    RemoveTree(Seq<char>),
    Rename { from: Seq<char>, to: Seq<char> },
    CreateDir(Seq<char>),
}

impl View for FsAction {
    type V = FsActionView;

    open spec fn view(&self) -> FsActionView {
        match *self {
            FsAction::RemoveTree(p) => FsActionView::RemoveTree(p@),
            FsAction::Rename { from, to } => FsActionView::Rename { from: from@, to: to@ },
            FsAction::CreateDir(p) => FsActionView::CreateDir(p@),
        }
    }
}

/// The values of a list of actions.
pub open spec fn actions_view(actions: Seq<FsAction>) -> Seq<FsActionView> {
    Seq::new(actions.len(), |i: int| actions[i]@)
}

/// Where the layer that is there goes when it is kept: beside the target,
/// under the extension `backup`.
pub open spec fn backup_path_of(target: Seq<char>) -> Seq<char> {
    with_extension_of(target, "backup"@)
}

/// What is done to the target directory before the layer is written into
/// it. With a backup asked for, a target that holds anything is moved to the
/// backup path, after a backup that is there was removed; an empty or
/// missing target is left. Without a backup a target that is there is
/// removed. In the end the target is made afresh.
pub open spec fn replacement_plan(
    target: Seq<char>,
    backup: bool,
    target_exists: bool,
    target_entries: nat,
    backup_exists: bool,
) -> Seq<FsActionView> {
    let create = seq![FsActionView::CreateDir(target)];
    if backup {
        if target_exists && target_entries > 0 {
            let kept = backup_path_of(target);
            let moved = seq![FsActionView::Rename { from: target, to: kept }];
            if backup_exists {
                seq![FsActionView::RemoveTree(kept)] + moved + create
            } else {
                moved + create
            }
        } else {
            create
        }
    } else {
        if target_exists {
            seq![FsActionView::RemoveTree(target)] + create
        } else {
            create
        }
    }
}

/// Why an import was refused before anything was touched.
#[derive(Debug)]
pub enum ImportError {
    /// The container allows no work on its layer.
    Container(DockerError),
    /// The archive was taken on another architecture than that of the host.
    Incompatible { archived: String, current: String },
    /// The layer stream cannot be read, or holds what may not be written.
    Layer(ArchiveError),
}

impl ImportError {
    /// The error in words.
    pub fn message(&self) -> (r: String)
        ensures
            r@ == match *self {
                ImportError::Container(e) => e.message_text(),
                ImportError::Incompatible { archived, current } => "Architecture mismatch: export from '"@
                    + archived@ + "', current system is '"@ + current@ + "'"@,
                ImportError::Layer(e) => e.message_text(),
            },
    {
        match self {
            ImportError::Container(e) => e.message(),
            ImportError::Incompatible { archived, current } => "Architecture mismatch: export from '"
                .to_owned().concat(archived.as_str()).concat("', current system is '").concat(
                current.as_str(),
            ).concat("'"),
            ImportError::Layer(e) => e.message(),
        }
    }
}

/// Position `i` holds the first member that is neither file nor directory.
pub open spec fn first_unsupported(members: Seq<MemberView>, i: int) -> bool {
    &&& 0 <= i < members.len()
    &&& kind_of(members[i].typeflag) == EntryKind::Other
    &&& forall|j: int| 0 <= j < i ==> kind_of(#[trigger] members[j].typeflag) != EntryKind::Other
}

/// Every member is a file or a directory.
pub open spec fn all_supported(members: Seq<MemberView>) -> bool {
    forall|j: int| 0 <= j < members.len() ==> kind_of(#[trigger] members[j].typeflag)
        != EntryKind::Other
}

/// The architectures of the archive and of the host differ, where the host
/// is known.
pub open spec fn is_other_architecture(data: ExportData, host: Option<DockerInfo>) -> bool {
    host is Some && data.docker_info.architecture@ != host.unwrap().architecture@
}

/// What [`ImportCommand::execute`] answers: the first refusal, in this
/// order, or what is to be done. A container that is not there, or is being
/// removed or dead, is refused; then an archive of another architecture than
/// that of the host; then a layer stream that is no archive; then one with a
/// member whose path would leave the target directory; then one with a
/// member that is neither file nor directory. Otherwise the answer is the
/// plan of what is done to the target directory before the layer is written,
/// and the tree to write, which is the tree that the layer stream holds.
pub open spec fn is_import(
    data: ExportData,
    layer: Seq<u8>,
    host: Option<DockerInfo>,
    container_id: Seq<char>,
    container_exists: bool,
    state: Seq<char>,
    target: Seq<char>,
    backup: bool,
    target_exists: bool,
    target_entries: nat,
    backup_exists: bool,
    r: Result<(Vec<FsAction>, Vec<TreeEntry>), ImportError>,
) -> bool {
    if !container_exists {
        &&& r matches Err(e)
        &&& e matches ImportError::Container(inner)
        &&& inner matches DockerError::ContainerNotFound(id)
        &&& id@ == container_id
    } else if is_refused_state(state) {
        &&& r matches Err(e)
        &&& e matches ImportError::Container(inner)
        &&& inner matches DockerError::InvalidState(s)
        &&& s@ == state
    } else if is_other_architecture(data, host) {
        &&& r matches Err(e)
        &&& e matches ImportError::Incompatible { archived, current }
        &&& archived@ == data.docker_info.architecture@
        &&& current@ == host.unwrap().architecture@
    } else if tar_members(layer) is None {
        &&& r matches Err(e)
        &&& e matches ImportError::Layer(inner)
        &&& inner is Codec
    } else {
        let members = tar_members(layer).unwrap();
        if !all_contained(members) {
            &&& r matches Err(e)
            &&& e matches ImportError::Layer(inner)
            &&& exists|i: int|
                first_escape(members, i) && is_escape_error(inner, #[trigger] members[i].path)
        } else if !all_supported(members) {
            &&& r matches Err(e)
            &&& e matches ImportError::Layer(inner)
            &&& inner matches ArchiveError::Unsupported(p)
            &&& exists|i: int| first_unsupported(members, i) && p@ == #[trigger] members[i].path
        } else {
            &&& r matches Ok(todo)
            &&& actions_view(todo.0@) == replacement_plan(
                target,
                backup,
                target_exists,
                target_entries,
                backup_exists,
            )
            &&& tree_view(todo.1@) == entries_of(members)
        }
    }
}

/// What was exported can be imported. The layer stream that an export made
/// of a plain tree, each path standing once, is not refused by an import
/// into a container that is there and in a state that allows it, on a host
/// of the same architecture or an unknown one: the import hands out the plan
/// for the target directory, and the tree to write is the tree that was
/// packed, in the order of the paths and without its root, with the checksum
/// that the manifest records.
pub proof fn lemma_export_then_import(
    container_metadata: ContainerMetadata,
    docker_info: DockerInfo,
    tree: Seq<EntryView>,
    output_path: Seq<char>,
    compress: bool,
    now: Timestamp,
    export: Export,
    host: Option<DockerInfo>,
    container_id: Seq<char>,
    state: Seq<char>,
    target: Seq<char>,
    backup: bool,
    target_exists: bool,
    target_entries: nat,
    backup_exists: bool,
    r: Result<(Vec<FsAction>, Vec<TreeEntry>), ImportError>,
)
    requires
        is_plain_tree(tree),
        distinct_paths(tree),
        is_export(container_metadata, docker_info, tree, output_path, compress, now, Ok(export)),
        !is_refused_state(state),
        !is_other_architecture(export.data, host),
        is_import(
            export.data,
            export.layer@,
            host,
            container_id,
            true,
            state,
            target,
            backup,
            target_exists,
            target_entries,
            backup_exists,
            r,
        ),
    ensures
        r matches Ok(todo) && {
            &&& actions_view(todo.0@) == replacement_plan(
                target,
                backup,
                target_exists,
                target_entries,
                backup_exists,
            )
            &&& tree_view(todo.1@) == entries_of(members_of(sorted_tree(tree)))
            &&& checksum_text(tree_view(todo.1@)) == export.data.layer_checksum@
            &&& export.data.layer_checksum@ == checksum_text(tree)
        },
{
    let sorted = sorted_tree(tree);
    lemma_sorted_tree(tree);
    assert forall|i: int| 0 <= i < sorted.len() implies is_plain_entry(#[trigger] sorted[i]) by {
        assert(sorted.contains(sorted[i]));
        assert(tree.contains(sorted[i]));
    }
    lemma_plain_members(sorted);
    assert(tar_members(export.layer@) == Some(members_of(sorted)));
    assert(all_supported(members_of(sorted)));
}

/// The position of the first entry that is neither file nor directory.
fn find_unsupported(tree: &Vec<TreeEntry>) -> (r: Option<usize>)
    ensures
        match r {
            Some(i) => {
                &&& i < tree@.len()
                &&& tree@[i as int].kind == EntryKind::Other
                &&& forall|j: int| 0 <= j < i ==> (#[trigger] tree@[j]).kind != EntryKind::Other
            },
            None => forall|j: int|
                0 <= j < tree@.len() ==> (#[trigger] tree@[j]).kind != EntryKind::Other,
        },
{
    let mut i: usize = 0;
    while i < tree.len()
        invariant
            i <= tree.len(),
            forall|j: int| 0 <= j < i ==> (#[trigger] tree@[j]).kind != EntryKind::Other,
        decreases tree.len() - i,
    {
        match tree[i].kind {
            EntryKind::Other => {
                return Some(i);
            },
            _ => {},
        }
        i += 1;
    }
    None
}

/// The import of an archive into the writable layer of a container.
pub struct ImportCommand {
    docker_client: DockerClient,
}

impl ImportCommand {
    /// An import that reads the daemon's answers with a client of its own.
    pub fn new() -> (r: Self) {
        Self { docker_client: DockerClient::new() }
    }

    /// The client with which the import reads the daemon's answers.
    pub fn client(&self) -> (r: &DockerClient) {
        &self.docker_client
    }

    /// Extract the export archive (metadata + layer tar): opens the archive
    /// file and hands out its two parts.
    pub fn extract_export_archive(&self, input: &[u8]) -> (r: Result<Bundle, ArchiveError>)
        ensures
            is_opened(input@, r),
    {
        open_bundle(input)
    }

    /// Where the layer that is there goes when it is kept.
    pub fn backup_path(&self, target: &str) -> (r: String)
        ensures
            r@ == backup_path_of(target@),
    {
        with_extension(target, "backup")
    }

    /// What is to be done to the target directory before the layer is
    /// written into it.
    pub fn plan_replacement(
        &self,
        target: &str,
        backup: bool,
        target_exists: bool,
        target_entries: usize,
        backup_exists: bool,
    ) -> (r: Vec<FsAction>)
        ensures
            actions_view(r@) == replacement_plan(
                target@,
                backup,
                target_exists,
                target_entries as nat,
                backup_exists,
            ),
    {
        let mut plan: Vec<FsAction> = Vec::new();
        if backup {
            if target_exists && target_entries > 0 {
                if backup_exists {
                    plan.push(FsAction::RemoveTree(self.backup_path(target)));
                }
                plan.push(FsAction::Rename { from: target.to_owned(), to: self.backup_path(target) });
            }
        } else if target_exists {
            plan.push(FsAction::RemoveTree(target.to_owned()));
        }
        plan.push(FsAction::CreateDir(target.to_owned()));
        assert(actions_view(plan@) =~= replacement_plan(
            target@,
            backup,
            target_exists,
            target_entries as nat,
            backup_exists,
        ));
        plan
    }

    /// Import layer data, up to the first change on disk: refuses what may
    /// not be imported, and otherwise hands out what is to be done to the
    /// target directory and the tree to write into it. Nothing is touched
    /// where it refuses.
    pub fn execute(
        &self,
        data: &ExportData,
        layer: &[u8],
        host: Option<&DockerInfo>,
        container_id: &str,
        container_exists: bool,
        state: &str,
        target: &str,
        backup: bool,
        target_exists: bool,
        target_entries: usize,
        backup_exists: bool,
    ) -> (r: Result<(Vec<FsAction>, Vec<TreeEntry>), ImportError>)
        ensures
            is_import(
                *data,
                layer@,
                match host {
                    Some(h) => Some(*h),
                    None => None,
                },
                container_id@,
                container_exists,
                state@,
                target@,
                backup,
                target_exists,
                target_entries as nat,
                backup_exists,
                r,
            ),
    {
        match self.docker_client.check_container_state(container_id, container_exists, state) {
            Ok(_) => {},
            Err(e) => {
                return Err(ImportError::Container(e));
            },
        }
        match host {
            Some(h) => {
                if !same_text(data.docker_info.architecture.as_str(), h.architecture.as_str()) {
                    return Err(
                        ImportError::Incompatible {
                            archived: data.docker_info.architecture.clone(),
                            current: h.architecture.clone(),
                        },
                    );
                }
            },
            None => {},
        }
        let tree = match extract_tar_archive(layer) {
            Ok(tree) => tree,
            Err(e) => {
                return Err(ImportError::Layer(e));
            },
        };
        let ghost members = tar_members(layer@).unwrap();
        assert(tree_view(tree@).len() == tree@.len());
        assert(all_contained(members));
        match find_unsupported(&tree) {
            Some(i) => {
                assert(tree_view(tree@)[i as int] == entries_of(members)[i as int]);
                assert forall|j: int| 0 <= j < i implies kind_of(#[trigger] members[j].typeflag)
                    != EntryKind::Other by {
                    assert(tree_view(tree@)[j] == entries_of(members)[j]);
                    assert(tree@[j].kind != EntryKind::Other);
                }
                assert(first_unsupported(members, i as int));
                return Err(ImportError::Layer(ArchiveError::Unsupported(tree[i].path.clone())));
            },
            None => {
                assert forall|j: int| 0 <= j < members.len() implies kind_of(
                    #[trigger] members[j].typeflag,
                ) != EntryKind::Other by {
                    assert(tree_view(tree@)[j] == entries_of(members)[j]);
                    assert(tree@[j].kind != EntryKind::Other);
                }
            },
        }
        let plan = self.plan_replacement(target, backup, target_exists, target_entries, backup_exists);
        Ok((plan, tree))
    }

    /// Verifies the layer that was written: the tree that is now in the
    /// target directory has to have the checksum that the manifest records.
    pub fn verify_checksum(&self, data: &ExportData, written: &Vec<TreeEntry>) -> (r: Result<
        String,
        CheckError,
    >)
        ensures
            match r {
                Ok(sum) => sum@ == data.layer_checksum@ && sum@ == checksum_text(
                    tree_view(written@),
                ),
                Err(e) => {
                    &&& checksum_text(tree_view(written@)) != data.layer_checksum@
                    &&& e matches CheckError::ChecksumMismatch { expected, actual }
                    &&& expected@ == data.layer_checksum@
                    &&& actual@ == checksum_text(tree_view(written@))
                },
            },
    {
        let actual = calculate_directory_checksum(written);
        if !same_text(actual.as_str(), data.layer_checksum.as_str()) {
            return Err(
                CheckError::ChecksumMismatch { expected: data.layer_checksum.clone(), actual },
            );
        }
        Ok(actual)
    }
}

impl Default for ImportCommand {
    fn default() -> (r: Self) {
        Self::new()
    }
}

} // verus!
