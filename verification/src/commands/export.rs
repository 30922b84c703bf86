//! Taking an archive of the writable layer of a container.

use vstd::prelude::*;
use crate::archive::{
    bundle_members, compose, is_sealed, seal_bundle, tar_members, tar_stream, ArchiveError,
};
use crate::docker::{DockerClient, DockerError};
use crate::layer::{create_tar_archive, is_packed};
use crate::locator::{is_refused_state, supported_driver};
use crate::paths::{has_extension, path_has_extension, with_extension, with_extension_of};
use crate::tree::{tree_view, EntryView, TreeEntry};
use crate::types::{ContainerMetadata, DockerInfo, ExportData, Timestamp};

verus! {

/// The version of the format that this library writes.
pub open spec fn format_version() -> Seq<char> {
    "1.0"@
}

/// The path that an archive is written to: a gzip framed archive whose path
/// the caller gave no extension gets the extension `tar.gz`; every other
/// path stays as the caller gave it.
pub open spec fn output_path_of(path: Seq<char>, compress: bool) -> Seq<char> {
    if compress && !has_extension(path) {
        with_extension_of(path, "tar.gz"@)
    } else {
        path
    }
}

/// Why an export did not come about.
#[derive(Debug)]
pub enum ExportError {
    /// The container allows no work on its layer.
    Container(DockerError),
    /// The tree of the layer cannot be packed.
    Archive(ArchiveError),
}

impl ExportError {
    /// The error in words.
    pub fn message(&self) -> (r: String)
        ensures
            r@ == match *self {
                ExportError::Container(e) => e.message_text(),
                ExportError::Archive(e) => e.message_text(),
            },
    {
        match self {
            ExportError::Container(e) => e.message(),
            ExportError::Archive(e) => e.message(),
        }
    }
}

/// What an export hands out: the manifest, the layer stream, the path to
/// write the archive to, and whether the host runs a storage driver other
/// than the supported one.
#[derive(Debug)]
pub struct Export {
    pub data: ExportData,
    pub layer: Vec<u8>,
    pub output_path: String,
    pub driver_mismatch: bool,
}

/// What [`ExportCommand::execute`] answers. A container that is being
/// removed or dead is refused before anything else. Then the tree is
/// packed, which succeeds exactly where every entry can be packed, and so
/// for every plain tree; the manifest records the checksum of the tree, the
/// container, the host, the time, the version of the format and whether the
/// archive is to be gzip framed.
pub open spec fn is_export(
    container_metadata: ContainerMetadata,
    docker_info: DockerInfo,
    tree: Seq<EntryView>,
    output_path: Seq<char>,
    compress: bool,
    now: Timestamp,
    r: Result<Export, ExportError>,
) -> bool {
    if is_refused_state(container_metadata.state@) {
        &&& r matches Err(e)
        &&& e matches ExportError::Container(inner)
        &&& inner matches DockerError::InvalidState(s)
        &&& s@ == container_metadata.state@
    } else {
        match r {
            Ok(export) => {
                &&& is_packed(tree, Ok((export.layer, export.data.layer_checksum)))
                &&& export.data.version@ == format_version()
                &&& export.data.created == now
                &&& export.data.compressed == compress
                &&& export.data.container_metadata == container_metadata
                &&& export.data.docker_info == docker_info
                &&& export.output_path@ == output_path_of(output_path, compress)
                &&& export.driver_mismatch == (docker_info.driver@ != supported_driver())
            },
            Err(e) => e matches ExportError::Archive(inner) && is_packed(tree, Err(inner)),
        }
    }
}

/// The export of the writable layer of a container.
pub struct ExportCommand {
    docker_client: DockerClient,
}

impl ExportCommand {
    /// An export that reads the daemon's answers with a client of its own.
    pub fn new() -> (r: Self) {
        Self { docker_client: DockerClient::new() }
    }

    /// The client with which the export reads the daemon's answers.
    pub fn client(&self) -> (r: &DockerClient) {
        &self.docker_client
    }

    /// The path that the archive is written to.
    pub fn output_path(&self, output_path: &str, compress: bool) -> (r: String)
        ensures
            r@ == output_path_of(output_path@, compress),
    {
        if compress && !path_has_extension(output_path) {
            with_extension(output_path, "tar.gz")
        } else {
            output_path.to_owned()
        }
    }

    /// Export container layer and metadata: refuses a container that is
    /// being removed or dead, packs the tree of the writable layer into a
    /// layer stream, draws up the manifest and names the path to write to.
    pub fn execute(
        &self,
        container_metadata: ContainerMetadata,
        docker_info: DockerInfo,
        entries: &Vec<TreeEntry>,
        output_path: &str,
        compress: bool,
        now: Timestamp,
    ) -> (r: Result<Export, ExportError>)
        ensures
            is_export(
                container_metadata,
                docker_info,
                tree_view(entries@),
                output_path@,
                compress,
                now,
                r,
            ),
    {
        let driver_mismatch = match self.docker_client.validate_container_for_layer_operations(
            container_metadata.id.as_str(),
            true,
            container_metadata.state.as_str(),
            docker_info.driver.as_str(),
        ) {
            Ok(mismatch) => mismatch,
            Err(e) => {
                return Err(ExportError::Container(e));
            },
        };
        let (layer, layer_checksum) = match create_tar_archive(entries) {
            Ok(packed) => packed,
            Err(e) => {
                return Err(ExportError::Archive(e));
            },
        };
        let data = ExportData {
            version: "1.0".to_owned(),
            created: now,
            container_metadata,
            docker_info,
            layer_checksum,
            compressed: compress,
        };
        Ok(Export { data, layer, output_path: self.output_path(output_path, compress), driver_mismatch })
    }

    /// Create the final export archive containing metadata and layer data:
    /// the bundle, `metadata.json` first and `layer.tar` second. It never
    /// fails, and the archive library reads the bundle back as these two.
    pub fn create_export_archive(&self, manifest: &[u8], layer: &[u8]) -> (r: Result<
        Vec<u8>,
        ArchiveError,
    >)
        ensures
            r matches Ok(bytes) && bytes@ == tar_stream(bundle_members(manifest@, layer@))
                && tar_members(bytes@) == Some(bundle_members(manifest@, layer@)),
    {
        compose(manifest, layer)
    }

    /// The archive file: the bundle of the manifest and the layer stream,
    /// gzip framed where that is asked for. It never fails.
    pub fn finish(&self, manifest: &[u8], layer: &[u8], compress: bool) -> (r: Result<
        Vec<u8>,
        ArchiveError,
    >)
        ensures
            r matches Ok(out) && is_sealed(manifest@, layer@, compress, out@),
    {
        seal_bundle(manifest, layer, compress)
    }
}

impl Default for ExportCommand {
    fn default() -> (r: Self) {
        Self::new()
    }
}

} // verus!
