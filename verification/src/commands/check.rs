//! Checking an archive: its manifest, its layer stream, and whether it fits
//! the host.

use vstd::prelude::*;
use crate::archive::{
    entries_of, member_views, open_bundle, read_members, tar_members, to_entries, ArchiveError,
    Bundle, is_opened,
};
use crate::checksum::{calculate_directory_checksum, checksum_text};
use crate::docker::DockerClient;
use crate::text::{same_text, texts_view};
use crate::utils::{decimal, decimal_text};
use crate::types::{CheckOptions, DockerInfo, ExportData};

verus! {

/// The field of a manifest that is empty and may not be.
#[derive(Clone, Copy, Debug, PartialEq, Eq, Structural)]
pub enum MetadataFault {
    Version,
    ContainerId,
    ImageDigest,
    LayerChecksum,
}

/// Why an archive does not pass.
#[derive(Debug)]
pub enum CheckError {
    /// The archive cannot be opened, or lacks one of its two parts.
    Structure(ArchiveError),
    /// The manifest lacks what it has to name.
    InvalidMetadata(MetadataFault),
    /// The layer stream is no archive; the words of the archive library.
    CorruptLayer(String),
    /// The layer does not have the checksum that the manifest records.
    ChecksumMismatch { expected: String, actual: String },
    /// The archive does not fit the host; the number of reasons.
    Incompatible(usize),
}

impl MetadataFault {
    /// The fault in words.
    pub fn message(&self) -> (r: String)
        ensures
            r@ == match *self {
                MetadataFault::Version => "Missing or empty version in metadata"@,
                MetadataFault::ContainerId => "Missing or empty container ID in metadata"@,
                MetadataFault::ImageDigest => "Missing or empty image SHA256 in metadata"@,
                MetadataFault::LayerChecksum => "Missing or empty layer checksum in metadata"@,
            },
    {
        match self {
            MetadataFault::Version => "Missing or empty version in metadata".to_owned(),
            MetadataFault::ContainerId => "Missing or empty container ID in metadata".to_owned(),
            MetadataFault::ImageDigest => "Missing or empty image SHA256 in metadata".to_owned(),
            MetadataFault::LayerChecksum => "Missing or empty layer checksum in metadata".to_owned(),
        }
    }
}

impl CheckError {
    /// The error in words.
    pub fn message(&self) -> (r: String)
        ensures
            r@ == match *self {
                CheckError::Structure(inner) => inner.message_text(),
                CheckError::InvalidMetadata(fault) => match fault {
                    MetadataFault::Version => "Missing or empty version in metadata"@,
                    MetadataFault::ContainerId => "Missing or empty container ID in metadata"@,
                    MetadataFault::ImageDigest => "Missing or empty image SHA256 in metadata"@,
                    MetadataFault::LayerChecksum => "Missing or empty layer checksum in metadata"@,
                },
                CheckError::CorruptLayer(words) => "Failed to read layer archive entries: "@ + words@,
                CheckError::ChecksumMismatch { expected, actual } => "Layer checksum verification failed: expected "@
                    + expected@ + ", got "@ + actual@,
                CheckError::Incompatible(count) => "Compatibility check failed with "@
                    + decimal_text(count as nat) + " error(s)"@,
            },
    {
        match self {
            CheckError::Structure(inner) => inner.message(),
            CheckError::InvalidMetadata(fault) => fault.message(),
            CheckError::CorruptLayer(words) => "Failed to read layer archive entries: ".to_owned()
                .concat(words.as_str()),
            CheckError::ChecksumMismatch { expected, actual } => "Layer checksum verification failed: expected "
                .to_owned().concat(expected.as_str()).concat(", got ").concat(actual.as_str()),
            CheckError::Incompatible(count) => "Compatibility check failed with ".to_owned().concat(
                decimal(*count as u128).as_str(),
            ).concat(" error(s)"),
        }
    }
}

/// How one check ended.
#[derive(Clone, Copy, Debug, PartialEq, Eq, Structural)]
pub enum CheckStatus {
    Passed,
    /// The caller asked to leave the check out, or there was nothing to
    /// hold the archive against.
    Skipped,
    /// The check found a difference that is reported and allowed.
    Warned,
    /// The check found a difference that is not allowed.
    Failed,
}

/// What the comparison of an archive with the host found.
#[derive(Debug)]
pub struct CompatibilityReport {
    pub storage: CheckStatus,
    pub os: CheckStatus,
    pub architecture: CheckStatus,
    /// The image is never looked at, whatever the options say: the host's
    /// images are not at hand to hold the recorded digest against, so this
    /// check is always left out and never reported as passed.
    pub image: CheckStatus,
    /// What is reported and allowed.
    pub warnings: Vec<String>,
    /// What is not allowed.
    pub errors: Vec<String>,
}

/// What a check of an archive found.
#[derive(Debug)]
pub struct CheckReport {
    /// The number of members of the layer stream.
    pub layer_entries: usize,
    /// The checksum of the tree that the layer stream holds.
    pub layer_checksum: String,
    pub compatibility: CompatibilityReport,
}

/// The first of the fields of a manifest that is empty and may not be.
pub open spec fn metadata_fault(data: ExportData) -> Option<MetadataFault> {
    if data.version@.len() == 0 {
        Some(MetadataFault::Version)
    } else if data.container_metadata.id@.len() == 0 {
        Some(MetadataFault::ContainerId)
    } else if data.container_metadata.image_sha256@.len() == 0 {
        Some(MetadataFault::ImageDigest)
    } else if data.layer_checksum@.len() == 0 {
        Some(MetadataFault::LayerChecksum)
    } else {
        None
    }
}

/// How a check ends that warns of a difference.
pub open spec fn advisory_status(skip: bool, archived: Seq<char>, current: Seq<char>) -> CheckStatus {
    if skip {
        CheckStatus::Skipped
    } else if archived != current {
        CheckStatus::Warned
    } else {
        CheckStatus::Passed
    }
}

/// How a check ends that allows no difference.
pub open spec fn fatal_status(skip: bool, archived: Seq<char>, current: Seq<char>) -> CheckStatus {
    if skip {
        CheckStatus::Skipped
    } else if archived != current {
        CheckStatus::Failed
    } else {
        CheckStatus::Passed
    }
}

/// The warning of a storage driver that differs.
pub open spec fn storage_warning(archived: Seq<char>, current: Seq<char>) -> Seq<char> {
    "Storage driver mismatch: export uses '"@ + archived + "', current system uses '"@ + current
        + "'"@
}

/// The warning of an operating system that differs.
pub open spec fn os_warning(archived: Seq<char>, current: Seq<char>) -> Seq<char> {
    "Operating system mismatch: export from '"@ + archived + "', current system is '"@ + current
        + "'"@
}

/// The error of an architecture that differs.
pub open spec fn architecture_error(archived: Seq<char>, current: Seq<char>) -> Seq<char> {
    "Architecture mismatch: export from '"@ + archived + "', current system is '"@ + current + "'"@
}

/// The warning that there is no host to hold the archive against.
pub open spec fn unknown_host_warning() -> Seq<char> {
    "Skipping Docker environment compatibility checks"@
}

/// The one message of a check, where it did not pass.
pub open spec fn if_status(status: CheckStatus, wanted: CheckStatus, message: Seq<char>) -> Seq<
    Seq<char>,
> {
    if status == wanted {
        seq![message]
    } else {
        Seq::empty()
    }
}

/// `report` is what the comparison of the archive's host with the current
/// one gives under the given options: a storage driver or an operating
/// system that differs is warned of, an architecture that differs is an
/// error, a check that is left out is marked so, and where nothing is
/// known of the current host every check is left out. The image is marked
/// as left out whatever `options.skip_image` says: that option has no
/// effect, since there is nothing to hold the recorded digest against.
pub open spec fn is_compatibility_report(
    data: ExportData,
    current: Option<DockerInfo>,
    options: CheckOptions,
    report: CompatibilityReport,
) -> bool {
    match current {
        None => {
            &&& report.storage == CheckStatus::Skipped
            &&& report.os == CheckStatus::Skipped
            &&& report.architecture == CheckStatus::Skipped
            &&& report.image == CheckStatus::Skipped
            &&& texts_view(report.warnings@) == seq![unknown_host_warning()]
            &&& report.errors@.len() == 0
        },
        Some(host) => {
            let archived = data.docker_info;
            &&& report.storage == advisory_status(options.skip_storage, archived.driver@, host.driver@)
            &&& report.os == advisory_status(
                options.skip_os,
                archived.operating_system@,
                host.operating_system@,
            )
            &&& report.architecture == fatal_status(
                options.skip_arch,
                archived.architecture@,
                host.architecture@,
            )
            &&& report.image == CheckStatus::Skipped
            &&& texts_view(report.warnings@) == if_status(
                report.storage,
                CheckStatus::Warned,
                storage_warning(archived.driver@, host.driver@),
            ) + if_status(
                report.os,
                CheckStatus::Warned,
                os_warning(archived.operating_system@, host.operating_system@),
            )
            &&& texts_view(report.errors@) == if_status(
                report.architecture,
                CheckStatus::Failed,
                architecture_error(archived.architecture@, host.architecture@),
            )
        },
    }
}

/// What the check of a layer stream against a manifest answers: the stream
/// has to be an archive, and the tree it holds has to have the checksum that
/// the manifest records.
pub open spec fn is_layer_verdict(
    layer: Seq<u8>,
    data: ExportData,
    r: Result<(usize, String), CheckError>,
) -> bool {
    match tar_members(layer) {
        None => r matches Err(e) && e is CorruptLayer,
        Some(members) => {
            let actual = checksum_text(entries_of(members));
            if actual == data.layer_checksum@ {
                &&& r matches Ok(found)
                &&& found.0 == members.len()
                &&& found.1@ == actual
            } else {
                &&& r matches Err(e)
                &&& e matches CheckError::ChecksumMismatch { expected, actual: got }
                &&& expected@ == data.layer_checksum@
                &&& got@ == actual
            }
        },
    }
}

/// What the check of an archive answers: the first of the checks that fails
/// gives the error; where none fails, the report tells what was found.
pub open spec fn is_check_verdict(
    data: ExportData,
    layer: Seq<u8>,
    current: Option<DockerInfo>,
    options: CheckOptions,
    r: Result<CheckReport, CheckError>,
) -> bool {
    if metadata_fault(data) is Some {
        r matches Err(e) && e == CheckError::InvalidMetadata(metadata_fault(data).unwrap())
    } else if tar_members(layer) is None {
        r matches Err(e) && e is CorruptLayer
    } else {
        let members = tar_members(layer).unwrap();
        let actual = checksum_text(entries_of(members));
        if actual != data.layer_checksum@ {
            &&& r matches Err(e)
            &&& e matches CheckError::ChecksumMismatch { expected, actual: got }
            &&& expected@ == data.layer_checksum@
            &&& got@ == actual
        } else {
            let mismatch = current is Some && !options.skip_arch && data.docker_info.architecture@
                != current.unwrap().architecture@;
            if mismatch {
                r matches Err(e) && e == CheckError::Incompatible(1)
            } else {
                &&& r matches Ok(report)
                &&& report.layer_entries == members.len()
                &&& report.layer_checksum@ == actual
                &&& is_compatibility_report(data, current, options, report.compatibility)
                &&& report.compatibility.errors@.len() == 0
            }
        }
    }
}

impl CompatibilityReport {
    /// Whether the archive fits the host: no error was found.
    pub fn passed(&self) -> (r: bool)
        ensures
            r == (self.errors@.len() == 0),
    {
        self.errors.len() == 0
    }
}

fn advisory(skip: bool, archived: &str, current: &str) -> (r: CheckStatus)
    ensures
        r == advisory_status(skip, archived@, current@),
{
    if skip {
        CheckStatus::Skipped
    } else if !same_text(archived, current) {
        CheckStatus::Warned
    } else {
        CheckStatus::Passed
    }
}

fn fatal(skip: bool, archived: &str, current: &str) -> (r: CheckStatus)
    ensures
        r == fatal_status(skip, archived@, current@),
{
    if skip {
        CheckStatus::Skipped
    } else if !same_text(archived, current) {
        CheckStatus::Failed
    } else {
        CheckStatus::Passed
    }
}

fn mismatch_text(head: &str, archived: &str, middle: &str, current: &str) -> (r: String)
    ensures
        r@ == head@ + archived@ + middle@ + current@ + "'"@,
{
    head.to_owned().concat(archived).concat(middle).concat(current).concat("'")
}

/// The check of an archive.
pub struct CheckCommand {
    docker_client: DockerClient,
}

impl CheckCommand {
    /// A check that reads the daemon's answers with a client of its own.
    pub fn new() -> (r: Self) {
        Self { docker_client: DockerClient::new() }
    }

    /// The client with which the check reads the daemon's answers.
    pub fn client(&self) -> (r: &DockerClient) {
        &self.docker_client
    }

    /// Extract archive and validate basic structure: opens the archive file
    /// and hands out its two parts.
    pub fn extract_and_validate_structure(&self, input: &[u8]) -> (r: Result<Bundle, CheckError>)
        ensures
            match r {
                Ok(bundle) => is_opened(input@, Ok(bundle)),
                Err(e) => e matches CheckError::Structure(inner) && is_opened(input@, Err(inner)),
            },
    {
        match open_bundle(input) {
            Ok(bundle) => Ok(bundle),
            Err(e) => Err(CheckError::Structure(e)),
        }
    }

    /// Read and validate metadata file: a manifest has to name its version,
    /// its container, the digest of the image and the checksum of the
    /// layer.
    pub fn read_and_validate_metadata(&self, data: &ExportData) -> (r: Result<(), CheckError>)
        ensures
            match r {
                Ok(_) => metadata_fault(*data) is None,
                Err(e) => metadata_fault(*data) is Some && e == CheckError::InvalidMetadata(
                    metadata_fault(*data).unwrap(),
                ),
            },
    {
        if data.version.as_str().is_empty() {
            return Err(CheckError::InvalidMetadata(MetadataFault::Version));
        }
        if data.container_metadata.id.as_str().is_empty() {
            return Err(CheckError::InvalidMetadata(MetadataFault::ContainerId));
        }
        if data.container_metadata.image_sha256.as_str().is_empty() {
            return Err(CheckError::InvalidMetadata(MetadataFault::ImageDigest));
        }
        if data.layer_checksum.as_str().is_empty() {
            return Err(CheckError::InvalidMetadata(MetadataFault::LayerChecksum));
        }
        Ok(())
    }

    /// Validate layer archive integrity: the number of members of the layer
    /// stream and the checksum of the tree that it holds, which has to be
    /// the one that the manifest records.
    pub fn validate_layer_archive(&self, layer: &[u8], data: &ExportData) -> (r: Result<
        (usize, String),
        CheckError,
    >)
        ensures
            is_layer_verdict(layer@, *data, r),
    {
        let members = match read_members(layer) {
            Ok(members) => members,
            Err(e) => {
                return Err(CheckError::CorruptLayer(e.message()));
            },
        };
        let tree = to_entries(&members);
        let actual = calculate_directory_checksum(&tree);
        if !same_text(actual.as_str(), data.layer_checksum.as_str()) {
            return Err(
                CheckError::ChecksumMismatch { expected: data.layer_checksum.clone(), actual },
            );
        }
        assert(member_views(members@).len() == members@.len());
        Ok((members.len(), actual))
    }

    /// Perform compatibility checks with current Docker environment. The
    /// option `skip_image` has no effect: the image is never looked at and
    /// always reported as left out.
    pub fn perform_compatibility_checks(
        &self,
        data: &ExportData,
        current: Option<&DockerInfo>,
        options: &CheckOptions,
    ) -> (r: CompatibilityReport)
        ensures
            is_compatibility_report(
                *data,
                match current {
                    Some(host) => Some(*host),
                    None => None,
                },
                *options,
                r,
            ),
    {
        let mut warnings: Vec<String> = Vec::new();
        let mut errors: Vec<String> = Vec::new();
        let host = match current {
            Some(host) => host,
            None => {
                warnings.push("Skipping Docker environment compatibility checks".to_owned());
                assert(texts_view(warnings@) =~= seq![unknown_host_warning()]);
                return CompatibilityReport {
                    storage: CheckStatus::Skipped,
                    os: CheckStatus::Skipped,
                    architecture: CheckStatus::Skipped,
                    image: CheckStatus::Skipped,
                    warnings,
                    errors,
                };
            },
        };
        let archived = &data.docker_info;
        let storage = advisory(options.skip_storage, archived.driver.as_str(), host.driver.as_str());
        if storage == CheckStatus::Warned {
            warnings.push(
                mismatch_text(
                    "Storage driver mismatch: export uses '",
                    archived.driver.as_str(),
                    "', current system uses '",
                    host.driver.as_str(),
                ),
            );
        }
        let ghost first = texts_view(warnings@);
        assert(first =~= if_status(
            storage,
            CheckStatus::Warned,
            storage_warning(archived.driver@, host.driver@),
        ));
        let os = advisory(
            options.skip_os,
            archived.operating_system.as_str(),
            host.operating_system.as_str(),
        );
        if os == CheckStatus::Warned {
            warnings.push(
                mismatch_text(
                    "Operating system mismatch: export from '",
                    archived.operating_system.as_str(),
                    "', current system is '",
                    host.operating_system.as_str(),
                ),
            );
        }
        assert(texts_view(warnings@) =~= first + if_status(
            os,
            CheckStatus::Warned,
            os_warning(archived.operating_system@, host.operating_system@),
        ));
        let architecture = fatal(
            options.skip_arch,
            archived.architecture.as_str(),
            host.architecture.as_str(),
        );
        if architecture == CheckStatus::Failed {
            errors.push(
                mismatch_text(
                    "Architecture mismatch: export from '",
                    archived.architecture.as_str(),
                    "', current system is '",
                    host.architecture.as_str(),
                ),
            );
        }
        assert(texts_view(errors@) =~= if_status(
            architecture,
            CheckStatus::Failed,
            architecture_error(archived.architecture@, host.architecture@),
        ));
        CompatibilityReport {
            storage,
            os,
            architecture,
            image: CheckStatus::Skipped,
            warnings,
            errors,
        }
    }

    /// Check export file integrity and compatibility: the manifest, then the
    /// layer stream and its checksum, then the host. The first check that
    /// fails ends the run.
    pub fn execute(
        &self,
        data: &ExportData,
        layer: &[u8],
        current: Option<&DockerInfo>,
        options: CheckOptions,
    ) -> (r: Result<CheckReport, CheckError>)
        ensures
            is_check_verdict(
                *data,
                layer@,
                match current {
                    Some(host) => Some(*host),
                    None => None,
                },
                options,
                r,
            ),
    {
        match self.read_and_validate_metadata(data) {
            Ok(_) => {},
            Err(e) => {
                return Err(e);
            },
        }
        let (layer_entries, layer_checksum) = match self.validate_layer_archive(layer, data) {
            Ok(found) => found,
            Err(e) => {
                return Err(e);
            },
        };
        let compatibility = self.perform_compatibility_checks(data, current, &options);
        assert(texts_view(compatibility.errors@).len() == compatibility.errors@.len());
        if !compatibility.passed() {
            return Err(CheckError::Incompatible(compatibility.errors.len()));
        }
        Ok(CheckReport { layer_entries, layer_checksum, compatibility })
    }
}

impl Default for CheckCommand {
    fn default() -> (r: Self) {
        Self::new()
    }
}

} // verus!
