use layer_tool::archive::ArchiveError;
use layer_tool::commands::check::{CheckError, MetadataFault};
use layer_tool::docker::DockerError;

#[test]
fn the_errors_of_the_daemon_in_words() {
    assert_eq!(DockerError::ContainerNotFound("web".to_string()).message(), "Container not found: web");
    assert_eq!(DockerError::MissingId.message(), "Missing container ID");
    assert_eq!(DockerError::MissingImage.message(), "Missing container image");
    assert_eq!(DockerError::MissingImageId.message(), "Missing container image ID");
    assert_eq!(DockerError::MissingCreated.message(), "Missing container created timestamp");
    assert_eq!(
        DockerError::InvalidCreated("noon".to_string()).message(),
        "Failed to parse created timestamp: noon"
    );
    assert_eq!(DockerError::EmptyLayerPath.message(), "Container layer path is empty");
    assert_eq!(DockerError::InvalidLayerPath("/".to_string()).message(), "Invalid layer path: /");
    assert_eq!(
        DockerError::UpperDirUnavailable.message(),
        "Container upper layer path is empty or not available"
    );
    assert_eq!(
        DockerError::InspectionFailed.message(),
        "Could not determine upper layer path from GraphDriver inspection"
    );
    assert_eq!(
        DockerError::InvalidState("dead".to_string()).message(),
        "Container is in 'dead' state and cannot be used for layer operations"
    );
}

#[test]
fn the_errors_of_a_check_in_words() {
    assert_eq!(
        CheckError::Structure(ArchiveError::MissingLayer).message(),
        "Missing layer.tar in export archive"
    );
    assert_eq!(
        CheckError::Structure(ArchiveError::Codec("unexpected end".to_string())).message(),
        "unexpected end"
    );
    assert_eq!(
        CheckError::InvalidMetadata(MetadataFault::Version).message(),
        "Missing or empty version in metadata"
    );
    assert_eq!(MetadataFault::ContainerId.message(), "Missing or empty container ID in metadata");
    assert_eq!(MetadataFault::ImageDigest.message(), "Missing or empty image SHA256 in metadata");
    assert_eq!(MetadataFault::LayerChecksum.message(), "Missing or empty layer checksum in metadata");
    assert_eq!(
        CheckError::CorruptLayer("bad header".to_string()).message(),
        "Failed to read layer archive entries: bad header"
    );
    assert_eq!(
        CheckError::ChecksumMismatch { expected: "aa".to_string(), actual: "bb".to_string() }.message(),
        "Layer checksum verification failed: expected aa, got bb"
    );
    assert_eq!(CheckError::Incompatible(1).message(), "Compatibility check failed with 1 error(s)");
    assert_eq!(CheckError::Incompatible(12).message(), "Compatibility check failed with 12 error(s)");
}
