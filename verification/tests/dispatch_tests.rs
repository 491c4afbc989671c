use datestamp::dispatch::{container_kind, ContainerKind};
use datestamp::errors::RenameError;

#[test]
fn mkv_extension_is_matroska() {
    assert_eq!(container_kind("clip.mkv"), Ok(ContainerKind::Matroska));
}

#[test]
fn extension_match_ignores_case() {
    assert_eq!(container_kind("CLIP.MKV"), Ok(ContainerKind::Matroska));
    assert_eq!(container_kind("a.MoV"), Ok(ContainerKind::Mp4));
}

#[test]
fn mp4_family_extensions_are_mp4() {
    assert_eq!(container_kind("a.mov"), Ok(ContainerKind::Mp4));
    assert_eq!(container_kind("b.mp4"), Ok(ContainerKind::Mp4));
    assert_eq!(container_kind("c.m4v"), Ok(ContainerKind::Mp4));
}

#[test]
fn unknown_extension_is_unrecognized() {
    assert_eq!(
        container_kind("notes.txt"),
        Err(RenameError::UnrecognizedContainerType)
    );
}

#[test]
fn missing_extension_is_unrecognized() {
    assert_eq!(container_kind("noext"), Err(RenameError::UnrecognizedContainerType));
    assert_eq!(container_kind(""), Err(RenameError::UnrecognizedContainerType));
}

#[test]
fn leading_dot_alone_is_no_extension() {
    assert_eq!(container_kind(".mkv"), Err(RenameError::UnrecognizedContainerType));
}

#[test]
fn extension_is_read_from_file_name_only() {
    assert_eq!(
        container_kind("dir.mkv/file"),
        Err(RenameError::UnrecognizedContainerType)
    );
    assert_eq!(container_kind("dir.txt/file.mkv"), Ok(ContainerKind::Matroska));
}

#[test]
fn error_messages() {
    assert_eq!(RenameError::UnrecognizedContainerType.message(), "unknown file type");
    assert_eq!(RenameError::ContainerParseFailure.message(), "unable to parse container");
    assert_eq!(RenameError::DateNotFound.message(), "unable to determine creation date");
    assert_eq!(RenameError::OffsetOutOfRange.message(), "offset too big");
    assert_eq!(RenameError::RenameFailure.message(), "unable to rename");
}

#[test]
fn trailing_dot_is_empty_extension() {
    assert_eq!(container_kind("oddly."), Err(RenameError::UnrecognizedContainerType));
}
