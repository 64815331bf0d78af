use eutils::catalog::{default_preferences, validate_catalog, FileFormat};
use eutils::resolve::{command_for, format_for_extension, ResolveError};

fn format(name: &str, members: &[&str], transformations: &[(&str, &str)]) -> FileFormat {
    FileFormat {
        name: name.to_string(),
        members: members.iter().map(|m| m.to_string()).collect(),
        transformations: transformations
            .iter()
            .map(|(t, c)| (t.to_string(), c.to_string()))
            .collect(),
    }
}

#[test]
fn default_catalog_contents() {
    let prefs = default_preferences();
    assert!(prefs.warn_dangerous);
    assert_eq!(prefs.file_formats.len(), 2);
    assert_eq!(prefs.file_formats[0].name, "image");
    assert_eq!(
        prefs.file_formats[0].members,
        vec![".png", ".jpg", ".jpeg", ".webp"]
    );
    assert_eq!(
        prefs.file_formats[0].transformations,
        vec![("image".to_string(), "magick {s} {e}".to_string())]
    );
    assert_eq!(prefs.file_formats[1].name, "video");
    assert_eq!(
        prefs.file_formats[1].members,
        vec![".mp4", ".mov", ".avi", ".mkv"]
    );
    assert_eq!(
        prefs.file_formats[1].transformations,
        vec![("video".to_string(), "ffmpeg -i {s} {e}".to_string())]
    );
}

#[test]
fn default_catalog_is_wellformed() {
    let prefs = default_preferences();
    assert!(validate_catalog(&prefs.file_formats));
}

#[test]
fn validation_rejects_empty_member_list() {
    let formats = vec![format("image", &[], &[("image", "magick {s} {e}")])];
    assert!(!validate_catalog(&formats));
}

#[test]
fn validation_rejects_dotless_member() {
    let formats = vec![format("image", &["png"], &[("image", "magick {s} {e}")])];
    assert!(!validate_catalog(&formats));
    // The empty member (the no-extension case) is allowed.
    let formats = vec![format("plain", &[""], &[])];
    assert!(validate_catalog(&formats));
}

#[test]
fn validation_rejects_duplicate_names() {
    let formats = vec![
        format("image", &[".png"], &[]),
        format("image", &[".jpg"], &[]),
    ];
    assert!(!validate_catalog(&formats));
}

#[test]
fn resolve_known_extensions() {
    let prefs = default_preferences();
    assert_eq!(format_for_extension(&prefs.file_formats, ".png"), Ok(0));
    assert_eq!(format_for_extension(&prefs.file_formats, ".webp"), Ok(0));
    assert_eq!(format_for_extension(&prefs.file_formats, ".mp4"), Ok(1));
}

#[test]
fn resolve_unknown_extension() {
    let prefs = default_preferences();
    assert_eq!(
        format_for_extension(&prefs.file_formats, ".xyz"),
        Err(ResolveError::UnknownFormat)
    );
    assert_eq!(
        format_for_extension(&prefs.file_formats, ""),
        Err(ResolveError::UnknownFormat)
    );
}

#[test]
fn resolve_ambiguous_extension() {
    // Two formats both list ".png": resolution must fail, never silently
    // pick one.
    let formats = vec![
        format("image", &[".png", ".jpg"], &[("image", "magick {s} {e}")]),
        format("raster", &[".png"], &[("raster", "convert {s} {e}")]),
    ];
    assert_eq!(
        format_for_extension(&formats, ".png"),
        Err(ResolveError::AmbiguousFormat)
    );
    // The unambiguous member still resolves.
    assert_eq!(format_for_extension(&formats, ".jpg"), Ok(0));
}

#[test]
fn resolve_twice_same_format() {
    let prefs = default_preferences();
    let first = format_for_extension(&prefs.file_formats, ".jpeg");
    let second = format_for_extension(&prefs.file_formats, ".jpeg");
    assert_eq!(first, second);
    assert_eq!(first, Ok(0));
}

#[test]
fn command_for_known_target() {
    let prefs = default_preferences();
    let image = &prefs.file_formats[0];
    assert_eq!(
        command_for(&prefs.file_formats, image, ".jpg"),
        Ok("magick {s} {e}".to_string())
    );
    let video = &prefs.file_formats[1];
    assert_eq!(
        command_for(&prefs.file_formats, video, ".mkv"),
        Ok("ffmpeg -i {s} {e}".to_string())
    );
}

#[test]
fn command_for_missing_target() {
    let prefs = default_preferences();
    let image = &prefs.file_formats[0];
    // The image format only transforms to itself, so a video target has no
    // command.
    assert_eq!(
        command_for(&prefs.file_formats, image, ".mp4"),
        Err(ResolveError::NoTransformation)
    );
}

#[test]
fn command_for_ambiguous_target() {
    // Two transformation entries both reach a format listing ".gif".
    let formats = vec![
        format(
            "image",
            &[".png"],
            &[("anim", "magick {s} {e}"), ("anim", "convert {s} {e}")],
        ),
        format("anim", &[".gif"], &[]),
    ];
    let image = format(
        "image",
        &[".png"],
        &[("anim", "magick {s} {e}"), ("anim", "convert {s} {e}")],
    );
    assert_eq!(
        command_for(&formats, &image, ".gif"),
        Err(ResolveError::AmbiguousTransformation)
    );
}

#[test]
fn command_for_unknown_target_format_name() {
    // A transformation that names a format absent from the catalog never
    // applies.
    let formats = vec![format("image", &[".png"], &[("missing", "magick {s} {e}")])];
    let image = format("image", &[".png"], &[("missing", "magick {s} {e}")]);
    assert_eq!(
        command_for(&formats, &image, ".png"),
        Err(ResolveError::NoTransformation)
    );
}
