use eutils::catalog::{default_preferences, FileFormat};
use eutils::command::{build_command, prepare_conversion, should_delete_source, Action};
use eutils::plan::plan_one;
use eutils::resolve::ResolveError;

#[test]
fn build_command_substitutes_placeholders() {
    let argv = build_command("magick {s} {e}", "photo.png", "photo.jpg");
    assert_eq!(argv, vec!["magick", "photo.png", "photo.jpg"]);
}

#[test]
fn build_command_keeps_literal_tokens() {
    let argv = build_command("ffmpeg -i {s} {e}", "a.mp4", "b.mov");
    assert_eq!(argv, vec!["ffmpeg", "-i", "a.mp4", "b.mov"]);
}

#[test]
fn build_command_never_substitutes_the_executable() {
    // The first token names the executable and is taken literally even if
    // it looks like a placeholder.
    let argv = build_command("{s} {e}", "src.png", "dst.jpg");
    assert_eq!(argv, vec!["{s}", "dst.jpg"]);
}

#[test]
fn convert_photo_resolves_magick_command() {
    // End to end over the default catalog: photo.png to photo.jpg resolves
    // the magick command with the literal paths filled in, and a
    // successful destructive run may then remove the source.
    let prefs = default_preferences();
    let plan = plan_one("photo.png", "photo.jpg", false);
    match prepare_conversion(&plan, &prefs.file_formats) {
        Ok(Action::Run(argv)) => {
            assert_eq!(argv, vec!["magick", "photo.png", "photo.jpg"]);
        }
        other => panic!("expected a command, got {:?}", other),
    }
    assert!(should_delete_source(true, true));
}

#[test]
fn identical_extensions_never_reach_the_template() {
    // A catalog whose only template is deliberately broken: a plain copy
    // must never resolve it.
    let formats = vec![FileFormat {
        name: "image".to_string(),
        members: vec![".png".to_string()],
        transformations: vec![("image".to_string(), "deliberately broken".to_string())],
    }];
    let plan = plan_one("a.png", "b.png", false);
    match prepare_conversion(&plan, &formats) {
        Ok(Action::Transfer) => {}
        other => panic!("expected a plain transfer, got {:?}", other),
    }
}

#[test]
fn directory_destination_never_reaches_the_template() {
    let formats = vec![FileFormat {
        name: "image".to_string(),
        members: vec![".png".to_string()],
        transformations: vec![("image".to_string(), "deliberately broken".to_string())],
    }];
    let plan = plan_one("a.png", "outdir/", true);
    match prepare_conversion(&plan, &formats) {
        Ok(Action::Transfer) => {}
        other => panic!("expected a plain transfer, got {:?}", other),
    }
}

#[test]
fn unknown_source_extension_fails() {
    let prefs = default_preferences();
    let plan = plan_one("notes.xyz", "notes.png", false);
    match prepare_conversion(&plan, &prefs.file_formats) {
        Err(ResolveError::UnknownFormat) => {}
        other => panic!("expected UnknownFormat, got {:?}", other),
    }
}

#[test]
fn unknown_target_extension_fails() {
    let prefs = default_preferences();
    let plan = plan_one("photo.png", "photo.xyz", false);
    match prepare_conversion(&plan, &prefs.file_formats) {
        Err(ResolveError::NoTransformation) => {}
        other => panic!("expected NoTransformation, got {:?}", other),
    }
}

#[test]
fn ambiguous_source_extension_fails() {
    let formats = vec![
        FileFormat {
            name: "image".to_string(),
            members: vec![".png".to_string()],
            transformations: vec![("image".to_string(), "magick {s} {e}".to_string())],
        },
        FileFormat {
            name: "raster".to_string(),
            members: vec![".png".to_string()],
            transformations: vec![("raster".to_string(), "convert {s} {e}".to_string())],
        },
    ];
    let plan = plan_one("a.png", "b.jpg", false);
    match prepare_conversion(&plan, &formats) {
        Err(ResolveError::AmbiguousFormat) => {}
        other => panic!("expected AmbiguousFormat, got {:?}", other),
    }
}

#[test]
fn ambiguous_transformation_fails() {
    let formats = vec![
        FileFormat {
            name: "image".to_string(),
            members: vec![".png".to_string()],
            transformations: vec![
                ("anim".to_string(), "magick {s} {e}".to_string()),
                ("anim".to_string(), "convert {s} {e}".to_string()),
            ],
        },
        FileFormat {
            name: "anim".to_string(),
            members: vec![".gif".to_string()],
            transformations: vec![],
        },
    ];
    let plan = plan_one("a.png", "b.gif", false);
    match prepare_conversion(&plan, &formats) {
        Err(ResolveError::AmbiguousTransformation) => {}
        other => panic!("expected AmbiguousTransformation, got {:?}", other),
    }
}

#[test]
fn failed_conversion_keeps_the_source() {
    assert!(!should_delete_source(false, true));
    assert!(!should_delete_source(true, false));
    assert!(!should_delete_source(false, false));
}
