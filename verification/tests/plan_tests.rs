use eutils::plan::{plan_all, plan_one};

#[test]
fn directory_destination_places_file_as_is() {
    // An existing-directory destination behaves like plain copy: the file
    // keeps its name and extension, and no conversion is asked for.
    let p = plan_one("clip.mp4", "outdir/", true);
    assert_eq!(p.source_path, "clip.mp4");
    assert_eq!(p.dest_path, "outdir/clip.mp4");
    assert_eq!(p.source_extension, ".mp4");
    assert_eq!(p.target_extension, ".mp4");
    assert!(!p.needs_conversion);
}

#[test]
fn directory_destination_without_trailing_separator() {
    let p = plan_one("dir/clip.mp4", "outdir", true);
    assert_eq!(p.dest_path, "outdir/clip.mp4");
    assert!(!p.needs_conversion);
}

#[test]
fn named_destination_dictates_extension() {
    let p = plan_one("photo.png", "photo.jpg", false);
    assert_eq!(p.source_path, "photo.png");
    assert_eq!(p.dest_path, "photo.jpg");
    assert_eq!(p.source_extension, ".png");
    assert_eq!(p.target_extension, ".jpg");
    assert!(p.needs_conversion);
}

#[test]
fn named_destination_same_extension_needs_no_conversion() {
    let p = plan_one("a.png", "b.png", false);
    assert_eq!(p.dest_path, "b.png");
    assert!(!p.needs_conversion);
}

#[test]
fn extension_only_destination_keeps_stem() {
    // A bare ".webp" destination means "the webp extension, unnamed".
    let p = plan_one("photo.png", ".webp", false);
    assert_eq!(p.dest_path, "photo.webp");
    assert_eq!(p.target_extension, ".webp");
    assert!(p.needs_conversion);
}

#[test]
fn directory_and_extension_destination() {
    let p = plan_one("photo.png", "out/.webp", false);
    assert_eq!(p.dest_path, "out/photo.webp");
    assert_eq!(p.target_extension, ".webp");
    assert!(p.needs_conversion);
}

#[test]
fn nameless_destination_keeps_source_extension() {
    // "." gives a directory but neither name nor extension, so the source
    // keeps its own name and extension.
    let p = plan_one("photo.png", ".", false);
    assert_eq!(p.dest_path, "./photo.png");
    assert_eq!(p.target_extension, ".png");
    assert!(!p.needs_conversion);
}

#[test]
fn trailing_separator_destination_names_a_file() {
    // A trailing separator alone does not make a directory destination:
    // "out/" decomposes to the file name "out", so the plan writes to that
    // file and asks for a conversion to its empty extension.
    let p = plan_one("photo.png", "out/", false);
    assert_eq!(p.dest_path, "out");
    assert_eq!(p.target_extension, "");
    assert!(p.needs_conversion);
}

#[test]
fn plan_all_plans_each_source() {
    let sources = vec!["a.png".to_string(), "b.jpg".to_string()];
    let plans = plan_all(&sources, "outdir/", true);
    assert_eq!(plans.len(), 2);
    assert_eq!(plans[0].dest_path, "outdir/a.png");
    assert_eq!(plans[1].dest_path, "outdir/b.jpg");
    assert!(!plans[0].needs_conversion);
    assert!(!plans[1].needs_conversion);
}
