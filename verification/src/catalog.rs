//! The format catalog: named formats, each owning a set of member
//! extensions and a list of transformations to other formats, and the
//! run-wide preferences that carry the catalog.

use vstd::prelude::*;

use crate::strutil::str_eq;

verus! {

/// A named group of file extensions considered interchangeable, together
/// with the transformations it offers: pairs of a target format name and
/// the command template that performs the conversion.
pub struct FileFormat {
    pub name: String,
    pub members: Vec<String>,
    pub transformations: Vec<(String, String)>,
}

/// The loaded configuration: whether destructive runs ask for confirmation,
/// and the format catalog.
pub struct Preferences {
    pub warn_dangerous: bool,
    pub file_formats: Vec<FileFormat>,
}

/// One format's own invariant: it owns at least one member extension, and
/// every member is empty (the no-extension case) or begins with a dot.
pub open spec fn format_wf(f: FileFormat) -> bool {
    &&& f.members@.len() > 0
    &&& forall|i: int|
        0 <= i < f.members@.len() ==> ((#[trigger] f.members@[i])@.len() == 0
            || f.members@[i]@[0] == '.')
}

/// The catalog invariant: every format is well formed and no two formats
/// share a name.
pub open spec fn catalog_wf(formats: Seq<FileFormat>) -> bool {
    &&& forall|i: int| 0 <= i < formats.len() ==> format_wf(#[trigger] formats[i])
    &&& forall|i: int, j: int|
        0 <= i < j < formats.len() ==> (#[trigger] formats[i]).name@ != (#[trigger] formats[j]).name@
}

/// A format lists `ext` among its member extensions.
pub open spec fn format_matches(f: FileFormat, ext: Seq<char>) -> bool {
    exists|i: int| 0 <= i < f.members@.len() && f.members@[i]@ == ext
}

/// How many formats of the catalog list `ext` among their members.
pub open spec fn count_matching(formats: Seq<FileFormat>, ext: Seq<char>) -> nat
    decreases formats.len(),
{
    if formats.len() == 0 {
        0
    } else {
        count_matching(formats.drop_last(), ext) + (if format_matches(formats.last(), ext) {
            1nat
        } else {
            0nat
        })
    }
}

/// A catalog entry that matches makes the count positive.
pub proof fn lemma_count_matching_at_least_one(formats: Seq<FileFormat>, ext: Seq<char>, i: int)
    requires
        0 <= i < formats.len(),
        format_matches(formats[i], ext),
    ensures
        count_matching(formats, ext) >= 1,
    decreases formats.len(),
{
    if i == formats.len() - 1 {
    } else {
        lemma_count_matching_at_least_one(formats.drop_last(), ext, i);
    }
}

/// Two distinct matching entries make the count at least two.
pub proof fn lemma_count_matching_at_least_two(
    formats: Seq<FileFormat>,
    ext: Seq<char>,
    i: int,
    j: int,
)
    requires
        0 <= i < j < formats.len(),
        format_matches(formats[i], ext),
        format_matches(formats[j], ext),
    ensures
        count_matching(formats, ext) >= 2,
    decreases formats.len(),
{
    if j == formats.len() - 1 {
        lemma_count_matching_at_least_one(formats.drop_last(), ext, i);
    } else {
        lemma_count_matching_at_least_two(formats.drop_last(), ext, i, j);
    }
}

/// When the count is one, the matching entry is unique.
pub proof fn lemma_unique_match(formats: Seq<FileFormat>, ext: Seq<char>, i: int, j: int)
    requires
        count_matching(formats, ext) == 1,
        0 <= i < formats.len(),
        0 <= j < formats.len(),
        format_matches(formats[i], ext),
        format_matches(formats[j], ext),
    ensures
        i == j,
{
    if i < j {
        lemma_count_matching_at_least_two(formats, ext, i, j);
    } else if j < i {
        lemma_count_matching_at_least_two(formats, ext, j, i);
    }
}

/// Whether one format satisfies its own invariant.
fn format_is_wellformed(f: &FileFormat) -> (r: bool)
    ensures
        r == format_wf(*f),
{
    let n = f.members.len();
    if n == 0 {
        return false;
    }
    let mut i: usize = 0;
    while i < n
        invariant
            n == f.members@.len(),
            i <= n,
            forall|k: int|
                0 <= k < i ==> ((#[trigger] f.members@[k])@.len() == 0 || f.members@[k]@[0] == '.'),
        decreases n - i,
    {
        let m = f.members[i].as_str();
        if m.unicode_len() > 0 && m.get_char(0) != '.' {
            return false;
        }
        i = i + 1;
    }
    true
}

/// Checks the catalog invariant: rejects a format with an empty member
/// list, a member extension that neither is empty nor begins with a dot,
/// and a format name that occurs twice.
pub fn validate_catalog(formats: &Vec<FileFormat>) -> (r: bool)
    ensures
        r == catalog_wf(formats@),
{
    let n = formats.len();
    let mut j: usize = 0;
    while j < n
        invariant
            n == formats@.len(),
            j <= n,
            forall|k: int| 0 <= k < j ==> format_wf(#[trigger] formats@[k]),
            forall|a: int, b: int|
                0 <= a < b < j ==> (#[trigger] formats@[a]).name@ != (
                #[trigger] formats@[b]).name@,
        decreases n - j,
    {
        if !format_is_wellformed(&formats[j]) {
            return false;
        }
        let mut i: usize = 0;
        while i < j
            invariant
                n == formats@.len(),
                i <= j < n,
                forall|a: int| 0 <= a < i ==> (#[trigger] formats@[a]).name@ != formats@[j as int].name@,
            decreases j - i,
        {
            if str_eq(formats[i].name.as_str(), formats[j].name.as_str()) {
                return false;
            }
            i = i + 1;
        }
        j = j + 1;
    }
    true
}

/// The built-in default catalog: an image format and a video format, each
/// transforming to itself, with confirmation of destructive runs switched
/// on.
pub fn default_preferences() -> (p: Preferences)
    ensures
        p.warn_dangerous == true,
        p.file_formats@.len() == 2,
        p.file_formats@[0].name@ == "image"@,
        p.file_formats@[0].members@.len() == 4,
        p.file_formats@[0].members@[0]@ == ".png"@,
        p.file_formats@[0].members@[1]@ == ".jpg"@,
        p.file_formats@[0].members@[2]@ == ".jpeg"@,
        p.file_formats@[0].members@[3]@ == ".webp"@,
        p.file_formats@[0].transformations@.len() == 1,
        p.file_formats@[0].transformations@[0].0@ == "image"@,
        p.file_formats@[0].transformations@[0].1@ == "magick {s} {e}"@,
        p.file_formats@[1].name@ == "video"@,
        p.file_formats@[1].members@.len() == 4,
        p.file_formats@[1].members@[0]@ == ".mp4"@,
        p.file_formats@[1].members@[1]@ == ".mov"@,
        p.file_formats@[1].members@[2]@ == ".avi"@,
        p.file_formats@[1].members@[3]@ == ".mkv"@,
        p.file_formats@[1].transformations@.len() == 1,
        p.file_formats@[1].transformations@[0].0@ == "video"@,
        p.file_formats@[1].transformations@[0].1@ == "ffmpeg -i {s} {e}"@,
        catalog_wf(p.file_formats@),
{
    let mut image_members: Vec<String> = Vec::new();
    image_members.push(".png".to_owned());
    image_members.push(".jpg".to_owned());
    image_members.push(".jpeg".to_owned());
    image_members.push(".webp".to_owned());
    let mut image_transformations: Vec<(String, String)> = Vec::new();
    image_transformations.push(("image".to_owned(), "magick {s} {e}".to_owned()));
    let image = FileFormat {
        name: "image".to_owned(),
        members: image_members,
        transformations: image_transformations,
    };

    let mut video_members: Vec<String> = Vec::new();
    video_members.push(".mp4".to_owned());
    video_members.push(".mov".to_owned());
    video_members.push(".avi".to_owned());
    video_members.push(".mkv".to_owned());
    let mut video_transformations: Vec<(String, String)> = Vec::new();
    video_transformations.push(("video".to_owned(), "ffmpeg -i {s} {e}".to_owned()));
    let video = FileFormat {
        name: "video".to_owned(),
        members: video_members,
        transformations: video_transformations,
    };

    let mut file_formats: Vec<FileFormat> = Vec::new();
    file_formats.push(image);
    file_formats.push(video);
    proof {
        reveal_strlit(".png");
        reveal_strlit(".jpg");
        reveal_strlit(".jpeg");
        reveal_strlit(".webp");
        reveal_strlit(".mp4");
        reveal_strlit(".mov");
        reveal_strlit(".avi");
        reveal_strlit(".mkv");
        reveal_strlit("image");
        reveal_strlit("video");
        assert(format_wf(file_formats@[0]));
        assert(format_wf(file_formats@[1]));
        assert(file_formats@[0].name@[0] != file_formats@[1].name@[0]);
    }
    Preferences { warn_dangerous: true, file_formats }
}

} // verus!
