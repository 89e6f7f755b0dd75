//! The icon that stands for a decoded file, chosen by the file's extension.

use std::path::Path;
use vstd::prelude::*;

verus! {

/// Icon of any other file.
pub const DEF_IMG_PATH: &'static str = "images/emblem-documents.png";

/// Icon of an archive.
pub const ZIP_IMG_PATH: &'static str = "images/application-x-zip.png";

/// Icon of a picture.
pub const IMG_IMG_PATH: &'static str = "images/image-x-generic.png";

/// Icon of a PDF document.
pub const PDF_IMG_PATH: &'static str = "images/application-pdf.png";

/// The extension is one of an archive.
pub open spec fn is_zip_extension(extension: Seq<char>) -> bool {
    extension == "zip"@ || extension == "tar"@ || extension == "gz"@ || extension == "xz"@
        || extension == "jar"@ || extension == "7z"@
}

/// The extension is one of a picture.
pub open spec fn is_img_extension(extension: Seq<char>) -> bool {
    extension == "png"@ || extension == "jpg"@ || extension == "jpeg"@ || extension == "gif"@
        || extension == "svg"@ || extension == "webp"@
}

/// The extension is that of a PDF document.
pub open spec fn is_pdf_extension(extension: Seq<char>) -> bool {
    extension == "pdf"@
}

/// The icon for a file with the given extension.
pub open spec fn spec_image_for_extension(extension: Seq<char>) -> Seq<char> {
    if is_zip_extension(extension) {
        ZIP_IMG_PATH@
    } else if is_img_extension(extension) {
        IMG_IMG_PATH@
    } else if is_pdf_extension(extension) {
        PDF_IMG_PATH@
    } else {
        DEF_IMG_PATH@
    }
}

/// The name holds no slash, no backslash and no colon. These are the
/// characters that part a path into components on one platform or another,
/// so that as a path such a name is the same single component on all of
/// them.
pub open spec fn is_plain_name(name: Seq<char>) -> bool {
    forall|i: int|
        0 <= i < name.len() ==> name[i] != '/' && name[i] != '\\' && name[i] != ':'
}

/// Whether `extension` is `name`.
fn is(extension: &String, name: &str) -> (same: bool)
    ensures
        same == (extension@ == name@),
{
    *extension == name.to_owned()
}

/// The icon for a file with the given extension, compared letter by letter.
pub fn image_for_extension(extension: &String) -> (image: &'static str)
    ensures
        image@ == spec_image_for_extension(extension@),
{
    if is(extension, "zip") || is(extension, "tar") || is(extension, "gz") || is(extension, "xz")
        || is(extension, "jar") || is(extension, "7z") {
        ZIP_IMG_PATH
    } else if is(extension, "png") || is(extension, "jpg") || is(extension, "jpeg") || is(
        extension,
        "gif",
    ) || is(extension, "svg") || is(extension, "webp") {
        IMG_IMG_PATH
    } else if is(extension, "pdf") {
        PDF_IMG_PATH
    } else {
        DEF_IMG_PATH
    }
}

/// The icon for the file of the given name, chosen by the name's extension.
/// The name is a plain one and has an extension; [`has_extension`] tells.
pub fn get_image_for_file(file_name: String) -> (image: &'static str)
    requires
        is_plain_name(file_name@),
        spec_extension(file_name@) is Some,
    ensures
        image@ == spec_image_for_extension(spec_extension(file_name@)->Some_0),
{
    match path_extension(&file_name) {
        Some(extension) => image_for_extension(&extension),
        // A plain name that has an extension has it as a path too.
        None => DEF_IMG_PATH,
    }
}

/// Whether the name is a plain one and has an extension.
pub fn has_extension(file_name: &String) -> (b: bool)
    ensures
        b == (is_plain_name(file_name@) && spec_extension(file_name@) is Some),
{
    let name = file_name.as_str();
    let len = name.unicode_len();
    let mut plain = true;
    let mut dot: Option<usize> = None;
    let mut i: usize = 0;
    while i < len
        invariant
            i <= len,
            len == name@.len(),
            plain == is_plain_name(name@.take(i as int)),
            dot is None ==> last_dot(name@.take(i as int)) == -1,
            dot matches Some(at) ==> at < i && name@[at as int] == '.' && last_dot(
                name@.take(i as int),
            ) == at,
        decreases len - i,
    {
        let c = name.get_char(i);
        if c == '/' || c == '\\' || c == ':' {
            plain = false;
        }
        if c == '.' {
            dot = Some(i);
        }
        proof {
            let longer = name@.take(i + 1);
            assert(longer.drop_last() =~= name@.take(i as int));
            assert(longer.last() == c);
            assert(is_plain_name(longer) == (is_plain_name(name@.take(i as int)) && c != '/' && c
                != '\\' && c != ':')) by {
                if is_plain_name(longer) {
                    assert forall|j: int| 0 <= j < i implies name@.take(i as int)[j] != '/'
                        && name@.take(i as int)[j] != '\\' && name@.take(i as int)[j] != ':' by {
                        assert(longer[j] == name@.take(i as int)[j]);
                    }
                    assert(longer[i as int] == c);
                }
            }
        }
        i += 1;
    }
    assert(name@.take(len as int) =~= name@);
    match dot {
        Some(at) => {
            let parent = len == 2 && name.get_char(0) == '.';
            assert(at > 0 ==> parent == (name@ =~= seq!['.', '.']));
            plain && at > 0 && !parent
        },
        None => false,
    }
}

/// Where the last dot of `name` stands, or -1 where it has none.
pub open spec fn last_dot(name: Seq<char>) -> int
    decreases name.len(),
{
    if name.len() == 0 {
        -1
    } else if name.last() == '.' {
        name.len() - 1
    } else {
        last_dot(name.drop_last())
    }
}

/// The extension of a plain name: what follows its last dot. A name without
/// a dot has none, nor has one whose only dot is its first character, nor the
/// name `..`, which as a path is the parent directory.
pub open spec fn spec_extension(name: Seq<char>) -> Option<Seq<char>> {
    if last_dot(name) <= 0 || name == seq!['.', '.'] {
        None
    } else {
        Some(name.skip(last_dot(name) + 1))
    }
}

/// `std::path::Path::extension` of the name taken as a path: what follows the
/// last dot of the path's last component, unless that component has no dot,
/// has its only dot in front, or is `..`. Which part of the name the last
/// component is depends on the platform's separators; a plain name is that
/// component on every platform, and of other names nothing is said.
#[verifier::external_body]
fn path_extension(file_name: &String) -> (extension: Option<String>)
    ensures
        is_plain_name(file_name@) ==> match extension {
            Some(found) => spec_extension(file_name@) == Some(found@),
            None => spec_extension(file_name@) is None,
        },
{
    Path::new(file_name).extension().and_then(|e| e.to_str()).map(|e| e.to_owned())
}

} // verus!
