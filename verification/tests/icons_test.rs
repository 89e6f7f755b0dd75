use filegram::icons::{
    get_image_for_file, has_extension, image_for_extension, DEF_IMG_PATH, IMG_IMG_PATH,
    PDF_IMG_PATH, ZIP_IMG_PATH,
};

#[test]
fn archives_get_the_archive_icon() {
    for extension in ["zip", "tar", "gz", "xz", "jar", "7z"] {
        assert_eq!(image_for_extension(&extension.to_string()), "images/application-x-zip.png");
        assert_eq!(get_image_for_file(format!("backup.{}", extension)), ZIP_IMG_PATH);
    }
}

#[test]
fn pictures_get_the_picture_icon() {
    for extension in ["png", "jpg", "jpeg", "gif", "svg", "webp"] {
        assert_eq!(image_for_extension(&extension.to_string()), "images/image-x-generic.png");
        assert_eq!(get_image_for_file(format!("holiday.{}", extension)), IMG_IMG_PATH);
    }
}

#[test]
fn a_pdf_gets_the_pdf_icon() {
    assert_eq!(image_for_extension(&"pdf".to_string()), "images/application-pdf.png");
    assert_eq!(get_image_for_file("thesis.final.pdf".to_string()), PDF_IMG_PATH);
}

#[test]
fn anything_else_gets_the_document_icon() {
    assert_eq!(image_for_extension(&"txt".to_string()), "images/emblem-documents.png");
    assert_eq!(image_for_extension(&"PNG".to_string()), DEF_IMG_PATH);
    assert_eq!(image_for_extension(&"".to_string()), DEF_IMG_PATH);
    assert_eq!(get_image_for_file("notes.txt".to_string()), DEF_IMG_PATH);
    assert_eq!(get_image_for_file("archive.zip.bak".to_string()), DEF_IMG_PATH);
}

#[test]
fn the_extension_is_what_follows_the_last_dot() {
    assert_eq!(get_image_for_file("a.b.png".to_string()), IMG_IMG_PATH);
    assert_eq!(get_image_for_file("a.png.b".to_string()), DEF_IMG_PATH);
    assert_eq!(get_image_for_file(".hidden.zip".to_string()), ZIP_IMG_PATH);
    assert_eq!(get_image_for_file("x.pdf".to_string()), PDF_IMG_PATH);
}

#[test]
fn an_empty_extension_is_an_extension() {
    for name in ["a.", "...", "zip."] {
        assert!(has_extension(&name.to_string()));
        assert_eq!(get_image_for_file(name.to_string()), DEF_IMG_PATH);
    }
}

#[test]
fn a_name_without_a_dot_inside_has_no_extension() {
    for name in ["README", "zip", "", ".", ".png", ".zip", ".."] {
        assert!(!has_extension(&name.to_string()));
    }
}

#[test]
fn a_name_with_a_separator_or_a_colon_is_not_plain() {
    for name in ["dir/a.zip", "a.zip/", "dir.d/a.png", "c:a.pdf", "a\\b.jpg", "/a.b", "a.b:"] {
        assert!(!has_extension(&name.to_string()));
    }
    for name in ["a.zip", "a b.zip", "señor.png", "a-b_c.d"] {
        assert!(has_extension(&name.to_string()));
    }
}

/// What follows the last dot of a name without separators, unless the name
/// has no dot, has its only dot in front, or is `..`.
fn plain_extension(name: &str) -> Option<&str> {
    match name.rfind('.') {
        Some(at) if at > 0 && name != ".." => Some(&name[at + 1..]),
        _ => None,
    }
}

#[test]
fn every_plain_name_gets_the_icon_of_what_follows_its_last_dot() {
    let letters = ['.', 'a', 'z', 'i', 'p', 'n', 'g', 'd', 'f', '7', ' ', '-'];
    let mut names = vec![String::new()];
    for _ in 0..4 {
        let mut longer = Vec::new();
        for name in &names {
            for letter in letters {
                longer.push(format!("{}{}", name, letter));
            }
        }
        for name in &longer {
            let expected = plain_extension(name).map(|e| image_for_extension(&e.to_string()));
            assert_eq!(has_extension(name), expected.is_some());
            if let Some(icon) = expected {
                assert_eq!(get_image_for_file(name.clone()), icon);
            }
        }
        names = longer;
    }
    for extension in ["zip", "tar", "gz", "xz", "jar", "7z", "png", "jpeg", "webp", "pdf", "rs"] {
        for stem in ["a", "a.b", ".a", "..", "...", "señor", "a b"] {
            let name = format!("{}.{}", stem, extension);
            assert!(has_extension(&name));
            assert_eq!(get_image_for_file(name), image_for_extension(&extension.to_string()));
        }
    }
}
