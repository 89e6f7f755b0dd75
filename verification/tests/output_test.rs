use filegram::output::{decoded_default_output, encoded_default_output};

#[test]
fn a_picture_is_named_after_its_file() {
    assert_eq!(encoded_default_output(Some("notes.txt".to_string())), "notes.txt.png");
    assert_eq!(encoded_default_output(Some("".to_string())), ".png");
}

#[test]
fn a_picture_of_no_file_is_named_output() {
    assert_eq!(encoded_default_output(None), "output.png");
}

#[test]
fn a_decoded_file_loses_the_png_of_its_picture() {
    assert_eq!(decoded_default_output(&"notes.txt.png".to_string()), "notes.txt");
    assert_eq!(decoded_default_output(&"a.png.png".to_string()), "a.png");
    assert_eq!(decoded_default_output(&".png".to_string()), "");
}

#[test]
fn a_decoded_file_of_another_picture_is_marked_decoded() {
    assert_eq!(decoded_default_output(&"picture.jpg".to_string()), "picture.jpg.decoded");
    assert_eq!(decoded_default_output(&"picture.PNG".to_string()), "picture.PNG.decoded");
    assert_eq!(decoded_default_output(&"png".to_string()), "png.decoded");
    assert_eq!(decoded_default_output(&"".to_string()), ".decoded");
}
