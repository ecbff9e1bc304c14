use deltakernel::table_url::parse_path_as_url;

fn url_text(path: &str) -> Option<String> {
    parse_path_as_url(path).map(|u| u.as_str().to_string())
}

#[test]
fn absolute_directory_becomes_file_url_with_trailing_slash() {
    assert_eq!(url_text("/tmp/table"), Some("file:///tmp/table/".to_string()));
}

#[test]
fn trailing_slash_is_not_doubled() {
    assert_eq!(url_text("/tmp/table/"), Some("file:///tmp/table/".to_string()));
}

#[test]
fn root_directory() {
    assert_eq!(url_text("/"), Some("file:///".to_string()));
}

#[test]
fn special_characters_are_percent_encoded() {
    assert_eq!(
        url_text("/data/my table"),
        Some("file:///data/my%20table/".to_string())
    );
}

#[test]
fn relative_paths_are_refused() {
    assert_eq!(url_text("tests/data"), None);
    assert_eq!(url_text("./x"), None);
    assert_eq!(url_text(""), None);
}

#[test]
fn url_and_its_text_agree() {
    let u = parse_path_as_url("/var/www").unwrap();
    assert_eq!(u.as_str(), "file:///var/www/");
    let url = u.into_url();
    assert_eq!(url.as_str(), "file:///var/www/");
    assert_eq!(url.join("index.html").unwrap().as_str(), "file:///var/www/index.html");
}
