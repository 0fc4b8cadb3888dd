use rusty_server::request::HttpRequest;
use rusty_server::response::detect_mime_type;
use rusty_server::response::generate_path;

fn request_for(path: &str) -> HttpRequest {
    HttpRequest { method: "GET".to_string(), path: path.to_string() }
}

#[test]
fn generates_index_for_root() {
    let request = request_for("/");
    let root = "/tmp/site";

    let result = generate_path(&request, root);

    assert_eq!(result, "/tmp/site/index.html");
}

#[test]
fn generates_index_for_index_path() {
    let request = request_for("/index");
    let root = "/tmp/site";

    let result = generate_path(&request, root);

    assert_eq!(result, "/tmp/site/index.html");
}

#[test]
fn generates_path_for_static_asset() {
    let request = request_for("/css/style.css");
    let root = "/tmp/site";

    let result = generate_path(&request, root);

    assert_eq!(result, "/tmp/site/css/style.css");
}

#[test]
fn trims_leading_slashes() {
    let request = request_for("///images/logo.png");
    let root = "/tmp/site";

    let result = generate_path(&request, root);

    assert_eq!(result, "/tmp/site/images/logo.png");
}

#[test]
fn double_slash_index_is_not_an_alias() {
    // Only "/" and "/index" exactly select the index page
    let request = request_for("//index");
    let root = "/tmp/site";

    let result = generate_path(&request, root);

    assert_eq!(result, "/tmp/site/index");
}

#[test]
fn test_mime_type_html() {
    let path = "somedir/somefile.html";

    let content_type = detect_mime_type(path);

    assert_eq!(content_type, "text/html", "Expected html mimetype");
}

#[test]
fn test_mime_type_css() {
    let path = "somedir/somefile.css";

    let content_type = detect_mime_type(path);

    assert_eq!(content_type, "text/css", "Expected css mimetype");
}

#[test]
fn test_mime_type_js() {
    let path = "somedir/somefile.js";

    let content_type = detect_mime_type(path);

    assert_eq!(content_type, "application/javascript", "Expected js mimetype");
}

#[test]
fn test_mime_type_png() {
    let path = "somedir/somefile.png";

    let content_type = detect_mime_type(path);

    assert_eq!(content_type, "image/png", "Expected png mimetype");
}

#[test]
fn test_mime_type_jpg() {
    let path = "somedir/somefile.jpg";

    let content_type = detect_mime_type(path);

    assert_eq!(content_type, "image/jpeg", "Expected jpg mimetype");
}

#[test]
fn test_mime_type_jpeg() {
    let path = "somedir/somefile.jpeg";

    let content_type = detect_mime_type(path);

    assert_eq!(content_type, "image/jpeg", "Expected jpeg mimetype");
}

#[test]
fn test_mime_type_gif() {
    let path = "somedir/somefile.gif";

    let content_type = detect_mime_type(path);

    assert_eq!(content_type, "image/gif", "Expected gif mimetype");
}

#[test]
fn test_mime_type_other() {
    let path = "somedir/somefile.other";

    let content_type = detect_mime_type(path);

    assert_eq!(content_type, "application/octet-stream", "Expected other mimetype");
}

#[test]
fn test_mime_type_no_extension() {
    assert_eq!(detect_mime_type("somedir/README"), "application/octet-stream");
}

#[test]
fn test_mime_type_hidden_file() {
    // A leading dot alone does not make an extension
    assert_eq!(detect_mime_type("somedir/.html"), "application/octet-stream");
}

#[test]
fn test_mime_type_case_sensitive() {
    assert_eq!(detect_mime_type("somedir/somefile.HTML"), "application/octet-stream");
}

#[test]
fn test_mime_type_dot_in_directory() {
    // A dot in a directory name is not an extension of the file
    assert_eq!(detect_mime_type("some.dir/somefile"), "application/octet-stream");
}
