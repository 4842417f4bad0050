use demiboard::handlers::error::RequestError;
use demiboard::handlers::types::{NewPost, NewThread};
use demiboard::handlers::{new_post, new_thread, MESSAGE_LIMIT, NAME_LIMIT, TITLE_LIMIT};
use demiboard::util::multipart::{MultipartError, SavedFile};

fn upload(name: &str, path: &str) -> SavedFile {
    SavedFile { name: name.to_owned(), path: path.to_owned() }
}

#[test]
fn request_error_messages() {
    assert_eq!(RequestError::Teapot.to_string(), "Something fishy is going on");
    assert_eq!(RequestError::NotFound.to_string(), "Not found");
    assert_eq!(RequestError::Unauthorized.to_string(), "Unauthorized");
    assert_eq!(RequestError::Internal("pool timed out".to_owned()).to_string(), "Internal error");
    assert_eq!(
        RequestError::BadRequest("bad request".to_owned()).to_string(),
        "Bad request: bad request"
    );
}

#[test]
fn request_error_status_codes() {
    assert_eq!(RequestError::Teapot.status_code(), 418);
    assert_eq!(RequestError::NotFound.status_code(), 404);
    assert_eq!(RequestError::Unauthorized.status_code(), 401);
    assert_eq!(RequestError::Internal(String::new()).status_code(), 500);
    assert_eq!(RequestError::BadRequest(String::new()).status_code(), 400);
}

#[test]
fn internal_multipart_error_stays_internal() {
    match RequestError::from(MultipartError::Internal("disk full".to_owned())) {
        RequestError::Internal(info) => assert_eq!(
            info,
            "an internal error occured while processing multipart request: disk full"
        ),
        other => panic!("{:?}", other),
    }
}

#[test]
fn other_multipart_errors_are_bad_requests() {
    match RequestError::from(MultipartError::Decode) {
        RequestError::BadRequest(info) => {
            assert_eq!(info, "couldn't decode multipart/form-data payload")
        }
        other => panic!("{:?}", other),
    }
    match RequestError::from(MultipartError::BadRequest) {
        RequestError::BadRequest(info) => assert_eq!(info, "bad request"),
        other => panic!("{:?}", other),
    }
    let converted: RequestError = MultipartError::InvalidField("eof".to_owned()).into();
    assert_eq!(converted.to_string(), "Bad request: invalid payload structure: eof");
    assert_eq!(converted.status_code(), 400);
}

#[test]
fn thread_needs_an_image() {
    let info = NewThread { name: None, message: "hello".to_owned(), title: None };
    match new_thread("b".to_owned(), info, Vec::new()) {
        Err(RequestError::BadRequest(reason)) => {
            assert_eq!(reason, "Threads should have an image")
        }
        _ => panic!("a thread without an image was accepted"),
    }
}

#[test]
fn thread_takes_its_fields_from_the_form() {
    let info = NewThread {
        name: Some("anon".to_owned()),
        message: "first".to_owned(),
        title: Some("A title".to_owned()),
    };
    let images = vec![upload("a.png", "up/1.png"), upload("b.png", "up/2.png")];
    let thread = new_thread("tech".to_owned(), info, images).ok().unwrap();
    assert_eq!(thread.board, "tech");
    assert_eq!(thread.title, "A title");
    assert_eq!(thread.name, "anon");
    assert_eq!(thread.message, "first");
    let image = thread.image.unwrap();
    assert_eq!(image.name, "a.png");
    assert_eq!(image.path, "up/1.png");
    assert_eq!(image.preview_path, "up/1.png");
}

#[test]
fn absent_fields_of_a_thread_are_empty() {
    let info = NewThread { name: None, message: String::new(), title: None };
    let thread = new_thread("b".to_owned(), info, vec![upload("a", "p")]).ok().unwrap();
    assert_eq!(thread.title, "");
    assert_eq!(thread.name, "");
    assert_eq!(thread.message, "");
}

#[test]
fn fields_are_cut_by_characters() {
    assert_eq!((TITLE_LIMIT, NAME_LIMIT, MESSAGE_LIMIT), (100, 50, 5000));
    let info = NewThread {
        name: Some("\u{e9}".repeat(51)),
        message: "m".repeat(5001),
        title: Some("\u{2603}".repeat(101)),
    };
    let thread = new_thread("b".to_owned(), info, vec![upload("a", "p")]).ok().unwrap();
    assert_eq!(thread.title, "\u{2603}".repeat(100));
    assert_eq!(thread.name, "\u{e9}".repeat(50));
    assert_eq!(thread.message, "m".repeat(5000));
}

#[test]
fn fields_at_the_limit_are_kept_whole() {
    let info = NewThread {
        name: Some("n".repeat(50)),
        message: "\u{fc}".repeat(5000),
        title: Some("t".repeat(100)),
    };
    let thread = new_thread("b".to_owned(), info, vec![upload("a", "p")]).ok().unwrap();
    assert_eq!(thread.title, "t".repeat(100));
    assert_eq!(thread.name, "n".repeat(50));
    assert_eq!(thread.message, "\u{fc}".repeat(5000));
}

#[test]
fn post_may_come_without_an_image() {
    let info = NewPost { name: None, message: "reply".to_owned() };
    let post = new_post("id0123456789abcd".to_owned(), 12, info, Vec::new());
    assert_eq!(post.identity, "id0123456789abcd");
    assert_eq!(post.thread, 12);
    assert_eq!(post.name, "");
    assert_eq!(post.message, "reply");
    assert!(post.image.is_none());
}

#[test]
fn post_takes_the_first_image_and_cuts_its_fields() {
    let info = NewPost { name: Some("x".repeat(60)), message: "y".repeat(6000) };
    let images = vec![upload("a.png", "up/1.png"), upload("b.png", "up/2.png")];
    let post = new_post("me".to_owned(), -3, info, images);
    assert_eq!(post.thread, -3);
    assert_eq!(post.name, "x".repeat(50));
    assert_eq!(post.message, "y".repeat(5000));
    let image = post.image.unwrap();
    assert_eq!(image.name, "a.png");
    assert_eq!(image.path, "up/1.png");
    assert_eq!(image.preview_path, "up/1.png");
}
