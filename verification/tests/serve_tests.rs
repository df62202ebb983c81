use smeagol::git::GitError;
use smeagol::serve::{
    edit_begin, edit_reply, failure_text, get_reply, EditStep, Page, Reply, STATUS_INTERNAL_ERROR,
};
use smeagol::Path;

#[test]
fn file_is_shown() {
    let path = Path::from_bytes(b"dir/page.md");
    match get_reply(&path, Ok(b"# Title".to_vec())) {
        Reply::Html { status: 200, page: Page::Get { path, content } } => {
            assert_eq!(path, "dir/page.md");
            assert_eq!(content, "# Title");
        }
        other => panic!("{:?}", other),
    }
}

#[test]
fn invalid_utf8_content_is_shown_with_replacement() {
    let path = Path::from_bytes(b"page.md");
    match get_reply(&path, Ok(vec![b'a', 0xff, b'b'])) {
        Reply::Html { status: 200, page: Page::Get { content, .. } } => {
            assert_eq!(content, "a\u{fffd}b");
        }
        other => panic!("{:?}", other),
    }
}

#[test]
fn directory_redirects_to_its_index() {
    let path = Path::from_bytes(b"my dir");
    match get_reply(&path, Err(GitError::IsDir)) {
        Reply::Redirect { status: 302, location } => assert_eq!(location, "/my%20dir/index.md"),
        other => panic!("{:?}", other),
    }
    match get_reply(&Path::new(), Err(GitError::IsDir)) {
        Reply::Redirect { status: 302, location } => assert_eq!(location, "/index.md"),
        other => panic!("{:?}", other),
    }
}

#[test]
fn missing_page_is_reported_as_not_found() {
    let path = Path::from_bytes(b"nothing");
    match get_reply(&path, Err(GitError::NotFound)) {
        Reply::Html { status: 404, page: Page::GetNotFound { path } } => {
            assert_eq!(path, "nothing");
        }
        other => panic!("{:?}", other),
    }
}

#[test]
fn other_failures_are_internal_errors() {
    let path = Path::from_bytes(b"page");
    assert!(matches!(
        get_reply(&path, Err(GitError::IsFile)),
        Reply::Failure { error: GitError::IsFile }
    ));
    assert!(matches!(
        get_reply(&path, Err(GitError::from(git2::Error::from_str("broken")))),
        Reply::Failure { error: GitError::Git(_) }
    ));
    assert!(matches!(
        edit_reply(&path, Err(GitError::IsDir)),
        Reply::Failure { error: GitError::IsDir }
    ));
    assert!(matches!(
        edit_begin(&path, Err(GitError::NoParent)),
        EditStep::Answer { reply: Reply::Failure { error: GitError::NoParent } }
    ));
}

#[test]
fn edit_of_an_impossible_path_is_refused() {
    let path = Path::from_bytes(b"file.md/below");
    match edit_begin(&path, Ok(false)) {
        EditStep::Answer {
            reply: Reply::Html { status: 404, page: Page::EditCouldNotExist { path } },
        } => assert_eq!(path, "file.md/below"),
        other => panic!("{:?}", other),
    }
}

#[test]
fn edit_of_a_possible_path_reads_the_content() {
    let path = Path::from_bytes(b"file.md");
    assert!(matches!(edit_begin(&path, Ok(true)), EditStep::ReadContent));
}

#[test]
fn edit_form_holds_the_content_of_a_file() {
    let path = Path::from_bytes(b"file.md");
    match edit_reply(&path, Ok(b"old text".to_vec())) {
        Reply::Html { status: 200, page: Page::Edit { path, current } } => {
            assert_eq!(path, "file.md");
            assert_eq!(current, Some("old text".to_string()));
        }
        other => panic!("{:?}", other),
    }
}

#[test]
fn edit_form_is_empty_for_a_new_file() {
    let path = Path::from_bytes(b"new.md");
    match edit_reply(&path, Err(GitError::NotFound)) {
        Reply::Html { status: 200, page: Page::Edit { path, current } } => {
            assert_eq!(path, "new.md");
            assert_eq!(current, None);
        }
        other => panic!("{:?}", other),
    }
}

#[test]
fn failure_text_is_fixed() {
    assert_eq!(failure_text(), "An internal error occurred.");
    assert_eq!(STATUS_INTERNAL_ERROR, 500);
}
