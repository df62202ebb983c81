use smeagol::git::GitError;
use smeagol::{GitRepository, Path};
use tempdir::TempDir;

fn open(tmp: &TempDir) -> GitRepository {
    GitRepository::new(&tmp.path().to_path_buf()).unwrap()
}

#[test]
fn automatic_repo_creation() {
    let tmp_dir = TempDir::new("smeagol").unwrap();
    let path = tmp_dir.path();

    let _repo = GitRepository::new(&path.to_path_buf()).unwrap();

    assert!(path.exists());
    assert!(path.join("HEAD").exists());
    assert!(path.is_dir());
}

#[test]
fn root_always_exists() {
    let tmp = TempDir::new("smeagol").unwrap();
    let repo = open(&tmp);

    let path = Path::new();
    let item = repo.item(path).unwrap();

    assert!(item.is_present().unwrap());
    assert!(item.is_dir().unwrap());
    assert!(!item.is_file().unwrap());
}

#[test]
fn edit_file() {
    let tmp = TempDir::new("smeagol").unwrap();
    let repo = open(&tmp);

    let path = Path::from("index.md".to_string());
    let item = repo.item(path).unwrap();

    assert!(!item.is_present().unwrap());
    assert!(item.can_exist().unwrap());
    match item.content() {
        Err(GitError::NotFound) => {}
        _ => panic!(),
    }

    let file_content = "This is a file.".bytes().collect::<Vec<u8>>();
    item.edit(&file_content, "Commit message").unwrap();

    assert!(item.is_file().unwrap());
    assert!(!item.is_dir().unwrap());
    assert_eq!(item.content().unwrap(), file_content);

    let file_content = "This is an edited file.".bytes().collect::<Vec<u8>>();
    item.edit(&file_content, "Commit message 2").unwrap();

    assert_eq!(item.content().unwrap(), file_content);
}

#[test]
fn edit_file_dir() {
    let tmp = TempDir::new("smeagol").unwrap();
    let repo = open(&tmp);

    let path = Path::from("test/index.md".to_string());
    let item = repo.item(path).unwrap();
    let dir_item = item.parent().unwrap();

    assert!(!dir_item.is_present().unwrap());
    assert!(!item.is_present().unwrap());
    assert!(dir_item.can_exist().unwrap());
    assert!(item.can_exist().unwrap());
    match item.content() {
        Err(GitError::NotFound) => {}
        _ => panic!(),
    }

    let file_content = "This is a file.".bytes().collect::<Vec<u8>>();
    item.edit(&file_content, "Commit message").unwrap();

    assert!(dir_item.is_dir().unwrap());
    assert!(!dir_item.is_file().unwrap());
    assert!(item.is_file().unwrap());
    assert!(!item.is_dir().unwrap());
    assert_eq!(item.content().unwrap(), file_content);
}

#[test]
fn remove_only_file_in_repo() {
    let tmp = TempDir::new("smeagol").unwrap();
    let repo = open(&tmp);

    let path = Path::from("index.md".to_string());
    let item = repo.item(path).unwrap();

    item.edit("content".as_bytes(), "Commit message").unwrap();
    assert!(item.is_present().unwrap());

    item.remove("Commit message").unwrap();
    assert!(!item.is_present().unwrap());
}

#[test]
fn remove_single_file() {
    let tmp = TempDir::new("smeagol").unwrap();
    let repo = open(&tmp);

    let path1 = Path::from("index1.md".to_string());
    let item1 = repo.item(path1).unwrap();
    let path2 = Path::from("index2.md".to_string());
    let item2 = repo.item(path2).unwrap();

    item1.edit("content1".as_bytes(), "Commit message").unwrap();
    assert!(item1.is_present().unwrap());
    item2.edit("content2".as_bytes(), "Commit message").unwrap();
    assert!(item2.is_present().unwrap());

    item1.remove("Commit message").unwrap();
    assert!(!item1.is_present().unwrap());
    assert!(item2.is_present().unwrap());
}

#[test]
fn remove_only_file_in_dir_and_repo() {
    let tmp = TempDir::new("smeagol").unwrap();
    let repo = open(&tmp);

    let path = Path::from("test/index.md".to_string());
    let item = repo.item(path).unwrap();
    let dir_item = item.parent().unwrap();

    item.edit("content".as_bytes(), "Commit message").unwrap();
    assert!(item.is_present().unwrap());

    item.remove("Commit message").unwrap();
    assert!(!item.is_present().unwrap());
    assert!(!dir_item.is_present().unwrap());
}

#[test]
fn remove_single_file_in_dir() {
    let tmp = TempDir::new("smeagol").unwrap();
    let repo = open(&tmp);

    let path1 = Path::from("test/index1.md".to_string());
    let item1 = repo.item(path1).unwrap();
    let path2 = Path::from("test/index2.md".to_string());
    let item2 = repo.item(path2).unwrap();
    let dir_item = item1.parent().unwrap();

    item1.edit("content1".as_bytes(), "Commit message").unwrap();
    assert!(item1.is_present().unwrap());
    item2.edit("content2".as_bytes(), "Commit message").unwrap();
    assert!(item2.is_present().unwrap());

    item1.remove("Commit message").unwrap();
    assert!(!item1.is_present().unwrap());
    assert!(item2.is_present().unwrap());
    assert!(dir_item.is_present().unwrap());
}

#[test]
fn remove_only_file_in_dir_but_not_in_repo() {
    let tmp = TempDir::new("smeagol").unwrap();
    let repo = open(&tmp);

    let path1 = Path::from("test/index1.md".to_string());
    let item1 = repo.item(path1).unwrap();
    let path2 = Path::from("index2.md".to_string());
    let item2 = repo.item(path2).unwrap();
    let dir_item = item1.parent().unwrap();

    item1.edit("content1".as_bytes(), "Commit message").unwrap();
    assert!(item1.is_present().unwrap());
    item2.edit("content2".as_bytes(), "Commit message").unwrap();
    assert!(item2.is_present().unwrap());

    item1.remove("Commit message").unwrap();
    assert!(!item1.is_present().unwrap());
    assert!(item2.is_present().unwrap());
    // A directory that a removal empties goes with its last entry.
    assert!(!dir_item.is_present().unwrap());
}

#[test]
fn remove_only_dir_in_repo() {
    let tmp = TempDir::new("smeagol").unwrap();
    let repo = open(&tmp);

    let path = Path::from("test/index.md".to_string());
    let item = repo.item(path).unwrap();
    let dir_item = item.parent().unwrap();

    item.edit("content1".as_bytes(), "Commit message").unwrap();
    assert!(item.is_present().unwrap());

    dir_item.remove("Commit message").unwrap();
    assert!(!item.is_present().unwrap());
    assert!(!dir_item.is_present().unwrap());
}

#[test]
fn can_exist1() {
    let tmp = TempDir::new("smeagol").unwrap();
    let repo = open(&tmp);

    let path = Path::from("index.md".to_string());
    let item = repo.item(path).unwrap();

    item.edit(&vec![], "commit").unwrap();

    let path2 = Path::from("index.md/something.md".to_string());
    let item2 = repo.item(path2).unwrap();
    assert!(!item2.can_exist().unwrap());

    match item2.content() {
        Err(GitError::NotFound) => {}
        _ => panic!(),
    }
    match item2.edit(&vec![], "commit") {
        Err(GitError::CannotCreate) => {}
        _ => panic!(),
    }
}

#[test]
fn can_exist2() {
    let tmp = TempDir::new("smeagol").unwrap();
    let repo = open(&tmp);

    let path = Path::from("test/index.md".to_string());
    let item = repo.item(path).unwrap();

    item.edit(&vec![], "commit").unwrap();

    let path2 = Path::from("test/index.md/something.md".to_string());
    let item2 = repo.item(path2).unwrap();
    assert!(!item2.can_exist().unwrap());

    match item2.content() {
        Err(GitError::NotFound) => {}
        _ => panic!(),
    }
    match item2.edit(&vec![], "commit") {
        Err(GitError::CannotCreate) => {}
        _ => panic!(),
    }
}
