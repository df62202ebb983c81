use smeagol::bytes::{copy_bytes, same_bytes};
use smeagol::percent::{percent_decode, percent_encode};
use smeagol::Path;

fn segments_of(path: &Path) -> Vec<Vec<u8>> {
    (0..path.segments()).map(|i| path.segment(i).to_vec()).collect()
}

#[test]
fn root_is_empty() {
    let path = Path::new();
    assert!(path.is_empty());
    assert_eq!(path.segments(), 0);
    assert_eq!(path.bytes(), Vec::<u8>::new());
    assert_eq!(path.to_string(), "");
    assert_eq!(path.percent_encode(), "");
}

#[test]
fn root_has_no_parent_and_no_filename() {
    let path = Path::new();
    assert!(path.parent().is_none());
    assert!(path.filename().is_none());
}

#[test]
fn pop_first_on_root_gives_nothing() {
    let mut path = Path::new();
    assert!(path.pop_first().is_none());
    assert!(path.is_empty());
}

#[test]
fn bytes_are_split_on_the_separator() {
    let path = Path::from_bytes(b"test/index.md");
    assert_eq!(segments_of(&path), vec![b"test".to_vec(), b"index.md".to_vec()]);
    assert!(!path.is_empty());
}

#[test]
fn empty_segments_are_dropped() {
    let path = Path::from_bytes(b"/a//b/");
    assert_eq!(segments_of(&path), vec![b"a".to_vec(), b"b".to_vec()]);
    assert_eq!(path.bytes(), b"a/b".to_vec());
    assert!(Path::from_bytes(b"").is_empty());
    assert!(Path::from_bytes(b"/").is_empty());
    assert!(Path::from_bytes(b"///").is_empty());
}

#[test]
fn from_string_reads_the_text_as_bytes() {
    let path = Path::from("dir/caf\u{e9}.md".to_string());
    assert_eq!(path.segments(), 2);
    assert_eq!(path.segment(1), "caf\u{e9}.md".as_bytes());
    assert_eq!(path.to_string(), "dir/caf\u{e9}.md");
}

#[test]
fn parent_drops_the_last_segment() {
    let path = Path::from_bytes(b"a/b/c");
    let parent = path.parent().unwrap();
    assert_eq!(parent.bytes(), b"a/b".to_vec());
    let top = Path::from_bytes(b"a").parent().unwrap();
    assert!(top.is_empty());
}

#[test]
fn filename_is_the_last_segment() {
    assert_eq!(Path::from_bytes(b"a/b/c.md").filename().unwrap(), b"c.md".to_vec());
    assert_eq!(Path::from_bytes(b"c.md").filename().unwrap(), b"c.md".to_vec());
}

#[test]
fn pop_first_descends_one_level() {
    let mut path = Path::from_bytes(b"a/b/c");
    assert_eq!(path.pop_first().unwrap(), b"a".to_vec());
    assert_eq!(path.bytes(), b"b/c".to_vec());
    assert_eq!(path.pop_first().unwrap(), b"b".to_vec());
    assert_eq!(path.pop_first().unwrap(), b"c".to_vec());
    assert!(path.is_empty());
}

#[test]
fn push_appends_segments() {
    let mut path = Path::from_bytes(b"a");
    path.push(b"b");
    assert_eq!(path.bytes(), b"a/b".to_vec());
    path.push(b"c/d");
    assert_eq!(path.segments(), 4);
    assert_eq!(path.bytes(), b"a/b/c/d".to_vec());
    path.push(b"");
    assert_eq!(path.segments(), 4);
}

#[test]
fn clone_is_equal_and_independent() {
    let path = Path::from_bytes(b"a/b");
    let mut copy = path.clone();
    copy.push(b"c");
    assert_eq!(path.bytes(), b"a/b".to_vec());
    assert_eq!(copy.bytes(), b"a/b/c".to_vec());
}

#[test]
fn safe_bytes_are_encoded_as_themselves() {
    let text = b"AZaz09-._~/";
    assert_eq!(percent_encode(text), text.to_vec());
}

#[test]
fn other_bytes_are_escaped_in_upper_case() {
    assert_eq!(percent_encode(b" "), b"%20".to_vec());
    assert_eq!(percent_encode(b"%"), b"%25".to_vec());
    assert_eq!(percent_encode(&[0x00, 0x0a, 0xff, 0xc3]), b"%00%0A%FF%C3".to_vec());
    assert_eq!(percent_encode(b"a b?c"), b"a%20b%3Fc".to_vec());
}

#[test]
fn escapes_are_decoded_in_either_case() {
    assert_eq!(percent_decode(b"%41%6a%6A"), b"Ajj".to_vec());
    assert_eq!(percent_decode(b"%c3%BC"), vec![0xc3, 0xbc]);
    assert_eq!(percent_decode(b"a%20b"), b"a b".to_vec());
}

#[test]
fn stray_percent_signs_are_kept() {
    assert_eq!(percent_decode(b"100%"), b"100%".to_vec());
    assert_eq!(percent_decode(b"%4"), b"%4".to_vec());
    assert_eq!(percent_decode(b"%zz"), b"%zz".to_vec());
    assert_eq!(percent_decode(b"%4g%41"), b"%4gA".to_vec());
    assert_eq!(percent_decode(b"%%41"), b"%A".to_vec());
}

#[test]
fn every_byte_survives_encoding_and_decoding() {
    let all: Vec<u8> = (0..=255u8).collect();
    let text = percent_encode(&all);
    assert!(text.iter().all(|b| b.is_ascii()));
    assert_eq!(percent_decode(&text), all);
}

#[test]
fn path_is_percent_encoded_segment_by_segment() {
    let path = Path::from("a b/\u{fc}".to_string());
    assert_eq!(path.percent_encode(), "a%20b/%C3%BC");
}

#[test]
fn path_survives_percent_encoding() {
    let path = Path::from_bytes(&[b'a', 0xff, b'%', b'/', b' ', b'b', 0x00]);
    let text = path.percent_encode();
    let back = Path::from_percent_encoded(text.as_bytes());
    assert_eq!(segments_of(&back), segments_of(&path));
    assert_eq!(back.segments(), 2);
}

#[test]
fn request_path_is_decoded_then_split() {
    let path = Path::from_percent_encoded(b"/wiki/Main%20Page");
    assert_eq!(segments_of(&path), vec![b"wiki".to_vec(), b"Main Page".to_vec()]);
    let slash = Path::from_percent_encoded(b"a%2Fb");
    assert_eq!(segments_of(&slash), vec![b"a".to_vec(), b"b".to_vec()]);
}

#[test]
fn invalid_utf8_is_shown_with_replacement() {
    let path = Path::from_bytes(&[b'a', 0xff]);
    assert_eq!(path.to_string(), "a\u{fffd}");
}

#[test]
fn bytes_are_copied_and_compared() {
    let bytes = vec![0u8, 47, 255];
    assert_eq!(copy_bytes(&bytes), bytes);
    assert_eq!(copy_bytes(b""), Vec::<u8>::new());
    assert!(same_bytes(b"abc", b"abc"));
    assert!(same_bytes(b"", b""));
    assert!(!same_bytes(b"abc", b"abd"));
    assert!(!same_bytes(b"abc", b"ab"));
    assert!(!same_bytes(b"", b"a"));
}
