use includedir::codec::decode;
use includedir::{start, Compression, Content, Error, FileEntry, Files, IncludeDir, Stream};
use std::sync::atomic::AtomicBool;

/// Lays entries out as a perfect hash map, the way a compiled table
/// declaration holds them.
fn map_of(entries: &[FileEntry]) -> phf::Map<&'static str, (Compression, &'static [u8])> {
    let keys: Vec<&'static str> =
        entries.iter().map(|e| &*Box::leak(e.key.clone().into_boxed_str())).collect();
    let state = phf_generator::generate_hash(&keys);
    let mut placed: Vec<(&'static str, (Compression, &'static [u8]))> = Vec::new();
    for &at in &state.map {
        let payload: &'static [u8] = Box::leak(entries[at].payload.clone().into_boxed_slice());
        placed.push((keys[at], (entries[at].compression, payload)));
    }
    phf::Map {
        key: state.key,
        disps: Box::leak(state.disps.into_boxed_slice()),
        entries: Box::leak(placed.into_boxed_slice()),
    }
}

fn files_of(dir: &IncludeDir) -> Files {
    Files { files: map_of(dir.files()), passthrough: AtomicBool::new(false) }
}

fn bytes(content: Content) -> Vec<u8> {
    match content {
        Content::Embedded(data) => data,
        Content::OnDisk => panic!("the content is on disk"),
    }
}

fn names_of(files: &Files) -> Vec<&'static str> {
    let mut list = files.file_names();
    let mut names = Vec::new();
    while let Some(name) = list.next() {
        names.push(name);
    }
    names
}

fn sample() -> Files {
    let mut cg = start("FILES");
    cg.add_file("data/foo", Compression::Gzip, b"foo\n").unwrap();
    cg.add_file("data/empty", Compression::Gzip, b"").unwrap();
    cg.add_file("data/inner/boom", Compression::Gzip, b"boom\n").unwrap();
    files_of(&cg)
}

#[test]
fn test() {
    let files = sample();
    assert_eq!(
        bytes(files.get("data/foo").expect("data/foo not present")),
        &[102, 111, 111, 10]
    );

    let mut names = names_of(&files);
    names.sort();
    assert_eq!(names, vec!["data/empty", "data/foo", "data/inner/boom"]);

    assert_eq!(bytes(files.get("data/inner/boom").unwrap()), &[98, 111, 111, 109, 10]);
    assert_eq!(bytes(files.get("data/foo").unwrap()), &[102, 111, 111, 10]);
    assert_eq!(bytes(files.get("data/empty").unwrap()), &[] as &[u8]);
}

#[test]
fn plain_file_comes_back_unchanged() {
    let mut cg = start("FILES");
    let data: Vec<u8> = (0..=255u8).collect();
    cg.add_file("all/bytes", Compression::Plain, &data).unwrap();
    let files = files_of(&cg);
    assert_eq!(files.get("all/bytes").unwrap(), Content::Embedded(data.clone()));
    let raw = files.get_raw("all/bytes").unwrap();
    assert_eq!(raw, (Compression::Plain, data));
}

#[test]
fn gzip_file_is_stored_compressed_and_answered_decoded() {
    let content: Vec<u8> = b"abcabcabcabcabcabcabcabcabcabcabcabcabcabcabcabc".to_vec();
    let mut cg = start("FILES");
    cg.add_file("data/text", Compression::Gzip, &content).unwrap();
    let files = files_of(&cg);

    let (kind, stored) = files.get_raw("data/text").unwrap();
    assert_eq!(kind, Compression::Gzip);
    assert_ne!(stored, content);
    assert_eq!(&stored[..2], &[0x1f, 0x8b]);
    assert_eq!(decode(kind, &stored).unwrap(), content);

    assert_eq!(files.get("data/text").unwrap(), Content::Embedded(content));
}

#[test]
fn repeated_requests_agree() {
    let files = sample();
    let first = files.get("data/foo").unwrap();
    let second = files.get("data/foo").unwrap();
    assert_eq!(first, second);
    assert_eq!(files.get_raw("data/foo").unwrap(), files.get_raw("data/foo").unwrap());

    let mut piece = Vec::new();
    for _ in 0..2 {
        match files.read("data/foo").unwrap() {
            Stream::Embedded(mut reader) => piece.push(reader.read(64).unwrap()),
            Stream::OnDisk => panic!("the content is on disk"),
        }
    }
    assert_eq!(piece[0], piece[1]);
    assert_eq!(piece[0], b"foo\n");
}

#[test]
fn availability_is_membership() {
    let files = sample();
    assert!(files.is_available("data/foo"));
    assert!(files.is_available("data/empty"));
    assert!(files.is_available("data/inner/boom"));
    assert!(!files.is_available("data/nope"));
    assert!(!files.is_available("data"));
    assert!(!files.is_available(""));

    files.set_passthrough(true);
    assert!(files.is_available("data/foo"));
    assert!(!files.is_available("data/nope"));
}

#[test]
fn availability_takes_the_key_as_it_is() {
    let files = sample();
    assert!(!files.is_available("data\\foo"));
}

#[test]
fn names_are_the_keys_without_repetition() {
    let mut cg = start("FILES");
    cg.add_file("b", Compression::Plain, b"1").unwrap();
    cg.add_file("a", Compression::Plain, b"2").unwrap();
    cg.add_file("b", Compression::Gzip, b"3").unwrap();
    cg.add_file("c\\d", Compression::Plain, b"4").unwrap();
    let files = files_of(&cg);
    let mut names = names_of(&files);
    names.sort();
    assert_eq!(names, vec!["a", "b", "c/d"]);
}

#[test]
fn names_of_an_empty_table() {
    let files = files_of(&start("FILES"));
    assert!(names_of(&files).is_empty());
    assert!(!files.is_available("anything"));
    assert!(matches!(files.get("anything"), Err(Error::NotFound)));
}

#[test]
fn names_end_and_stay_ended() {
    let mut cg = start("FILES");
    cg.add_file("only", Compression::Plain, b"").unwrap();
    let files = files_of(&cg);
    let mut list = files.file_names();
    assert_eq!(list.next(), Some("only"));
    assert_eq!(list.next(), None);
    assert_eq!(list.next(), None);
}

#[test]
fn override_sends_every_request_to_disk() {
    let files = sample();
    files.set_passthrough(true);
    assert_eq!(files.get("data/foo").unwrap(), Content::OnDisk);
    assert_eq!(files.get("data/nope").unwrap(), Content::OnDisk);
    assert_eq!(files.get_raw("data/foo").unwrap(), (Compression::Passthrough, Vec::new()));
    assert!(matches!(files.read("data/foo"), Ok(Stream::OnDisk)));

    files.set_passthrough(false);
    assert_eq!(files.get("data/foo").unwrap(), Content::Embedded(b"foo\n".to_vec()));
    assert!(matches!(files.get("data/nope"), Err(Error::NotFound)));
}

#[test]
fn given_override_decides_the_answer() {
    let files = sample();
    assert_eq!(files.get_with(true, "data/foo").unwrap(), Content::OnDisk);
    assert_eq!(files.get_with(false, "data/foo").unwrap(), Content::Embedded(b"foo\n".to_vec()));
    assert_eq!(
        files.get_raw_with(true, "data/foo").unwrap(),
        (Compression::Passthrough, Vec::new())
    );
    assert_eq!(files.get_raw_with(false, "data/foo").unwrap().0, Compression::Gzip);
    assert!(matches!(files.read_with(true, "data/foo"), Ok(Stream::OnDisk)));
    assert!(matches!(files.read_with(false, "data/foo"), Ok(Stream::Embedded(_))));
}

#[test]
fn missing_key_is_not_found() {
    let files = sample();
    assert!(matches!(files.get("data/nope"), Err(Error::NotFound)));
    assert!(matches!(files.get_raw("data/nope"), Err(Error::NotFound)));
    assert!(matches!(files.read("data/nope"), Err(Error::NotFound)));
}

#[test]
fn either_separator_finds_the_entry() {
    let mut cg = start("FILES");
    cg.add_file("data\\inner\\boom", Compression::Gzip, b"boom\n").unwrap();
    cg.add_file("data/foo", Compression::Plain, b"foo\n").unwrap();
    let files = files_of(&cg);
    let boom = Content::Embedded(b"boom\n".to_vec());
    assert_eq!(files.get("data/inner/boom").unwrap(), boom);
    assert_eq!(files.get("data\\inner\\boom").unwrap(), boom);
    assert_eq!(files.get("data\\inner/boom").unwrap(), boom);
    assert_eq!(files.get("data\\foo").unwrap(), Content::Embedded(b"foo\n".to_vec()));
}

#[test]
fn passthrough_entry_is_read_from_disk() {
    let mut cg = start("FILES");
    cg.add_file("live", Compression::Passthrough, b"ignored").unwrap();
    cg.add_file("kept", Compression::Plain, b"kept").unwrap();
    let files = files_of(&cg);
    assert_eq!(files.get("live").unwrap(), Content::OnDisk);
    assert_eq!(files.get_raw("live").unwrap(), (Compression::Passthrough, Vec::new()));
    assert!(matches!(files.read("live"), Ok(Stream::OnDisk)));
    assert_eq!(files.get("kept").unwrap(), Content::Embedded(b"kept".to_vec()));
}

#[test]
fn malformed_payload_is_a_decode_error() {
    let entries = vec![
        FileEntry {
            key: "broken".to_string(),
            compression: Compression::Gzip,
            payload: b"this is no gzip stream".to_vec(),
        },
        FileEntry {
            key: "cut".to_string(),
            compression: Compression::Gzip,
            payload: vec![0x1f, 0x8b, 8, 0, 0, 0],
        },
    ];
    let files = Files { files: map_of(&entries), passthrough: AtomicBool::new(false) };
    assert!(matches!(files.get("broken"), Err(Error::Decode(_))));
    assert!(matches!(files.get("cut"), Err(Error::Decode(_))));
    assert_eq!(files.get_raw("broken").unwrap().1, b"this is no gzip stream");
    match files.read("broken").unwrap() {
        Stream::Embedded(mut reader) => {
            assert!(matches!(reader.read(8), Err(Error::Decode(_))));
            assert!(matches!(reader.read(8), Err(Error::Decode(_))));
        }
        Stream::OnDisk => panic!("the content is on disk"),
    }
}

#[test]
fn reader_hands_out_pieces_in_order() {
    let files = sample();
    let mut reader = match files.read("data/inner/boom").unwrap() {
        Stream::Embedded(reader) => reader,
        Stream::OnDisk => panic!("the content is on disk"),
    };
    assert_eq!(reader.read(2).unwrap(), b"bo");
    assert_eq!(reader.read(0).unwrap(), b"");
    assert_eq!(reader.read(2).unwrap(), b"om");
    assert_eq!(reader.read(2).unwrap(), b"\n");
    assert_eq!(reader.read(2).unwrap(), b"");
    assert_eq!(reader.read(usize::MAX).unwrap(), b"");
}

#[test]
fn reader_over_a_plain_entry() {
    let mut cg = start("FILES");
    cg.add_file("p", Compression::Plain, b"0123456789").unwrap();
    let files = files_of(&cg);
    let mut reader = match files.read("p").unwrap() {
        Stream::Embedded(reader) => reader,
        Stream::OnDisk => panic!("the content is on disk"),
    };
    assert_eq!(reader.read(usize::MAX).unwrap(), b"0123456789");
    assert_eq!(reader.read(1).unwrap(), b"");
}

#[test]
fn disk_content_is_reported_as_plain() {
    let (kind, data) = Files::raw_from_disk(vec![1, 2, 3]);
    assert_eq!(kind, Compression::Plain);
    assert_eq!(data, vec![1, 2, 3]);
    assert_eq!(decode(kind, &data).unwrap(), vec![1, 2, 3]);
}
