use includedir::codec::{decode, encode};
use includedir::render::render_entry;
use includedir::render::render_slice;
use includedir::{as_key, build, start, Compression, FileEntry, WalkEntry};

fn entry(key: &str, compression: Compression, payload: &[u8]) -> FileEntry {
    FileEntry { key: key.to_string(), compression, payload: payload.to_vec() }
}

#[test]
fn key_rewrites_every_backslash() {
    assert_eq!(as_key("data\\inner\\boom"), "data/inner/boom");
    assert_eq!(as_key("data/inner/boom"), "data/inner/boom");
    assert_eq!(as_key("\\\\"), "//");
    assert_eq!(as_key(""), "");
    assert_eq!(as_key("a\\b/c"), "a/b/c");
    assert_eq!(as_key("caf\u{e9}\\\u{1F600}"), "caf\u{e9}/\u{1F600}");
}

#[test]
fn key_of_a_key_is_the_key() {
    let once = as_key("x\\y\\z");
    assert_eq!(as_key(&once), once);
}

#[test]
fn start_is_empty() {
    let cg = start("FILES");
    assert!(cg.files().is_empty());
    assert!(cg.reads_source(Compression::Plain));
    assert!(cg.reads_source(Compression::Gzip));
    assert!(!cg.reads_source(Compression::Passthrough));
}

#[test]
fn plain_file_is_recorded_verbatim() {
    let mut cg = start("FILES");
    cg.add_file("a\\b", Compression::Plain, &[0, 1, 255]).unwrap();
    assert_eq!(cg.files(), &vec![entry("a/b", Compression::Plain, &[0, 1, 255])]);
}

#[test]
fn gzip_file_is_recorded_compressed() {
    let mut cg = start("FILES");
    cg.add_file("z", Compression::Gzip, b"foo\n").unwrap();
    let recorded = &cg.files()[0];
    assert_eq!(recorded.key, "z");
    assert_eq!(recorded.compression, Compression::Gzip);
    assert_ne!(recorded.payload, b"foo\n");
    assert_eq!(recorded.payload, encode(Compression::Gzip, b"foo\n").unwrap());
    assert_eq!(decode(Compression::Gzip, &recorded.payload).unwrap(), b"foo\n");
}

#[test]
fn passthrough_file_records_no_content() {
    let mut cg = start("FILES");
    cg.add_file("live", Compression::Passthrough, b"content").unwrap();
    assert_eq!(cg.files(), &vec![entry("live", Compression::Passthrough, b"")]);
}

#[test]
fn passthrough_table_records_no_content() {
    let mut cg = start("FILES");
    cg.add_file("before", Compression::Plain, b"1").unwrap();
    cg.passthrough();
    assert!(!cg.reads_source(Compression::Plain));
    assert!(!cg.reads_source(Compression::Gzip));
    cg.add_file("plain", Compression::Plain, b"2").unwrap();
    cg.add_file("gzip", Compression::Gzip, b"3").unwrap();
    assert_eq!(
        cg.files(),
        &vec![
            entry("before", Compression::Plain, b"1"),
            entry("plain", Compression::Passthrough, b""),
            entry("gzip", Compression::Passthrough, b""),
        ]
    );
}

#[test]
fn last_write_to_a_key_wins() {
    let mut cg = start("FILES");
    cg.add_file("k", Compression::Plain, b"first").unwrap();
    cg.add_file("other", Compression::Plain, b"o").unwrap();
    cg.add_file("k", Compression::Plain, b"second").unwrap();
    assert_eq!(
        cg.files(),
        &vec![entry("k", Compression::Plain, b"second"), entry("other", Compression::Plain, b"o")]
    );
    cg.add_file("k", Compression::Passthrough, b"third").unwrap();
    assert_eq!(cg.files()[0], entry("k", Compression::Passthrough, b""));
    assert_eq!(cg.files().len(), 2);
}

#[test]
fn same_key_by_either_separator() {
    let mut cg = start("FILES");
    cg.add_file("a\\b", Compression::Plain, b"1").unwrap();
    cg.add_file("a/b", Compression::Plain, b"2").unwrap();
    assert_eq!(cg.files(), &vec![entry("a/b", Compression::Plain, b"2")]);
}

#[test]
fn chaining_records_in_order() {
    let mut cg = start("FILES");
    cg.file("one", Compression::Plain, b"1").file("two", Compression::Gzip, b"2").file(
        "three",
        Compression::Passthrough,
        b"3",
    );
    let keys: Vec<&str> = cg.files().iter().map(|e| e.key.as_str()).collect();
    assert_eq!(keys, vec!["one", "two", "three"]);
    assert_eq!(cg.files()[0].payload, b"1");
    assert_eq!(decode(Compression::Gzip, &cg.files()[1].payload).unwrap(), b"2");
    assert_eq!(cg.files()[2], entry("three", Compression::Passthrough, b""));
}

#[test]
fn chaining_after_passthrough() {
    let mut cg = start("FILES");
    cg.passthrough().file("x", Compression::Gzip, b"content");
    assert_eq!(cg.files(), &vec![entry("x", Compression::Passthrough, b"")]);
}

fn walk() -> Vec<WalkEntry> {
    vec![
        WalkEntry::Directory("data".to_string()),
        WalkEntry::File("data/foo".to_string(), b"foo\n".to_vec()),
        WalkEntry::Failed,
        WalkEntry::Directory("data/inner".to_string()),
        WalkEntry::File("data\\inner\\boom".to_string(), b"boom\n".to_vec()),
        WalkEntry::File("data/empty".to_string(), Vec::new()),
    ]
}

#[test]
fn directory_records_files_only() {
    let mut cg = start("FILES");
    cg.add_dir(&walk(), Compression::Plain).unwrap();
    assert_eq!(
        cg.files(),
        &vec![
            entry("data/foo", Compression::Plain, b"foo\n"),
            entry("data/inner/boom", Compression::Plain, b"boom\n"),
            entry("data/empty", Compression::Plain, b""),
        ]
    );
}

#[test]
fn directory_under_gzip() {
    let mut cg = start("FILES");
    cg.add_dir(&walk(), Compression::Gzip).unwrap();
    assert_eq!(cg.files().len(), 3);
    for recorded in cg.files() {
        assert_eq!(recorded.compression, Compression::Gzip);
    }
    assert_eq!(decode(Compression::Gzip, &cg.files()[1].payload).unwrap(), b"boom\n");
    assert_eq!(decode(Compression::Gzip, &cg.files()[2].payload).unwrap(), b"");
}

#[test]
fn directory_chained() {
    let mut a = start("FILES");
    a.dir(&walk(), Compression::Gzip).file("extra", Compression::Plain, b"x");
    let mut b = start("FILES");
    b.add_dir(&walk(), Compression::Gzip).unwrap();
    b.add_file("extra", Compression::Plain, b"x").unwrap();
    assert_eq!(a.files(), b.files());
    assert_eq!(a.files().len(), 4);
}

#[test]
fn directory_of_a_passthrough_table() {
    let mut cg = start("FILES");
    cg.passthrough().dir(&walk(), Compression::Gzip);
    assert_eq!(
        cg.files(),
        &vec![
            entry("data/foo", Compression::Passthrough, b""),
            entry("data/inner/boom", Compression::Passthrough, b""),
            entry("data/empty", Compression::Passthrough, b""),
        ]
    );
}

#[test]
fn empty_walk_records_nothing() {
    let mut cg = start("FILES");
    cg.add_dir(&Vec::new(), Compression::Gzip).unwrap();
    cg.add_dir(&vec![WalkEntry::Directory("d".to_string()), WalkEntry::Failed], Compression::Plain)
        .unwrap();
    assert!(cg.files().is_empty());
}

#[test]
fn kind_names() {
    assert_eq!(Compression::Plain.to_string(), "Plain");
    assert_eq!(Compression::Gzip.to_string(), "Gzip");
}

#[test]
fn entry_expressions() {
    assert_eq!(
        render_entry(Compression::Gzip, &[0, 7, 10, 99, 100, 101, 255]),
        "(Compression::Gzip, &[0,7,10,99,100,101,255,] as &'static [u8])"
    );
    assert_eq!(
        render_entry(Compression::Plain, &[200]),
        "(Compression::Plain, &[200,] as &'static [u8])"
    );
    assert_eq!(
        render_entry(Compression::Passthrough, &[]),
        "(Compression::Passthrough, &[] as &'static [u8])"
    );
}

#[test]
fn every_byte_is_rendered_in_decimal() {
    for b in 0..=255u8 {
        assert_eq!(
            render_entry(Compression::Plain, &[b]),
            format!("(Compression::Plain, &[{},] as &'static [u8])", b)
        );
    }
}

#[test]
fn declaration_of_a_table() {
    let mut cg = start("ASSETS");
    cg.add_file("a\\b", Compression::Plain, &[1, 2]).unwrap();
    cg.add_file("live", Compression::Passthrough, b"x").unwrap();
    cg.add_file("c", Compression::Plain, &[]).unwrap();

    let mut map = phf_codegen::Map::new();
    map.entry("a/b", "(Compression::Plain, &[1,2,] as &'static [u8])");
    map.entry("live", "(Compression::Passthrough, &[] as &'static [u8])");
    map.entry("c", "(Compression::Plain, &[] as &'static [u8])");
    let expected = format!(
        "use includedir::*;\npub static ASSETS: Files = Files {{\n\tfiles:  {},\n\tpassthrough: ::std::sync::atomic::AtomicBool::new(false),\n}};\n",
        map.build()
    );
    assert_eq!(cg.build(), expected);
    assert!(cg.build().contains("(\"a/b\", (Compression::Plain, &[1,2,] as &'static [u8])),"));
}

#[test]
fn declaration_of_an_empty_table() {
    let text = start("NOTHING").build();
    assert!(text.starts_with("use includedir::*;\npub static NOTHING: Files = Files {\n\tfiles:  "));
    assert!(text.contains("entries: &["));
    assert!(text.ends_with(",\n\tpassthrough: ::std::sync::atomic::AtomicBool::new(false),\n};\n"));
}

#[test]
fn declaration_is_repeatable() {
    let mut cg = start("FILES");
    cg.add_dir(&walk(), Compression::Gzip).unwrap();
    assert_eq!(cg.build(), cg.build());
}

#[test]
fn codec_round_trips() {
    let data: Vec<u8> = (0..2000u32).map(|i| (i % 251) as u8).collect();
    for kind in [Compression::Plain, Compression::Gzip] {
        let payload = encode(kind, &data).unwrap();
        assert_eq!(decode(kind, &payload).unwrap(), data);
    }
    assert_eq!(encode(Compression::Plain, &data).unwrap(), data);
    assert_ne!(encode(Compression::Gzip, &data).unwrap(), data);
    assert_eq!(encode(Compression::Passthrough, &data).unwrap(), Vec::<u8>::new());
}

#[test]
fn slice_expressions() {
    assert_eq!(render_slice(&[]), "&[] as &'static [u8]");
    assert_eq!(render_slice(&[9, 10, 109]), "&[9,10,109,] as &'static [u8]");
}

#[test]
fn flat_declaration_of_a_walk() {
    let mut items = walk();
    items.push(WalkEntry::File("data/foo".to_string(), b"bar".to_vec()));

    let mut map = phf_codegen::Map::new();
    map.entry("data/foo", "&[98,97,114,] as &'static [u8]");
    map.entry("data/inner/boom", "&[98,111,111,109,10,] as &'static [u8]");
    map.entry("data/empty", "&[] as &'static [u8]");
    let expected =
        format!("static FILES: phf::Map<&'static str, &'static [u8]> = {};\n", map.build());
    assert_eq!(build(&items), expected);
}

#[test]
fn flat_declaration_of_nothing() {
    let expected = format!(
        "static FILES: phf::Map<&'static str, &'static [u8]> = {};\n",
        phf_codegen::Map::<&str>::new().build()
    );
    assert_eq!(build(&Vec::new()), expected);
}
