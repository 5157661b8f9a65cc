use hash::digest::{HashAlgorithm, HashImpl};
use hash::inputs::HashInput;
use hash::output::OutputStyle;
use hash::run::{compute, content_bytes, gather, run, Acquired, RunError};
use hash::hex::HexError;

const SHA256_EMPTY: &str = "e3b0c44298fc1c149afbf4c8996fb92427ae41e4649b934ca495991b7852b855";
const MD5_HELLO_WORLD: &str = "5eb63bbbe01eeed093cb22bb8f5acdc3";

fn line() -> String {
    "=".repeat(80)
}

#[test]
fn new_style_is_empty() {
    let style = OutputStyle::new();
    assert_eq!(style.entry, "");
    assert_eq!(style.len, 0);
    assert!(!style.truncated);
    assert_eq!(style.entry_type, "");
    assert_eq!(style.algo, HashAlgorithm::SHA256);
    assert_eq!(style.hash, "");
    let other = OutputStyle::default();
    assert_eq!(other.entry, "");
    assert_eq!(other.algo, HashAlgorithm::SHA256);
}

#[test]
fn short_entry_is_kept_whole() {
    let mut style = OutputStyle::new();
    style.add_text("hello");
    assert_eq!(style.entry, "hello");
    assert_eq!(style.len, 5);
    assert!(!style.truncated);
    assert_eq!(style.entry_type, "TEXT");
    style.add_file("/tmp/f");
    assert_eq!(style.entry, "/tmp/f");
    assert_eq!(style.len, 6);
    assert_eq!(style.entry_type, "FILE");
}

#[test]
fn entry_of_forty_characters_has_no_ellipsis() {
    let text = "a".repeat(40);
    let mut style = OutputStyle::new();
    style.add_text(&text);
    style.add_hash("00");
    assert_eq!(style.entry, text);
    assert_eq!(style.len, 40);
    assert!(!style.truncated);
    let expected = format!(
        "{}\n[COMPUTE TEXT] [{}]\n[SHA256 HASH] [00]\n{}\n",
        line(),
        text,
        line()
    );
    assert_eq!(style.summary("COMPUTE"), expected);
}

#[test]
fn longer_entry_is_cut_to_forty_characters_and_marked() {
    let text = format!("{}{}", "b".repeat(40), "c");
    let mut style = OutputStyle::new();
    style.add_file(&text);
    style.add_hash("00");
    assert_eq!(style.entry, "b".repeat(40));
    assert_eq!(style.len, 40);
    assert!(style.truncated);
    let expected = format!(
        "{}\n[COMPUTE FILE] [{}]...\n[SHA256 HASH] [00]\n{}\n",
        line(),
        "b".repeat(40),
        line()
    );
    assert_eq!(style.summary("COMPUTE"), expected);
}

#[test]
fn preview_counts_characters_not_bytes() {
    let text = "\u{e9}".repeat(41);
    let mut style = OutputStyle::new();
    style.add_text(&text);
    assert_eq!(style.entry, "\u{e9}".repeat(40));
    assert_eq!(style.len, 40);
    assert!(style.truncated);
    let text = "\u{e9}".repeat(39);
    style.add_text(&text);
    assert_eq!(style.entry, text);
    assert_eq!(style.len, 39);
    assert!(!style.truncated);
}

#[test]
fn summary_of_each_algorithm() {
    let mut style = OutputStyle::new();
    style.add_text("abc");
    style.add_hash("1234");
    style.set_algorithm(HashAlgorithm::MD5);
    assert_eq!(
        style.summary("UPDATE"),
        format!("{}\n[UPDATE TEXT] [abc]\n[MD5 HASH] [1234]\n{}\n", line(), line())
    );
    style.set_algorithm(HashAlgorithm::BLAKE3);
    assert_eq!(
        style.summary("COMPUTE"),
        format!("{}\n[COMPUTE TEXT] [abc]\n[BLAKE3 HASH] [1234]\n{}\n", line(), line())
    );
    assert_eq!(style.entry, "abc");
    assert_eq!(style.hash, "1234");
}

#[test]
fn content_as_raw_bytes() {
    assert_eq!(content_bytes("abc", false), Ok(b"abc".to_vec()));
    assert_eq!(content_bytes("0x01", false), Ok(b"0x01".to_vec()));
    assert_eq!(content_bytes("\u{e9}", false), Ok(vec![0xc3, 0xa9]));
    assert_eq!(content_bytes("", false), Ok(vec![]));
}

#[test]
fn content_as_byte_literals() {
    assert_eq!(content_bytes("0x61 0x62,0x63", true), Ok(b"abc".to_vec()));
    assert_eq!(content_bytes("", true), Ok(vec![]));
    assert_eq!(
        content_bytes("0x61 abc", true),
        Err(HexError::InvalidLength { hex: "abc" })
    );
}

#[test]
fn quiet_one_by_one() {
    let inputs = [HashInput::Text(""), HashInput::File("f"), HashInput::Text("hello world")];
    let contents = [vec![], b"hello world".to_vec(), b"hello world".to_vec()];
    let out = compute(&inputs, &contents, HashAlgorithm::SHA256, false, true);
    assert_eq!(
        out,
        vec![
            SHA256_EMPTY.to_string(),
            HashImpl::hex_digest_input(b"hello world", HashAlgorithm::SHA256),
            HashImpl::hex_digest_input(b"hello world", HashAlgorithm::SHA256),
        ]
    );
    let out = compute(&inputs, &contents, HashAlgorithm::MD5, false, true);
    assert_eq!(out[1], MD5_HELLO_WORLD);
    for s in &out {
        assert_eq!(s.len(), 32);
        assert!(s.chars().all(|c| c.is_ascii_digit() || ('a'..='f').contains(&c)));
    }
}

#[test]
fn quiet_incremental_shows_one_digest() {
    let inputs = [HashInput::Text("hello "), HashInput::File("f")];
    let contents = [b"hello ".to_vec(), b"world".to_vec()];
    let out = compute(&inputs, &contents, HashAlgorithm::MD5, true, true);
    assert_eq!(out, vec![MD5_HELLO_WORLD.to_string()]);
}

#[test]
fn framed_one_by_one() {
    let inputs = [HashInput::Text(""), HashInput::File("some/path")];
    let contents = [vec![], b"hello world".to_vec()];
    let out = compute(&inputs, &contents, HashAlgorithm::SHA256, false, false);
    assert_eq!(out.len(), 2);
    assert_eq!(
        out[0],
        format!(
            "{}\n[COMPUTE TEXT] []\n[SHA256 HASH] [{}]\n{}\n",
            line(),
            SHA256_EMPTY,
            line()
        )
    );
    assert_eq!(
        out[1],
        format!(
            "{}\n[COMPUTE FILE] [some/path]\n[SHA256 HASH] [{}]\n{}\n",
            line(),
            HashImpl::hex_digest_input(b"hello world", HashAlgorithm::SHA256),
            line()
        )
    );
}

#[test]
fn framed_incremental_names_the_last_input() {
    let long = "p".repeat(50);
    let inputs = [HashInput::Text("hello "), HashInput::File(&long)];
    let contents = [b"hello ".to_vec(), b"world".to_vec()];
    let out = compute(&inputs, &contents, HashAlgorithm::MD5, true, false);
    assert_eq!(
        out,
        vec![format!(
            "{}\n[UPDATE FILE] [{}]...\n[MD5 HASH] [{}]\n{}\n",
            line(),
            "p".repeat(40),
            MD5_HELLO_WORLD,
            line()
        )]
    );
}

#[test]
fn no_inputs_show_nothing() {
    for incremental in [false, true] {
        for quiet in [false, true] {
            let out = compute(&[], &[], HashAlgorithm::BLAKE3, incremental, quiet);
            assert!(out.is_empty());
        }
    }
}

#[test]
fn gather_takes_each_content_in_its_mode() {
    let inputs = [HashInput::Text("t"), HashInput::File("f"), HashInput::File("g")];
    let acquired = [
        Acquired::Text("0x61 0x62".to_string()),
        Acquired::Text("0x63".to_string()),
        Acquired::Bytes(vec![0, 255]),
    ];
    assert_eq!(
        gather(&inputs, &acquired, true),
        Ok(vec![b"ab".to_vec(), b"c".to_vec(), vec![0, 255]])
    );
    assert_eq!(
        gather(&inputs, &acquired, false),
        Ok(vec![b"0x61 0x62".to_vec(), b"0x63".to_vec(), vec![0, 255]])
    );
    assert_eq!(gather(&[], &[], true), Ok(vec![]));
}

#[test]
fn gather_fails_on_the_first_input_that_fails() {
    let inputs = [HashInput::Text("t"), HashInput::File("f"), HashInput::File("g")];
    let acquired = [
        Acquired::Text("0x61".to_string()),
        Acquired::Unreadable("No such file".to_string()),
        Acquired::Text("0xzz".to_string()),
    ];
    assert_eq!(
        gather(&inputs, &acquired, true),
        Err(RunError::UnreadableSource { path: "f", reason: "No such file" })
    );
    let acquired = [
        Acquired::Text("0x61 zz".to_string()),
        Acquired::Unreadable("No such file".to_string()),
        Acquired::Text("0xzz".to_string()),
    ];
    assert_eq!(
        gather(&inputs, &acquired, true),
        Err(RunError::InvalidHex(HexError::InvalidLength { hex: "zz" }))
    );
    assert_eq!(
        gather(&inputs, &acquired, false),
        Err(RunError::UnreadableSource { path: "f", reason: "No such file" })
    );
}

#[test]
fn run_error_messages() {
    assert_eq!(
        RunError::UnreadableSource { path: "a/b", reason: "No such file" }.message(),
        "Cannot read file a/b: No such file"
    );
    assert_eq!(
        RunError::InvalidHex(HexError::InvalidHexPrefix { hex: "1x12" }).message(),
        "Invalid hex prefix '1x12', should start with 0x or 0X"
    );
}

#[test]
fn run_in_hex_mode() {
    let inputs = [HashInput::Text("0x68,0x65 0x6c 0x6c 0x6f 0x20"), HashInput::File("f")];
    let acquired = [
        Acquired::Text("0x68,0x65 0x6c 0x6c 0x6f 0x20".to_string()),
        Acquired::Text("0x77 0x6f 0x72 0x6c 0x64\n".to_string()),
    ];
    assert_eq!(
        run(&inputs, &acquired, HashAlgorithm::MD5, true, true, true),
        Ok(vec![MD5_HELLO_WORLD.to_string()])
    );
    assert_eq!(
        run(&inputs, &acquired, HashAlgorithm::MD5, true, false, true),
        Ok(vec![
            HashImpl::hex_digest_input(b"hello ", HashAlgorithm::MD5),
            HashImpl::hex_digest_input(b"world", HashAlgorithm::MD5),
        ])
    );
}

#[test]
fn run_in_raw_mode() {
    let inputs = [HashInput::Text("hello world"), HashInput::File("f")];
    let acquired = [
        Acquired::Text("hello world".to_string()),
        Acquired::Bytes(vec![]),
    ];
    assert_eq!(
        run(&inputs, &acquired, HashAlgorithm::SHA256, false, false, true),
        Ok(vec![
            HashImpl::hex_digest_input(b"hello world", HashAlgorithm::SHA256),
            SHA256_EMPTY.to_string(),
        ])
    );
    let framed = run(&inputs, &acquired, HashAlgorithm::MD5, false, false, false).unwrap();
    assert_eq!(
        framed[0],
        format!(
            "{}\n[COMPUTE TEXT] [hello world]\n[MD5 HASH] [{}]\n{}\n",
            line(),
            MD5_HELLO_WORLD,
            line()
        )
    );
}

#[test]
fn failed_run_shows_nothing() {
    let inputs = [HashInput::Text("0x61"), HashInput::Text("0x6")];
    let acquired = [
        Acquired::Text("0x61".to_string()),
        Acquired::Text("0x6".to_string()),
    ];
    for incremental in [false, true] {
        for quiet in [false, true] {
            assert_eq!(
                run(&inputs, &acquired, HashAlgorithm::SHA256, true, incremental, quiet),
                Err(RunError::InvalidHex(HexError::InvalidLength { hex: "0x6" }))
            );
        }
    }
    let inputs = [HashInput::Text("a"), HashInput::File("missing")];
    let acquired = [
        Acquired::Text("a".to_string()),
        Acquired::Unreadable("denied".to_string()),
    ];
    assert_eq!(
        run(&inputs, &acquired, HashAlgorithm::SHA256, false, false, true),
        Err(RunError::UnreadableSource { path: "missing", reason: "denied" })
    );
}
