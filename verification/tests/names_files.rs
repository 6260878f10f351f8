use sharectrl::names::{sanitize_file_name, UniqueName};
use sharectrl::receiver::{delivered_toast, paste_at, FileAct, FileReceiver};
use sharectrl::sender::{cannot_open, reject, Dropped, Outgoing};
use sharectrl::transfer::{announcement, BulkFrame, FileMeta, Incoming, Opening, TransferError, MAX_FILE_BYTES};

fn meta(name: &str, size: u64) -> FileMeta<i32> {
    FileMeta {
        name: name.into(),
        size,
        drop_at: None,
    }
}

/// Opens a file in a folder that holds these names.
fn open(mut o: Opening, existing: &[&str]) -> (String, Incoming) {
    while existing.contains(&o.candidate().as_str()) {
        o.taken().unwrap();
    }
    (o.candidate(), o.opened())
}

#[test]
fn sanitize_strips_path_traversal() {
    assert_eq!(
        sanitize_file_name(r"..\..\Windows\evil.dll").as_deref(),
        Some("evil.dll")
    );
    assert_eq!(sanitize_file_name("/etc/passwd").as_deref(), Some("passwd"));
    assert_eq!(
        sanitize_file_name(r"C:\autoexec.bat").as_deref(),
        Some("autoexec.bat")
    );
    assert_eq!(
        sanitize_file_name("plain.txt").as_deref(),
        Some("plain.txt")
    );
}

#[test]
fn sanitize_rejects_empty_and_dots() {
    assert_eq!(sanitize_file_name(""), None);
    assert_eq!(sanitize_file_name(".."), None);
    assert_eq!(sanitize_file_name("   "), None);
    assert_eq!(sanitize_file_name(r"a\b\.."), None);
}

#[test]
fn sanitize_defuses_reserved_device_names() {
    assert_eq!(sanitize_file_name("CON").as_deref(), Some("_CON"));
    assert_eq!(sanitize_file_name("nul.txt").as_deref(), Some("_nul.txt"));
}

#[test]
fn sanitize_drops_control_and_illegal_chars() {
    assert_eq!(
        sanitize_file_name("a\u{0}b<>|?*.txt").as_deref(),
        Some("ab.txt")
    );
}

#[test]
fn sanitize_edge_cases() {
    assert_eq!(sanitize_file_name("com9.tar.gz").as_deref(), Some("_com9.tar.gz"));
    assert_eq!(sanitize_file_name("COM0").as_deref(), Some("COM0"));
    assert_eq!(sanitize_file_name("LpT1").as_deref(), Some("_LpT1"));
    assert_eq!(sanitize_file_name("console").as_deref(), Some("console"));
    assert_eq!(sanitize_file_name(" .hidden. ").as_deref(), Some("hidden"));
    assert_eq!(sanitize_file_name("a\u{85}b\u{3000}").as_deref(), Some("ab"));
    let long = "x".repeat(300);
    assert_eq!(sanitize_file_name(&long).unwrap().chars().count(), 180);
    let mixed = "д".repeat(200);
    assert_eq!(sanitize_file_name(&mixed).unwrap(), "д".repeat(180));
}

#[test]
fn candidates_number_in_front_of_the_extension() {
    let mut u = UniqueName::new("a.tar.gz".to_string());
    assert_eq!(u.candidate(), "a.tar.gz");
    assert!(u.taken());
    assert_eq!(u.candidate(), "a.tar (2).gz");
    let mut dot = UniqueName::new(".profile".to_string());
    assert!(dot.taken());
    assert!(dot.taken());
    assert_eq!(dot.candidate(), ".profile (3)");
    let mut plain = UniqueName::new("notes".to_string());
    for _ in 0..9_998 {
        assert!(plain.taken());
    }
    assert_eq!(plain.candidate(), "notes (9999)");
    assert!(plain.taken());
    assert_eq!(plain.candidate(), "notes (dup)");
    assert!(!plain.taken());
}

#[test]
fn writes_a_file_and_reports_path() {
    let (name, mut inc) = open(Incoming::begin(&meta("hello.txt", 5)).unwrap(), &[]);
    assert_eq!(name, "hello.txt");
    inc.write(b"hello").unwrap();
    assert_eq!(inc.progress(), (5, 5));
    assert_eq!(inc.finish().unwrap(), "hello.txt");
}

#[test]
fn traversal_name_stays_inside_the_directory() {
    let (name, mut inc) = open(Incoming::begin(&meta(r"..\..\..\evil.txt", 2)).unwrap(), &[]);
    inc.write(b"xx").unwrap();
    assert_eq!(name, "evil.txt");
    assert_eq!(inc.finish().unwrap(), "evil.txt");
}

#[test]
fn never_overwrites_an_existing_file() {
    let (name, mut inc) = open(Incoming::begin(&meta("a.txt", 3)).unwrap(), &["a.txt"]);
    inc.write(b"new").unwrap();
    assert_eq!(name, "a (2).txt");
    assert_eq!(inc.finish().unwrap(), "a (2).txt");
}

#[test]
fn rejects_more_bytes_than_declared() {
    let (_, mut inc) = open(Incoming::begin(&meta("small.bin", 4)).unwrap(), &[]);
    let e = inc.write(b"12345").unwrap_err();
    assert_eq!(e.message(), "sender exceeded the size it declared");
    assert_eq!(inc.progress(), (0, 4));
}

#[test]
fn rejects_absurd_declared_size() {
    let e = Incoming::begin(&meta("huge.bin", MAX_FILE_BYTES + 1)).unwrap_err();
    assert_eq!(e.message(), "file is too large (2048 MB, limit 2048 MB)");
    assert!(Incoming::begin(&meta("huge.bin", MAX_FILE_BYTES)).is_ok());
}

#[test]
fn rejects_unusable_name() {
    match Incoming::begin(&meta("..", 1)) {
        Err(TransferError::UnusableName) => {}
        other => panic!("{other:?}"),
    }
}

#[test]
fn truncated_transfer_is_discarded() {
    let (_, mut inc) = open(Incoming::begin(&meta("part.bin", 10)).unwrap(), &[]);
    inc.write(b"123").unwrap();
    assert_eq!(inc.finish().unwrap_err().message(), "incomplete transfer of part.bin");

    // The receiver has the partial file removed.
    let mut r: FileReceiver<i32> = FileReceiver::new();
    r.on_frame(true, Some(BulkFrame::Begin(meta("part.bin", 10))));
    r.opened();
    r.on_frame(true, Some(BulkFrame::Chunk(b"123".to_vec())));
    let acts = r.on_frame(true, Some(BulkFrame::End));
    assert!(matches!(acts[0], FileAct::Discard));
    match &acts[1] {
        FileAct::Toast(t) => assert_eq!(t, "Transfer failed: incomplete transfer of part.bin"),
        other => panic!("{other:?}"),
    }
}

#[test]
fn no_free_name_is_an_error() {
    let mut o = Incoming::begin(&meta("f", 1)).unwrap();
    for _ in 0..9_999 {
        o.taken().unwrap();
    }
    assert_eq!(o.taken().unwrap_err().message(), "no free file name");
}

#[test]
fn frames_roundtrip() {
    // An announcement is read and written by the caller; 7 stands for it here.
    let json = [7u8];
    let m = FileMeta {
        name: "notes.txt".to_string(),
        size: 42,
        drop_at: Some((5, 25)),
    };
    let begin = BulkFrame::Begin(m.clone());
    let wire = begin.encode(&json);
    assert_eq!(announcement(&wire), Some(vec![7]));
    assert_eq!(BulkFrame::decode(&wire, Some(m)), Some(begin));
    for f in [
        BulkFrame::<i32>::Chunk(vec![1, 2, 3]),
        BulkFrame::End,
        BulkFrame::Abort("nope".into()),
    ] {
        assert_eq!(BulkFrame::decode(&f.encode(&[]), None), Some(f));
    }
}

#[test]
fn decode_rejects_garbage() {
    assert_eq!(BulkFrame::<i32>::decode(&[], None), None);
    assert_eq!(BulkFrame::<i32>::decode(&[9, 1, 2], None), None);
    assert_eq!(announcement(&[0, b'{']), Some(vec![b'{']));
    assert_eq!(BulkFrame::<i32>::decode(&[0, b'{'], None), None);
}

#[test]
fn abort_reason_is_repaired() {
    assert_eq!(
        BulkFrame::<i32>::decode(&[3, b'o', 0xff, b'k'], None),
        Some(BulkFrame::Abort("o\u{fffd}k".to_string()))
    );
    assert_eq!(BulkFrame::<i32>::Chunk(vec![9]).encode(&[]), vec![1, 9]);
    assert_eq!(BulkFrame::<i32>::End.encode(&[]), vec![2]);
}

#[test]
fn a_sent_file_arrives() {
    let mut r: FileReceiver<i32> = FileReceiver::new();
    let (mut out, step) = Outgoing::begin("a b.txt".to_string(), 5, (3, 4));
    assert_eq!(step.toast.as_deref(), Some("Sending a b.txt…"));
    let acts = r.on_frame(true, step.frame);
    assert!(matches!(&acts[0], FileAct::TryName(n) if n == "a b.txt"));
    let acts = r.name_taken();
    assert!(matches!(&acts[0], FileAct::TryName(n) if n == "a b (2).txt"));
    let acts = r.opened();
    assert!(matches!(&acts[0], FileAct::Toast(t) if t == "Receiving a b.txt…"));
    let acts = r.on_frame(true, Some(out.on_bytes(b"hel".to_vec())));
    assert!(matches!(&acts[0], FileAct::Write(b) if b == b"hel"));
    r.on_frame(true, Some(out.on_bytes(b"lo".to_vec())));
    let end = out.on_end::<i32>();
    assert!(end.toast.is_none());
    let acts = r.on_frame(true, end.frame);
    match &acts[0] {
        FileAct::Deliver { name, drop_at } => {
            assert_eq!(name, "a b (2).txt");
            assert_eq!(*drop_at, Some((3, 4)));
        }
        other => panic!("{other:?}"),
    }
}

#[test]
fn a_changed_file_is_aborted() {
    let (mut out, _) = Outgoing::begin("f".to_string(), 5, (0, 0));
    let _: BulkFrame<i32> = out.on_bytes(vec![1, 2]);
    let end = out.on_end::<i32>();
    assert_eq!(end.frame, Some(BulkFrame::Abort("file changed while sending".to_string())));
    assert_eq!(end.toast.as_deref(), Some("f changed while sending"));
    let err = out.on_error::<i32>("bad disk");
    assert_eq!(err.frame, Some(BulkFrame::Abort("read error: bad disk".to_string())));
    assert_eq!(err.toast.as_deref(), Some("Failed sending f"));
}

#[test]
fn unsendable_paths_are_explained() {
    assert_eq!(reject("x", Dropped::Unreadable).as_deref(), Some("Cannot read x"));
    assert_eq!(
        reject("x", Dropped::Folder).as_deref(),
        Some("x is a folder — send files instead")
    );
    assert_eq!(
        reject("x", Dropped::File { size: MAX_FILE_BYTES + 1 }).as_deref(),
        Some("x is too large")
    );
    assert_eq!(reject("x", Dropped::File { size: MAX_FILE_BYTES }), None);
    assert_eq!(cannot_open("x"), "Cannot open x");
}

#[test]
fn view_only_peer_cannot_send_files() {
    let mut r: FileReceiver<i32> = FileReceiver::new();
    assert!(r.on_frame(false, Some(BulkFrame::Begin(meta("x", 1)))).is_empty());
    // Losing control in the middle ends the transfer; what has arrived stays.
    r.on_frame(true, Some(BulkFrame::Begin(meta("x", 3))));
    r.opened();
    let acts = r.on_frame(false, Some(BulkFrame::Chunk(vec![1])));
    assert!(matches!(acts[0], FileAct::Close));
    assert_eq!(acts.len(), 1);
    assert!(r.on_frame(true, Some(BulkFrame::Chunk(vec![1]))).is_empty());
}

#[test]
fn tried_names_stay_in_the_folder() {
    let mut r: FileReceiver<i32> = FileReceiver::new();
    let acts = r.on_frame(true, Some(BulkFrame::Begin(meta("..\\../con.txt", 1))));
    assert!(matches!(&acts[0], FileAct::TryName(n) if n == "_con.txt"));
    let acts = r.name_taken();
    assert!(matches!(&acts[0], FileAct::TryName(n) if n == "_con (2).txt"));
    let acts = r.on_frame(true, Some(BulkFrame::Begin(meta("C:nu", 0))));
    assert!(matches!(&acts[0], FileAct::TryName(n) if n == "nu"));
    let acts = r.name_taken();
    assert!(matches!(&acts[0], FileAct::TryName(n) if n == "nu (2)"));
    r.opened();
    let acts = r.on_frame(true, Some(BulkFrame::End));
    assert!(matches!(&acts[0], FileAct::Deliver { name, .. } if name == "nu (2)"));
}

#[test]
fn receiver_reports_failures() {
    let mut r: FileReceiver<i32> = FileReceiver::new();
    let acts = r.on_frame(true, Some(BulkFrame::Begin(meta("..", 1))));
    assert!(matches!(&acts[0], FileAct::Toast(t) if t == "Refused file: unusable file name"));
    r.on_frame(true, Some(BulkFrame::Begin(meta("x", 1))));
    let acts = r.open_failed("disk full");
    assert!(matches!(&acts[0], FileAct::Toast(t) if t == "Refused file: disk full"));
    r.on_frame(true, Some(BulkFrame::Begin(meta("x", 1))));
    r.opened();
    let acts = r.on_frame(true, Some(BulkFrame::Chunk(vec![1, 2])));
    assert!(matches!(&acts[0], FileAct::Toast(t) if t == "Transfer failed: sender exceeded the size it declared"));
    assert!(matches!(acts[1], FileAct::Discard));
    r.on_frame(true, Some(BulkFrame::Begin(meta("x", 1))));
    r.opened();
    let acts = r.write_failed("write failed: gone");
    assert!(matches!(&acts[0], FileAct::Toast(t) if t == "Transfer failed: write failed: gone"));
    r.on_frame(true, Some(BulkFrame::Begin(meta("x", 1))));
    r.opened();
    let acts = r.on_frame(true, Some(BulkFrame::Abort("no".to_string())));
    assert!(matches!(acts[0], FileAct::Discard));
    assert!(matches!(&acts[1], FileAct::Toast(t) if t == "Transfer cancelled by sender"));
    assert!(r.on_frame(true, None).is_empty());
}

#[test]
fn delivery_is_explained() {
    assert_eq!(delivered_toast("f.txt", true), "Pasted f.txt");
    assert_eq!(
        delivered_toast("f.txt", false),
        "f.txt is on the clipboard (also saved to Downloads\\ShareCtrlScreen)"
    );
    assert_eq!(paste_at(true, true, Some((1, 2)), true), Some((1, 2)));
    assert_eq!(paste_at(true, false, Some((1, 2)), true), None);
    assert_eq!(paste_at(false, true, Some((1, 2)), true), None);
    assert_eq!(paste_at(true, true, Some((1, 2)), false), None);
}
