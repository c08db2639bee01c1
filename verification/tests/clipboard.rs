use lan_cat::clipboard::files::{
    file_mime_candidates, payload_from_paths, unique_file_name, FoundFile, Gather, GatherError,
};
use lan_cat::clipboard::forms::{
    limited, offer_files, offer_payload, read_forms, FormError, Mime, PathSearch,
};
use lan_cat::clipboard::uri::{
    file_uri, gnome_list, parse_file_uri_list, path_from_file_uri, percent_decode, uri_list,
    UriError,
};
use lan_cat::clipboard::watch::{Counter, Watcher};
use lan_cat::clipboard::Change;
use lan_cat::path::{is_same, parts};
use lan_cat::protocol::{ClipboardPayload, ProtocolError, MAX_PAYLOAD_BYTES};

fn found(path: &str, data: &[u8]) -> FoundFile {
    FoundFile {
        path: path.as_bytes().to_vec(),
        regular: true,
        size: data.len() as u64,
        data: data.to_vec(),
    }
}

fn paths(list: &[&str]) -> Vec<Vec<u8>> {
    list.iter().map(|path| path.as_bytes().to_vec()).collect()
}

#[test]
fn clipboard_file_uri_rejects_remote_hosts_and_bad_escapes() {
    assert!(path_from_file_uri("file://server/share/file.txt").is_err());
    assert!(path_from_file_uri("file:///tmp/bad%XXname").is_err());
}

#[test]
fn files_file_uri_rejects_remote_hosts_and_bad_escapes() {
    assert_eq!(path_from_file_uri("file://server/share/file.txt"), Err(UriError::RemoteHost));
    assert_eq!(path_from_file_uri("file:///tmp/bad%XXname"), Err(UriError::BadEscape));
    assert_eq!(path_from_file_uri("http://x/y"), Err(UriError::NotFileUri));
    assert_eq!(path_from_file_uri("file:///tmp/a%00b"), Err(UriError::NulByte));
    assert_eq!(path_from_file_uri("file://localhost/tmp/a").unwrap(), b"/tmp/a".to_vec());
}

#[test]
fn file_uri_round_trips() {
    let path = "/tmp/dir/report #1.txt".as_bytes();
    let uri = file_uri(path);
    assert!(uri.contains("report%20%231.txt"));
    assert_eq!(path_from_file_uri(&uri).unwrap(), path);
    let odd = [b'/', 0xff, b'%', b'a'];
    assert_eq!(file_uri(&odd), "file:///%FF%25a");
    assert_eq!(path_from_file_uri(&file_uri(&odd)).unwrap(), odd.to_vec());
}

#[test]
fn percent_escapes_are_decoded() {
    assert_eq!(percent_decode(b"a%2Fb").unwrap(), b"a/b".to_vec());
    assert_eq!(percent_decode(b"%4"), Err(UriError::BadEscape));
    assert_eq!(percent_decode(b"%0F").unwrap(), vec![15]);
    assert_eq!(percent_decode(b"%+F"), Err(UriError::BadEscape));
}

#[test]
fn duplicate_clipboard_filenames_are_renamed() {
    let files = payload_from_paths(vec![
        found("/first/report.txt", b"one"),
        found("/second/report.txt", b"two"),
    ])
    .unwrap()
    .files;

    assert_eq!(files[0].name, "report.txt");
    assert_eq!(files[0].data, b"one");
    assert_eq!(files[1].name, "report (2).txt");
    assert_eq!(files[1].data, b"two");
}

#[test]
fn unique_names_count_on() {
    let mut used = Vec::new();
    assert_eq!(unique_file_name("a.tar.gz", &mut used), "a.tar.gz");
    assert_eq!(unique_file_name("a.tar.gz", &mut used), "a.tar (2).gz");
    assert_eq!(unique_file_name("a.tar.gz", &mut used), "a.tar (3).gz");
    assert_eq!(unique_file_name(".hidden", &mut used), ".hidden");
    assert_eq!(unique_file_name(".hidden", &mut used), ".hidden (2)");
    assert_eq!(unique_file_name("plain", &mut used), "plain");
    assert_eq!(unique_file_name("plain", &mut used), "plain (2)");
}

#[test]
fn copied_files_are_checked() {
    let mut folder = found("/dir", b"");
    folder.regular = false;
    assert_eq!(payload_from_paths(vec![folder]), Err(GatherError::NotRegular));
    assert_eq!(
        payload_from_paths(vec![FoundFile {
            path: vec![b'/', 0xff],
            regular: true,
            size: 0,
            data: Vec::new()
        }]),
        Err(GatherError::NameNotText)
    );
    let mut large = found("/big", b"");
    large.size = MAX_PAYLOAD_BYTES as u64;
    assert_eq!(payload_from_paths(vec![large]), Err(GatherError::TooLarge));
    let many = (0..65).map(|i| found(&format!("/f{i}"), b"x")).collect();
    assert_eq!(payload_from_paths(many), Err(GatherError::TooManyFiles));
    assert_eq!(
        payload_from_paths(Vec::new()),
        Err(GatherError::Payload(ProtocolError::EmptyPayload))
    );
}

#[test]
fn gathering_leaves_room_for_names() {
    let gather = Gather::new();
    assert_eq!(gather.limit(b"/ab"), Ok(MAX_PAYLOAD_BYTES - 2));
    let gather = gather.add(found("/ab", b"xyz")).unwrap();
    assert_eq!(gather.limit(b"/cd"), Ok(MAX_PAYLOAD_BYTES - 7));
    assert_eq!(gather.payload().unwrap().files.len(), 1);
    assert_eq!(
        Gather::new().payload(),
        Err(GatherError::Payload(ProtocolError::EmptyPayload))
    );
}

#[test]
fn file_mime_candidates_prefer_gnome_then_uri_list_case_insensitive() {
    let mimes = vec![
        "TEXT/URI-LIST;charset=utf-8".to_owned(),
        "x-special/gnome-copied-files".to_owned(),
    ];
    assert_eq!(
        file_mime_candidates(&mimes),
        vec!["x-special/gnome-copied-files", "TEXT/URI-LIST;charset=utf-8"]
    );
}

#[test]
fn parse_file_uri_list_ignores_gnome_operation_line() {
    let parsed = parse_file_uri_list("copy\nfile:///tmp/report%201.txt\n# comment\n").unwrap();
    assert_eq!(parsed.unwrap(), vec!["/tmp/report 1.txt".as_bytes().to_vec()]);
}

#[test]
fn lists_without_files_name_nothing() {
    assert_eq!(parse_file_uri_list("copy\n# comment\n\nhttp://a/b\n"), Ok(None));
    assert_eq!(parse_file_uri_list("file://host/a\n"), Err(UriError::RemoteHost));
}

#[test]
fn written_lists_are_read_back() {
    let both = paths(&["/tmp/a b", "/tmp/c"]);
    assert_eq!(uri_list(&both), "file:///tmp/a%20b\r\nfile:///tmp/c\r\n");
    assert_eq!(gnome_list(&both), "copy\nfile:///tmp/a%20b\nfile:///tmp/c\n");
    assert_eq!(parse_file_uri_list(&uri_list(&both)).unwrap(), Some(both.clone()));
    assert_eq!(parse_file_uri_list(&gnome_list(&both)).unwrap(), Some(both));
}

#[test]
fn forms_make_a_payload() {
    let payload = read_forms(
        Some(b"text".to_vec()),
        Some(b"<b>".to_vec()),
        Some(vec![0xff]),
        Some(vec![1, 2]),
    )
    .unwrap();
    assert_eq!(payload.text.as_deref(), Some("text"));
    assert_eq!(payload.html.as_deref(), Some("<b>"));
    assert_eq!(payload.rtf, None);
    assert_eq!(payload.png, Some(vec![1, 2]));
    assert_eq!(read_forms(None, None, None, None), None);
    assert_eq!(limited(vec![0; MAX_PAYLOAD_BYTES]).unwrap().len(), MAX_PAYLOAD_BYTES);
    assert_eq!(limited(vec![0; MAX_PAYLOAD_BYTES + 1]), None);
}

#[test]
fn offered_forms_are_read_back() {
    let payload = ClipboardPayload {
        text: Some("t".into()),
        html: None,
        rtf: Some("r".into()),
        png: Some(vec![7]),
        files: Vec::new(),
    };
    let offers = offer_payload(payload.clone());
    assert_eq!(offers.len(), 3);
    assert_eq!(offers[0].mime, Mime::Text);
    assert_eq!(offers[1].mime, Mime::Specific("text/rtf".into()));
    assert_eq!(offers[2].mime, Mime::Specific("image/png".into()));
    let read = read_forms(
        Some(offers[0].data.clone()),
        None,
        Some(offers[1].data.clone()),
        Some(offers[2].data.clone()),
    )
    .unwrap();
    assert!(read.same(&payload));
}

#[test]
fn files_are_offered_in_three_forms() {
    let offers = offer_files(&paths(&["/a"]));
    assert_eq!(offers[0].mime, Mime::Specific("text/uri-list".into()));
    assert_eq!(offers[0].data, b"file:///a\r\n".to_vec());
    assert_eq!(offers[1].mime, Mime::Specific("x-special/gnome-copied-files".into()));
    assert_eq!(offers[1].data, b"copy\nfile:///a\n".to_vec());
    assert_eq!(offers[2].mime, Mime::Specific("application/x-kde-cutselection".into()));
    assert_eq!(offers[2].data, b"0".to_vec());
}

#[test]
fn path_search_ends_with_the_first_list() {
    let mut search = PathSearch::new();
    assert_eq!(search.look(None), Ok(None));
    assert_eq!(search.look(Some(b"copy\n".to_vec())), Ok(None));
    assert_eq!(search.finish(), Err(FormError::Unreadable));
    assert_eq!(search.look(Some(b"file:///a\n".to_vec())), Ok(Some(paths(&["/a"]))));
    assert_eq!(search.look(Some(vec![0xff])), Err(FormError::NotText));
    assert_eq!(
        search.look(Some(b"file://h/a".to_vec())),
        Err(FormError::Uri(UriError::RemoteHost))
    );
    assert_eq!(PathSearch::new().finish(), Ok(()));
}

#[test]
fn copies_are_reported_once() {
    let mut watcher = Watcher::new(None, Some(ClipboardPayload::text("old".into())));
    let seen = |text: &str| Change::Payload(ClipboardPayload::text(text.into()));
    assert_eq!(watcher.observe(false, seen("old")), None);
    assert_eq!(watcher.observe(false, seen("new")), Some(seen("new")));
    assert_eq!(watcher.observe(false, seen("new")), None);
}

#[test]
fn injected_payloads_are_not_reported() {
    let mut watcher = Watcher::new(None, None);
    let payload = ClipboardPayload::text("remote".into());
    watcher.written(payload.digest(), None);
    assert_eq!(watcher.observe(true, Change::Payload(payload.clone())), None);
    assert_eq!(watcher.observe(true, Change::Payload(payload)), None);
}

#[test]
fn injected_files_are_not_reported() {
    let mut watcher = Watcher::new(None, None);
    let payload = payload_from_paths(vec![found("/a", b"x")]).unwrap();
    watcher.written(payload.digest(), Some(paths(&["/tmp/a"])));
    assert_eq!(watcher.observe(true, Change::Files(paths(&["/tmp/a"]))), None);
}

#[test]
fn the_same_files_are_known_however_their_paths_are_written() {
    let mut watcher = Watcher::new(Some(paths(&["//a", "/b/./c/"])), None);
    assert_eq!(watcher.observe(false, Change::Files(paths(&["/a", "/b//c"]))), None);
    let other = || Change::Files(paths(&["/a", "/b/../c"]));
    assert_eq!(watcher.observe(false, other()), Some(other()));
    watcher.written([0; 32], Some(paths(&["/tmp//a"])));
    assert_eq!(watcher.observe(true, Change::Files(paths(&["/tmp/a/"]))), None);
    watcher.mark_files_handled(paths(&["/d/."]));
    assert_eq!(watcher.observe(false, Change::Files(paths(&["/d"]))), None);
}

#[test]
fn paths_are_the_same_if_their_parts_are() {
    for (a, b) in [
        ("/a", "//a"),
        ("/a", "/a/"),
        ("/a", "/./a"),
        ("a/b", "a/./b"),
        ("a/b", "a//b/."),
        ("./a", "./a"),
        ("/", "//"),
        ("", ""),
        (".", "./"),
        ("/..", "/../."),
    ] {
        assert!(is_same(a.as_bytes(), b.as_bytes()), "{a} {b}");
        assert_eq!(std::path::Path::new(a), std::path::Path::new(b));
    }
    for (a, b) in [
        ("/a", "a"),
        ("./a", "a"),
        (".", ""),
        ("/", ""),
        ("/a", "/b"),
        ("/a", "/a/b"),
        ("/a/../b", "/b"),
        ("/.a", "/a"),
        ("..", "."),
    ] {
        assert!(!is_same(a.as_bytes(), b.as_bytes()), "{a} {b}");
        assert_ne!(std::path::Path::new(a), std::path::Path::new(b));
    }
    assert_eq!(parts(b"//a/./b//..c/"), paths(&["a", "b", "..c"]));
}

#[test]
fn copied_files_are_reported_again_when_selected_again() {
    let mut watcher = Watcher::new(None, None);
    let change = || Change::Files(paths(&["/a"]));
    assert_eq!(watcher.observe(true, change()), Some(change()));
    assert_eq!(watcher.observe(false, change()), None);
    assert_eq!(watcher.observe(true, change()), Some(change()));
    watcher.mark_files_handled(paths(&["/a"]));
    assert_eq!(watcher.observe(false, change()), None);
}

#[test]
fn a_new_baseline_is_not_reported() {
    let mut watcher = Watcher::new(None, None);
    watcher.rebaseline(None, Some(ClipboardPayload::text("now".into())));
    assert_eq!(
        watcher.observe(false, Change::Payload(ClipboardPayload::text("now".into()))),
        None
    );
}

#[test]
fn change_counts_are_reported_unless_own() {
    let mut counter = Counter::new(5);
    assert!(!counter.observe(5));
    assert!(counter.observe(6));
    counter.written(7);
    assert!(!counter.observe(7));
    assert!(counter.observe(8));
    counter.rebaseline(9);
    assert!(!counter.observe(9));
}
