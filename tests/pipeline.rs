use narfetch::engine::{
    destination_root, entry_path, plan_entry, settle_create_dir, Action, Entry, EntryKind,
};
use narfetch::error::{FsKind, PipelineError};
use narfetch::hash::{extract_hash, find_hash_start};
use narfetch::pipeline::{check_archive_status, identifier_of, resolved_location};
use narfetch::resolver::{
    archive_path, default_endpoints, first_query, metadata_url, on_response, Resolution,
};
use narfetch::text::{chars_of, concat_str, slice_chars};

const H: &str = "0123456789abcdefghijABCDEFGHIJkl";
const H2: &str = "zyxwvutsrqponmlkjihgfedcba987654";

fn endpoints() -> Vec<String> {
    vec![
        "https://a.example/".to_string(),
        "https://b.example/".to_string(),
        "https://c.example/".to_string(),
    ]
}

fn body_with_path(path: &str) -> String {
    format!("StorePath: /nix/store/{}-foo\nURL: {}\nCompression: xz\n", H, path)
}

#[test]
fn bare_hash_is_its_own_identifier() {
    assert_eq!(extract_hash(H), Some(H.to_string()));
}

#[test]
fn store_path_yields_its_hash() {
    let input = format!("/nix/store/{}-hello-2.12", H);
    assert_eq!(extract_hash(&input), Some(H.to_string()));
}

#[test]
fn hash_with_dash_suffix_only() {
    let input = format!("{}-x", H);
    assert_eq!(extract_hash(&input), Some(H.to_string()));
}

#[test]
fn longer_run_gives_its_last_window() {
    let input = format!("/nix/store/X{}", H);
    assert_eq!(extract_hash(&input), Some(H.to_string()));
    assert_eq!(find_hash_start(&chars_of(&input)), Some(12));
}

#[test]
fn greedy_prefix_takes_last_run_on_the_line() {
    let input = format!("{}/{}", H, H2);
    assert_eq!(extract_hash(&input), Some(H2.to_string()));
}

#[test]
fn first_line_with_a_run_wins() {
    let input = format!("{}\n{}", H, H2);
    assert_eq!(extract_hash(&input), Some(H.to_string()));
    let input2 = format!("nothing here\n/nix/store/{}-a", H2);
    assert_eq!(extract_hash(&input2), Some(H2.to_string()));
}

#[test]
fn no_identifier_in_plain_text() {
    assert_eq!(extract_hash("not-a-hash"), None);
    assert_eq!(extract_hash(""), None);
    assert_eq!(extract_hash("0123456789abcdefghijABCDEFGHIJk"), None);
    assert!(matches!(identifier_of("not-a-hash"), Err(PipelineError::NoIdentifierFound)));
}

#[test]
fn identifier_of_a_path() {
    let input = format!("/nix/store/{}-foo", H);
    assert_eq!(identifier_of(&input).ok(), Some(H.to_string()));
}

#[test]
fn archive_path_from_second_line() {
    let body = body_with_path("nar/abc.nar.xz");
    assert_eq!(archive_path(&body), Some("nar/abc.nar.xz".to_string()));
}

#[test]
fn archive_path_keeps_text_after_first_separator() {
    assert_eq!(archive_path("a: b\nk: v: w"), Some("v: w".to_string()));
    assert_eq!(archive_path("a: b\nk: "), Some("".to_string()));
}

#[test]
fn archive_path_missing() {
    assert_eq!(archive_path("StorePath: x"), None);
    assert_eq!(archive_path("StorePath: x\nno separator here"), None);
    assert_eq!(archive_path(""), None);
}

#[test]
fn metadata_url_format() {
    assert_eq!(
        metadata_url("https://cache.nixos.org/", H),
        format!("https://cache.nixos.org/{}.narinfo", H)
    );
}

#[test]
fn default_endpoint_order() {
    assert_eq!(
        default_endpoints(),
        vec![
            "https://cache.nixos.org/".to_string(),
            "https://sisyphe.cachix.org/".to_string(),
            "https://bincache.grunblatt.org/".to_string(),
        ]
    );
}

#[test]
fn resolver_stops_at_first_success() {
    let eps = endpoints();
    let r0 = first_query(&eps, H);
    match r0 {
        Resolution::Query { index, url } => {
            assert_eq!(index, 0);
            assert_eq!(url, format!("https://a.example/{}.narinfo", H));
        },
        _ => panic!("expected a query of the first endpoint"),
    }
    let r1 = on_response(&eps, H, 0, 404, "not found");
    match r1 {
        Resolution::Query { index, url } => {
            assert_eq!(index, 1);
            assert_eq!(url, format!("https://b.example/{}.narinfo", H));
        },
        _ => panic!("expected a query of the second endpoint"),
    }
    let r2 = on_response(&eps, H, 1, 200, &body_with_path("nar/p.nar.xz"));
    match r2 {
        Resolution::Found(u) => assert_eq!(u, "https://b.example/nar/p.nar.xz"),
        _ => panic!("expected the second endpoint to win"),
    }
}

#[test]
fn resolver_exhausted_when_all_fail() {
    let eps = endpoints();
    assert!(matches!(on_response(&eps, H, 0, 404, ""), Resolution::Query { index: 1, .. }));
    assert!(matches!(on_response(&eps, H, 1, 500, ""), Resolution::Query { index: 2, .. }));
    let last = on_response(&eps, H, 2, 404, "");
    assert!(matches!(last, Resolution::Exhausted));
    assert!(matches!(resolved_location(last), Err(PipelineError::ResolutionExhausted)));
    assert!(matches!(first_query(&Vec::new(), H), Resolution::Exhausted));
}

#[test]
fn resolver_success_without_path_is_malformed() {
    let eps = endpoints();
    let r = on_response(&eps, H, 0, 200, "only one line");
    assert!(matches!(r, Resolution::Malformed));
    assert!(matches!(resolved_location(r), Err(PipelineError::MalformedReference)));
}

#[test]
fn resolver_accepts_any_success_status() {
    let eps = endpoints();
    let r = on_response(&eps, H, 2, 204, "a: b\nURL: nar/q");
    assert!(matches!(r, Resolution::Found(ref u) if u == "https://c.example/nar/q"));
}

#[test]
fn end_to_end_second_endpoint_and_single_file() {
    let eps = endpoints();
    assert!(matches!(on_response(&eps, H, 0, 404, ""), Resolution::Query { index: 1, .. }));
    let body = format!("Hash: sha256\nStorePath: /nix/store/{}-foo.nar.xz\n", H);
    let found = on_response(&eps, H, 1, 200, &body);
    let url = resolved_location(found).ok().unwrap();
    assert_eq!(url, format!("https://b.example//nix/store/{}-foo.nar.xz", H));
    assert!(check_archive_status(200).is_ok());
    let root = destination_root(H);
    assert_eq!(root, format!("./result/{}", H));
    let entry = Entry { name: "hello.txt".to_string(), kind: EntryKind::File };
    match plan_entry(&root, &entry) {
        Ok(Action::Unpack { path, executable }) => {
            assert_eq!(path, format!("./result/{}/hello.txt", H));
            assert!(!executable);
        },
        _ => panic!("expected the file to be written"),
    }
}

#[test]
fn archive_status_failure() {
    assert!(check_archive_status(200).is_ok());
    assert!(check_archive_status(299).is_ok());
    assert!(matches!(check_archive_status(404), Err(PipelineError::ResolutionExhausted)));
    assert!(matches!(check_archive_status(199), Err(PipelineError::ResolutionExhausted)));
}

#[test]
fn synthetic_sequence_plans() {
    let root = destination_root(H);
    let dir = Entry { name: "a".to_string(), kind: EntryKind::Directory };
    let file = Entry { name: "a/b.txt".to_string(), kind: EntryKind::File };
    let link = Entry {
        name: "a/c".to_string(),
        kind: EntryKind::Symlink(format!("/nix/store/{}-other", H2)),
    };
    match plan_entry(&root, &dir) {
        Ok(Action::CreateDir(p)) => assert_eq!(p, format!("./result/{}/a", H)),
        _ => panic!("expected a directory"),
    }
    match plan_entry(&root, &file) {
        Ok(Action::Unpack { path, executable }) => {
            assert_eq!(path, format!("./result/{}/a/b.txt", H));
            assert!(!executable);
        },
        _ => panic!("expected a file"),
    }
    match plan_entry(&root, &link) {
        Ok(Action::Extract(h)) => {
            assert_eq!(h, H2);
            assert_eq!(destination_root(&h), format!("./result/{}", H2));
            assert_ne!(destination_root(&h), root);
        },
        _ => panic!("expected a nested extraction"),
    }
}

#[test]
fn executable_entry_keeps_its_bit() {
    let e = Entry { name: "bin/x".to_string(), kind: EntryKind::Executable };
    assert!(matches!(plan_entry("r", &e), Ok(Action::Unpack { executable: true, .. })));
}

#[test]
fn other_entry_is_skipped() {
    let e = Entry { name: "dev".to_string(), kind: EntryKind::Other };
    assert!(matches!(plan_entry("r", &e), Ok(Action::Skip)));
    let f = Entry { name: "after".to_string(), kind: EntryKind::Directory };
    assert!(matches!(plan_entry("r", &f), Ok(Action::CreateDir(_))));
}

#[test]
fn symlink_without_identifier_is_malformed() {
    let e = Entry { name: "l".to_string(), kind: EntryKind::Symlink("../lib".to_string()) };
    assert!(matches!(plan_entry("r", &e), Err(PipelineError::MalformedReference)));
}

#[test]
fn create_dir_settling() {
    assert!(settle_create_dir("d", Ok(()), true).is_ok());
    assert!(settle_create_dir("d", Err(FsKind::AlreadyExists), true).is_ok());
    assert!(settle_create_dir("d", Err(FsKind::AlreadyExists), true).is_ok());
    for _ in 0..2 {
        match settle_create_dir("d", Err(FsKind::AlreadyExists), false) {
            Err(PipelineError::FilesystemFailure { kind, path }) => {
                assert_eq!(kind, FsKind::AlreadyExists);
                assert_eq!(path, "d");
            },
            _ => panic!("expected a filesystem failure"),
        }
    }
    assert!(matches!(
        settle_create_dir("d", Err(FsKind::PermissionDenied), true),
        Err(PipelineError::FilesystemFailure { kind: FsKind::PermissionDenied, .. })
    ));
}

#[test]
fn text_helpers() {
    assert_eq!(entry_path("root", "x/y"), "root/x/y");
    assert_eq!(concat_str("ab", "cd"), "abcd");
    let v = chars_of("héllo");
    assert_eq!(v, vec!['h', 'é', 'l', 'l', 'o']);
    assert_eq!(slice_chars(&v, 1, 3), vec!['é', 'l']);
}
