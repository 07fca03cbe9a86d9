use sytra::fingerprint::{
    checkpoint_digest, digest_hex, download_identities, fingerprint_message, sort_identities, DownloadFile,
    FileIdentity,
};
use sytra::oracle::OracleError;

#[test]
fn empty_message_has_the_known_sha256() {
    assert_eq!(
        digest_hex(b""),
        "e3b0c44298fc1c149afbf4c8996fb92427ae41e4649b934ca495991b7852b855"
    );
    assert_eq!(
        digest_hex(b"abc"),
        "ba7816bf8f01cfea414140de5dae2223b00361a396177a9cb410ff61f20015ad"
    );
}

#[test]
fn fingerprint_message_frames_every_field_with_its_length() {
    let ids = vec![FileIdentity { path: "a".to_string(), size: 2, blob_id: "b".to_string() }];
    let m = fingerprint_message("rev", &ids, b"{}", b"[]");
    let mut expected: Vec<u8> = Vec::new();
    let mut frame = |bytes: &[u8]| {
        expected.extend_from_slice(&(bytes.len() as u64).to_le_bytes());
        expected.extend_from_slice(bytes);
    };
    frame(b"rev");
    frame(b"a");
    frame(&2u64.to_le_bytes());
    frame(b"b");
    frame(b"config.json");
    frame(b"{}");
    frame(b".sytra-runtime.json");
    frame(b"[]");
    assert_eq!(m, expected);
}

#[test]
fn checkpoint_digest_hashes_the_framed_message() {
    let ids = vec![
        FileIdentity { path: "model.safetensors".to_string(), size: 10, blob_id: "x1".to_string() },
        FileIdentity { path: "tokenizer.json".to_string(), size: 3, blob_id: "x2".to_string() },
    ];
    let digest = checkpoint_digest("0123456789abcdef", &ids, b"{\"a\":1}", b"{}");
    assert_eq!(digest.len(), 64);
    assert!(digest.chars().all(|c| c.is_ascii_hexdigit() && !c.is_ascii_uppercase()));
    let message = fingerprint_message("0123456789abcdef", &ids, b"{\"a\":1}", b"{}");
    assert_eq!(digest, digest_hex(&message));
    let other = checkpoint_digest("0123456789abcdee", &ids, b"{\"a\":1}", b"{}");
    assert_ne!(digest, other);
}

#[test]
fn fingerprint_is_bound_to_revision_blob_ids_and_runtime_contract() {
    let ids = vec![FileIdentity {
        path: "model.safetensors".to_string(),
        size: 7,
        blob_id: "sha256:deadbeef".to_string(),
    }];
    let first = checkpoint_digest("abcdef1234567890", &ids, b"{}", b"{}");
    let second = checkpoint_digest("abcdef1234567890", &ids, b"{\"changed\":true}", b"{}");
    assert_ne!(first, second);
    let other_blob = vec![FileIdentity {
        path: "model.safetensors".to_string(),
        size: 7,
        blob_id: "sha256:feedface".to_string(),
    }];
    assert_ne!(first, checkpoint_digest("abcdef1234567890", &other_blob, b"{}", b"{}"));
    assert_ne!(first, checkpoint_digest("abcdef1234567891", &ids, b"{}", b"{}"));
    assert_ne!(first, checkpoint_digest("abcdef1234567890", &ids, b"{}", b"{\"a\":1}"));
    assert_eq!(first, checkpoint_digest("abcdef1234567890", &ids, b"{}", b"{}"));
}

fn entry(path: &str, size: u64, blob: &str, on_disk: Result<u64, String>) -> DownloadFile {
    DownloadFile {
        path: Some(path.to_string()),
        size: Some(size),
        blob_id: Some(blob.to_string()),
        on_disk,
    }
}

fn identity_message(r: Result<Vec<FileIdentity>, OracleError>) -> String {
    match r {
        Err(OracleError::Identity(m)) => m,
        other => panic!("expected an identity error, got {:?}", other.map(|ids| ids.len())),
    }
}

#[test]
fn download_record_must_name_an_immutable_revision_and_files() {
    let files = Some(vec![entry("a.bin", 1, "x", Ok(1))]);
    assert_eq!(
        identity_message(download_identities(&None, &files)),
        "immutable resolved_revision is missing"
    );
    assert_eq!(
        identity_message(download_identities(&Some("abc123".to_string()), &files)),
        "immutable resolved_revision is missing"
    );
    let rev = Some("abc1234".to_string());
    assert_eq!(identity_message(download_identities(&rev, &None)), "download file identities are missing");
    assert_eq!(
        identity_message(download_identities(&rev, &Some(Vec::new()))),
        "download file identity list is empty"
    );
    assert!(download_identities(&rev, &files).is_ok());
}

#[test]
fn the_first_untrusted_entry_is_reported() {
    let rev = Some("0123456789".to_string());
    let missing_path = DownloadFile { path: None, size: Some(1), blob_id: Some("x".to_string()), on_disk: Ok(1) };
    assert_eq!(
        identity_message(download_identities(&rev, &Some(vec![missing_path]))),
        "download file path is missing"
    );
    assert_eq!(
        identity_message(download_identities(&rev, &Some(vec![entry("../etc/passwd", 1, "x", Ok(1))]))),
        "download file path \"../etc/passwd\" is unsafe"
    );
    let no_size = DownloadFile { path: Some("a".to_string()), size: None, blob_id: Some("x".to_string()), on_disk: Ok(1) };
    assert_eq!(
        identity_message(download_identities(&rev, &Some(vec![no_size]))),
        "download size is missing for a"
    );
    assert_eq!(
        identity_message(download_identities(&rev, &Some(vec![entry("a", 1, "  ", Ok(1))]))),
        "immutable blob identity is missing for a"
    );
    assert_eq!(
        identity_message(download_identities(&rev, &Some(vec![entry("a", 1, "x", Err("gone".to_string()))]))),
        "cannot stat a: gone"
    );
    let files = Some(vec![entry("a", 5, "x", Ok(5)), entry("b", 8, "y", Ok(9)), entry("c", 1, "", Ok(1))]);
    assert_eq!(identity_message(download_identities(&rev, &files)), "file b has 9 bytes; expected 8");
}

#[test]
fn identities_come_out_in_path_size_blob_order() {
    let rev = Some("0123456789".to_string());
    let files = Some(vec![
        entry("tokenizer.json", 3, "t", Ok(3)),
        entry("model-00002.safetensors", 9, "b", Ok(9)),
        entry("config.json", 2, "c", Ok(2)),
        entry("model-00001.safetensors", 9, "a", Ok(9)),
    ]);
    let ids = download_identities(&rev, &files).unwrap();
    let paths: Vec<&str> = ids.iter().map(|id| id.path.as_str()).collect();
    assert_eq!(
        paths,
        vec!["config.json", "model-00001.safetensors", "model-00002.safetensors", "tokenizer.json"]
    );
    let ids = sort_identities(vec![
        FileIdentity { path: "p".to_string(), size: 2, blob_id: "z".to_string() },
        FileIdentity { path: "p".to_string(), size: 1, blob_id: "y".to_string() },
        FileIdentity { path: "p".to_string(), size: 1, blob_id: "x".to_string() },
        FileIdentity { path: "P".to_string(), size: 9, blob_id: "w".to_string() },
    ]);
    let order: Vec<(String, u64, String)> =
        ids.into_iter().map(|id| (id.path, id.size, id.blob_id)).collect();
    let mut expected = order.clone();
    expected.sort();
    assert_eq!(order, expected);
    assert_eq!(order[0].0, "P");
    assert_eq!(order[1], ("p".to_string(), 1, "x".to_string()));
}

#[test]
fn listing_order_does_not_change_the_fingerprint() {
    let rev = Some("0123456789abcdef".to_string());
    let forward = Some(vec![
        entry("model-00001.safetensors", 9, "a", Ok(9)),
        entry("config.json", 2, "c", Ok(2)),
        entry("tokenizer.json", 3, "t", Ok(3)),
    ]);
    let backward = Some(vec![
        entry("tokenizer.json", 3, "t", Ok(3)),
        entry("config.json", 2, "c", Ok(2)),
        entry("model-00001.safetensors", 9, "a", Ok(9)),
    ]);
    let first = download_identities(&rev, &forward).unwrap();
    let second = download_identities(&rev, &backward).unwrap();
    assert_eq!(
        checkpoint_digest("0123456789abcdef", &first, b"{}", b"{}"),
        checkpoint_digest("0123456789abcdef", &second, b"{}", b"{}")
    );
}
