use sealed_store::api::handlers::{
    download_chunk, handle_download, handle_upload_raw, upload_chunk, window_len,
};
use sealed_store::api::interfaces::{
    is_plain_file_name, ChunkMetadataPayload, DownloadParamsPayload,
};
use sealed_store::crypto::secretbox_chacha20_poly1305::{Key, Nonce};
use sealed_store::db::constants::SALT_BASE;
use sealed_store::db::secret_db::SecretDb;
use sealed_store::db::security::SecurityAtRest;
use sealed_store::db::ErrorKind;

fn fresh_path(name: &str) -> String {
    format!("/tmp/sealed_store_{}_{:016x}", name, rand::random::<u64>())
}

fn quick_security() -> SecurityAtRest {
    SecurityAtRest::with_parameters(Nonce([5; 12]), 1000, SALT_BASE).unwrap()
}

fn open_secret_db(name: &str) -> SecretDb {
    SecretDb::with_security(fresh_path(name), quick_security()).unwrap()
}

fn window_of(file: &[u8], offset: usize, window_size: usize) -> Vec<u8> {
    let end = (offset + window_size).min(file.len());
    file[offset.min(end)..end].to_vec()
}

#[test]
fn uploaded_chunks_are_downloaded_again() {
    let mut db = SecretDb::new(fresh_path("chunks")).unwrap();
    let mut file: Vec<u8> = Vec::new();
    for chunk in ["ab", "cd", "ef"] {
        let sealed = upload_chunk(&mut db, "f1", "p", chunk.as_bytes().to_vec(), 3).unwrap();
        assert_eq!(sealed.len(), 2 + 16);
        file.extend_from_slice(&sealed);
    }
    assert_eq!(file.len(), 54);
    let mut content: Vec<u8> = Vec::new();
    let mut ended = false;
    let mut offset = 0;
    let mut calls = 0;
    while !ended {
        let window = window_of(&file, offset, 18);
        offset += window.len();
        let (plain, end_of_file) = download_chunk(&db, "f1", "p", window, 18).unwrap();
        content.extend_from_slice(&plain);
        ended = end_of_file;
        calls += 1;
    }
    assert_eq!(content, b"abcdef".to_vec());
    assert_eq!(offset, file.len());
    assert_eq!(calls, 4);
}

#[test]
fn first_chunk_provisions_the_content_key_and_later_chunks_use_it() {
    let mut db = open_secret_db("provisions");
    assert_eq!(db.get_secret("f1", "p").unwrap_err().kind, ErrorKind::NotFound);
    let first = upload_chunk(&mut db, "f1", "p", b"ab".to_vec(), 3).unwrap();
    let secret = db.get_secret("f1", "p").unwrap();
    assert_eq!(secret.total_chunks, 3);
    assert_eq!(secret.file_name, "f1");
    let again = upload_chunk(&mut db, "f1", "p", b"ab".to_vec(), 7).unwrap();
    assert_eq!(first, again);
    let after = db.get_secret("f1", "p").unwrap();
    assert_eq!(after.key, secret.key);
    assert_eq!(after.nonce, secret.nonce);
    assert_eq!(after.total_chunks, 3);
    let other = upload_chunk(&mut db, "f2", "p", b"ab".to_vec(), 1).unwrap();
    assert_ne!(first, other);
}

#[test]
fn chunk_is_sealed_under_the_stored_content_key() {
    let mut db = open_secret_db("sealed");
    let key = [0u8, 1, 2, 3, 4, 5, 6, 7, 8, 9, 10, 11, 12, 13, 14, 15, 16, 17, 18, 19, 20, 21, 22, 23,
        24, 25, 26, 27, 28, 29, 30, 31];
    let nonce = [0u8, 1, 2, 3, 4, 5, 6, 7, 8, 9, 10, 11];
    let entry = db.create_secret_entry("f1", "p", 1, (Key(key), Nonce(nonce)));
    db.insert_secret(entry).unwrap();
    let sealed = upload_chunk(&mut db, "f1", "p", b"ab".to_vec(), 1).unwrap();
    assert_eq!(
        sealed,
        vec![232, 153, 53, 228, 231, 120, 18, 20, 242, 94, 6, 63, 98, 69, 140, 201, 195, 206]
    );
    let (plain, ended) = download_chunk(&db, "f1", "p", sealed, 18).unwrap();
    assert_eq!(plain, b"ab".to_vec());
    assert!(!ended);
}

#[test]
fn upload_for_a_file_needs_its_passphrase() {
    let mut db = open_secret_db("upload_refused");
    upload_chunk(&mut db, "f1", "p", b"ab".to_vec(), 3).unwrap();
    let error = upload_chunk(&mut db, "f1", "q", b"cd".to_vec(), 3).unwrap_err();
    assert_eq!(error.kind, ErrorKind::AuthenticationFailed);
}

#[test]
fn download_tells_the_failures_apart() {
    let mut db = open_secret_db("download_kinds");
    let sealed = upload_chunk(&mut db, "f1", "p", b"ab".to_vec(), 1).unwrap();
    let missing = download_chunk(&db, "f2", "p", sealed.clone(), 18).unwrap_err();
    assert_eq!(missing.kind, ErrorKind::NotFound);
    let refused = download_chunk(&db, "f1", "q", sealed.clone(), 18).unwrap_err();
    assert_eq!(refused.kind, ErrorKind::AuthenticationFailed);
    let mut altered = sealed.clone();
    altered[0] ^= 1;
    let corrupted = download_chunk(&db, "f1", "p", altered, 18).unwrap_err();
    assert_eq!(corrupted.kind, ErrorKind::AuthenticationFailed);
    let cut = download_chunk(&db, "f1", "p", sealed[..17].to_vec(), 18).unwrap_err();
    assert_eq!(cut.kind, ErrorKind::AuthenticationFailed);
    let below_a_tag = download_chunk(&db, "f1", "p", vec![0], 18).unwrap_err();
    assert_eq!(below_a_tag.kind, ErrorKind::AuthenticationFailed);
}

#[test]
fn download_reports_the_end_of_the_file() {
    let mut db = open_secret_db("ended");
    let sealed = upload_chunk(&mut db, "f1", "p", b"ab".to_vec(), 1).unwrap();
    assert!(!download_chunk(&db, "f1", "p", sealed.clone(), 18).unwrap().1);
    assert!(!download_chunk(&db, "f1", "p", sealed.clone(), 17).unwrap().1);
    assert!(download_chunk(&db, "f1", "p", sealed.clone(), 19).unwrap().1);
    let empty = upload_chunk(&mut db, "f1", "p", Vec::new(), 1).unwrap();
    assert_eq!(empty.len(), 16);
    assert_eq!(download_chunk(&db, "f1", "p", empty, 16).unwrap(), (Vec::new(), false));
}

#[test]
fn payloads_hold_what_requests_carry() {
    let metadata = ChunkMetadataPayload {
        file_name: "f1".to_string(),
        chunk_number: 0,
        total_chunks: 3,
        timestamp: "2024-01-01".to_string(),
        custom_data: None,
    };
    let params = DownloadParamsPayload { offset: 18, file_name: "f1".to_string() };
    let mut db = open_secret_db("payloads");
    let sealed =
        upload_chunk(&mut db, &metadata.file_name, "p", b"ab".to_vec(), metadata.total_chunks)
            .unwrap();
    assert_eq!(db.get_secret(&params.file_name, "p").unwrap().total_chunks, 3);
    assert_eq!(params.offset as usize, sealed.len());
    assert_eq!(metadata.chunk_number, 0);
}

#[test]
fn plain_file_names_name_files_in_one_directory() {
    for name in ["f1", "a.txt", ".hidden", "...", "é", "a b", "..a", "a.."] {
        assert!(is_plain_file_name(name), "{}", name);
    }
    for name in ["", ".", "..", "/", "a/b", "/etc/passwd", "../x", "a\\b", "a\0b", "x/"] {
        assert!(!is_plain_file_name(name), "{:?}", name);
    }
}

#[test]
fn read_at_the_end_of_the_file_gives_no_bytes_and_the_end() {
    let mut db = open_secret_db("end");
    upload_chunk(&mut db, "f1", "p", b"ab".to_vec(), 1).unwrap();
    assert_eq!(download_chunk(&db, "f1", "p", Vec::new(), 18).unwrap(), (Vec::new(), true));
    assert_eq!(download_chunk(&db, "f1", "p", Vec::new(), 0).unwrap(), (Vec::new(), false));
    let missing = download_chunk(&db, "f2", "p", Vec::new(), 18).unwrap_err();
    assert_eq!(missing.kind, ErrorKind::NotFound);
    let refused = download_chunk(&db, "f1", "q", Vec::new(), 18).unwrap_err();
    assert_eq!(refused.kind, ErrorKind::AuthenticationFailed);
}

#[test]
fn later_chunk_leaves_the_content_key_as_it_is() {
    let mut db = open_secret_db("later");
    upload_chunk(&mut db, "f1", "p", b"ab".to_vec(), 2).unwrap();
    let before = db.get_secret("f1", "p").unwrap();
    upload_chunk(&mut db, "f1", "p", b"cd".to_vec(), 9).unwrap();
    let after = db.get_secret("f1", "p").unwrap();
    assert_eq!(before.key, after.key);
    assert_eq!(before.nonce, after.nonce);
    assert_eq!(after.total_chunks, 2);
}

fn metadata(file_name: &str, chunk_number: usize, total_chunks: usize) -> ChunkMetadataPayload {
    ChunkMetadataPayload {
        file_name: file_name.to_string(),
        chunk_number,
        total_chunks,
        timestamp: String::new(),
        custom_data: None,
    }
}

#[test]
fn window_is_a_chunk_and_its_tag() {
    assert_eq!(window_len(0), 16);
    assert_eq!(window_len(2), 18);
    assert_eq!(window_len(1024 * 1024), 1024 * 1024 + 16);
    assert_eq!(window_len(usize::MAX - 16), usize::MAX);
    assert_eq!(window_len(usize::MAX - 15), usize::MAX);
    assert_eq!(window_len(usize::MAX), usize::MAX);
}

#[test]
fn chunks_of_a_file_lie_at_multiples_of_one_window() {
    let mut db = open_secret_db("windows");
    let mut file: Vec<u8> = Vec::new();
    for (number, chunk) in ["ab", "cd", "e"].iter().enumerate() {
        let sealed =
            handle_upload_raw(&mut db, &metadata("f1", number, 3), chunk.as_bytes().to_vec(), "p", 2)
                .unwrap();
        file.extend_from_slice(&sealed);
    }
    assert_eq!(file.len(), 18 + 18 + 17);
    let mut content: Vec<u8> = Vec::new();
    for number in 0..3 {
        let offset = number * window_len(2);
        let params = DownloadParamsPayload { offset: offset as u64, file_name: "f1".to_string() };
        let window = window_of(&file, offset, window_len(2));
        let (plain, ended) = handle_download(&db, &params, window, "p", 2).unwrap();
        content.extend_from_slice(&plain);
        assert_eq!(ended, number == 2);
    }
    assert_eq!(content, b"abcde".to_vec());
}

#[test]
fn chunk_that_does_not_fit_its_place_is_refused() {
    let mut db = open_secret_db("fits");
    let refused = [
        (metadata("f1", 0, 3), 1),
        (metadata("f1", 1, 3), 0),
        (metadata("f1", 0, 3), 3),
        (metadata("f1", 2, 3), 3),
        (metadata("f1", 3, 3), 2),
        (metadata("f1", 0, 0), 0),
        (metadata("..", 0, 1), 2),
        (metadata("a/b", 0, 1), 2),
        (metadata("", 0, 1), 2),
    ];
    for (metadata, len) in refused {
        let error = handle_upload_raw(&mut db, &metadata, vec![7; len], "p", 2).unwrap_err();
        assert_eq!(error.kind, ErrorKind::MalformedInput);
    }
    assert_eq!(db.get_secret("f1", "p").unwrap_err().kind, ErrorKind::NotFound);
    for (metadata, len) in [(metadata("f1", 0, 3), 2), (metadata("f1", 2, 3), 0), (metadata("f1", 2, 3), 2)] {
        assert_eq!(handle_upload_raw(&mut db, &metadata, vec![7; len], "p", 2).unwrap().len(), len + 16);
    }
}

#[test]
fn download_of_a_file_whose_name_is_not_plain_is_refused() {
    let db = open_secret_db("named");
    let params = DownloadParamsPayload { offset: 0, file_name: "../f1".to_string() };
    let error = handle_download(&db, &params, Vec::new(), "p", 2).unwrap_err();
    assert_eq!(error.kind, ErrorKind::MalformedInput);
    let params = DownloadParamsPayload { offset: 0, file_name: "f1".to_string() };
    let error = handle_download(&db, &params, Vec::new(), "p", 2).unwrap_err();
    assert_eq!(error.kind, ErrorKind::NotFound);
}
