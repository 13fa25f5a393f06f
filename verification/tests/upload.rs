use futures::executor::block_on;
use object_store::memory::InMemory;
use object_store::path::Path;
use object_store::{ObjectStore, ObjectStoreExt, PutMultipartOptions, PutPayload};
use sail::iceberg::write::upload::{
    next_upload_step, upload_parts, use_multipart_put, UploadAction, UploadPhase,
    MULTIPART_PART_SIZE, MULTIPART_PUT_THRESHOLD,
};

fn test_bytes(len: usize) -> Vec<u8> {
    // Deterministic pseudo-random content (xorshift64).
    let mut state = 0x2545_f491_4f6c_dd1du64;
    (0..len)
        .map(|_| {
            state ^= state << 13;
            state ^= state >> 7;
            state ^= state << 17;
            (state >> 11) as u8
        })
        .collect()
}

/// Uploads bytes in parts. The part with the given number fails, where one is given. Tells
/// whether the upload was given up.
async fn put_file_multipart(
    store: &InMemory,
    location: &Path,
    bytes: &[u8],
    part_size: usize,
    failing_part: Option<usize>,
) -> (Result<(), String>, bool) {
    let parts = match upload_parts(bytes.len(), part_size) {
        Ok(parts) => parts,
        Err(e) => return (Err(e.message()), false),
    };
    let mut upload = store
        .put_multipart_opts(location, PutMultipartOptions::default())
        .await
        .unwrap();
    let mut error = String::new();
    let mut sent = true;
    for (i, (from, to)) in parts.into_iter().enumerate() {
        if failing_part == Some(i) {
            error = "injected part failure".to_string();
            sent = false;
            break;
        }
        let payload = PutPayload::from(bytes[from..to].to_vec());
        upload.put_part(payload).await.unwrap();
    }
    let mut aborted = false;
    let (mut phase, mut action) = next_upload_step(UploadPhase::SendingParts, sent);
    loop {
        let succeeded = match action {
            UploadAction::Complete => upload.complete().await.is_ok(),
            UploadAction::Abort => {
                aborted = true;
                upload.abort().await.is_ok()
            }
            UploadAction::Succeed => return (Ok(()), aborted),
            UploadAction::Fail => return (Err(error), aborted),
        };
        let next = next_upload_step(phase, succeeded);
        phase = next.0;
        action = next.1;
    }
}

#[test]
fn multipart_threshold_boundary() {
    assert!(!use_multipart_put(MULTIPART_PUT_THRESHOLD - 1));
    assert!(use_multipart_put(MULTIPART_PUT_THRESHOLD));
    assert!(!use_multipart_put(0));
}

#[test]
fn multipart_put_round_trips_bytes_identically() {
    block_on(async {
        let store = InMemory::new();
        let path = Path::from("data/multipart.bin");
        // 2.5 MB in 1 MB parts exercises multi-part completion.
        let bytes = test_bytes(2_500_000);
        let (result, aborted) = put_file_multipart(&store, &path, &bytes, 1_000_000, None).await;
        result.expect("multipart upload");
        assert!(!aborted);
        let back = store
            .get(&path)
            .await
            .expect("object present")
            .bytes()
            .await
            .expect("readable");
        assert_eq!(back.as_ref(), bytes.as_slice());
    });
}

#[test]
fn multipart_put_rejects_empty_content() {
    block_on(async {
        let store = InMemory::new();
        let path = Path::from("data/empty.bin");
        let (result, _) = put_file_multipart(&store, &path, &[], 1_000, None).await;
        let err = result.expect_err("empty upload must fail");
        assert!(err.contains("non-empty"), "unexpected error: {err}");
    });
}

#[test]
fn multipart_put_aborts_on_part_failure() {
    block_on(async {
        let store = InMemory::new();
        let path = Path::from("data/aborted.bin");
        let bytes = test_bytes(2_500_000);
        let (result, aborted) = put_file_multipart(&store, &path, &bytes, 1_000_000, Some(1)).await;
        let err = result.expect_err("part failure must fail the upload");
        assert!(
            err.contains("injected part failure"),
            "unexpected error: {err}"
        );
        assert!(aborted, "failed upload must call abort()");
        assert!(
            store.head(&path).await.is_err(),
            "aborted upload must leave no object"
        );
    });
}

#[test]
fn parts_cover_the_content() {
    assert_eq!(
        upload_parts(2_500_000, 1_000_000).unwrap(),
        vec![(0, 1_000_000), (1_000_000, 2_000_000), (2_000_000, 2_500_000)]
    );
    assert_eq!(upload_parts(10, 10).unwrap(), vec![(0, 10)]);
    assert_eq!(
        upload_parts(536_870_912, MULTIPART_PART_SIZE).unwrap().len(),
        8
    );
}

#[test]
fn failed_completion_aborts() {
    let (phase, action) = next_upload_step(UploadPhase::Completing, false);
    assert_eq!(action, UploadAction::Abort);
    assert_eq!(next_upload_step(phase, false).1, UploadAction::Fail);
}
