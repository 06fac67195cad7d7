use kdownloader::digest::checksum_of;
use kdownloader::fetch::{FetchAction, FetchEvent, FetchWorker};
use kdownloader::{Error, FileResource, Status};

fn descriptor(content: &[u8]) -> FileResource {
    FileResource {
        path: "dir/a.txt".to_string(),
        version: 1,
        size: content.len() as i32,
        sum: checksum_of(content),
        url: "http://x/a".to_string(),
    }
}

#[test]
fn first_action_reads_the_local_file() {
    let (worker, action) = FetchWorker::begin(descriptor(b"abc"));
    assert_eq!(action, FetchAction::ReadLocal { path: "dir/a.txt".to_string() });
    assert_eq!(worker.outcome(), None);
}

#[test]
fn current_file_is_skipped_without_a_request() {
    let (worker, _) = FetchWorker::begin(descriptor(b"abc"));
    let (worker, action) = worker.step(FetchEvent::LocalRead(Some(b"abc".to_vec())));
    assert_eq!(action, FetchAction::Finish(Ok(Status::Skipped)));
    assert_eq!(worker.outcome(), Some(Ok(Status::Skipped)));
}

#[test]
fn missing_file_is_requested() {
    let (worker, _) = FetchWorker::begin(descriptor(b"abc"));
    let (worker, action) = worker.step(FetchEvent::LocalRead(None));
    assert_eq!(action, FetchAction::Get { url: "http://x/a".to_string() });
    assert_eq!(worker.outcome(), None);
}

#[test]
fn stale_file_is_requested_again() {
    let (worker, _) = FetchWorker::begin(descriptor(b"abc"));
    let (_, action) = worker.step(FetchEvent::LocalRead(Some(b"abd".to_vec())));
    assert_eq!(action, FetchAction::Get { url: "http://x/a".to_string() });
}

#[test]
fn empty_checksum_never_matches() {
    let mut file = descriptor(b"");
    file.sum = String::new();
    let (worker, _) = FetchWorker::begin(file);
    let (_, action) = worker.step(FetchEvent::LocalRead(Some(Vec::new())));
    assert_eq!(action, FetchAction::Get { url: "http://x/a".to_string() });
}

#[test]
fn empty_file_with_its_checksum_is_skipped() {
    let (worker, _) = FetchWorker::begin(descriptor(b""));
    let (_, action) = worker.step(FetchEvent::LocalRead(Some(Vec::new())));
    assert_eq!(action, FetchAction::Finish(Ok(Status::Skipped)));
}

#[test]
fn download_goes_through_directory_and_write() {
    let (worker, _) = FetchWorker::begin(descriptor(b"abc"));
    let (worker, _) = worker.step(FetchEvent::LocalRead(None));
    let (worker, action) = worker.step(FetchEvent::Response(Ok(b"new".to_vec())));
    assert_eq!(action, FetchAction::CreateParentDir { path: "dir/a.txt".to_string() });
    let (worker, action) = worker.step(FetchEvent::DirReady(Ok(())));
    assert_eq!(
        action,
        FetchAction::Write { path: "dir/a.txt".to_string(), body: b"new".to_vec() }
    );
    assert_eq!(worker.outcome(), None);
    let (worker, action) = worker.step(FetchEvent::Written(Ok(())));
    assert_eq!(action, FetchAction::Finish(Ok(Status::Downloaded)));
    assert_eq!(worker.outcome(), Some(Ok(Status::Downloaded)));
}

#[test]
fn body_is_written_even_if_it_is_not_what_the_checksum_says() {
    let (worker, _) = FetchWorker::begin(descriptor(b"abc"));
    let (worker, _) = worker.step(FetchEvent::LocalRead(None));
    let (worker, _) = worker.step(FetchEvent::Response(Ok(b"something else".to_vec())));
    let (_, action) = worker.step(FetchEvent::DirReady(Ok(())));
    assert_eq!(
        action,
        FetchAction::Write { path: "dir/a.txt".to_string(), body: b"something else".to_vec() }
    );
}

#[test]
fn failed_request_ends_the_worker() {
    let (worker, _) = FetchWorker::begin(descriptor(b"abc"));
    let (worker, _) = worker.step(FetchEvent::LocalRead(None));
    let error = Error::Reqwest("HTTP 500".to_string());
    let (worker, action) = worker.step(FetchEvent::Response(Err(error.clone())));
    assert_eq!(action, FetchAction::Finish(Err(error.clone())));
    assert_eq!(worker.outcome(), Some(Err(error)));
}

#[test]
fn failed_directory_ends_the_worker() {
    let (worker, _) = FetchWorker::begin(descriptor(b"abc"));
    let (worker, _) = worker.step(FetchEvent::LocalRead(None));
    let (worker, _) = worker.step(FetchEvent::Response(Ok(b"new".to_vec())));
    let error = Error::Io("read-only file system".to_string());
    let (worker, action) = worker.step(FetchEvent::DirReady(Err(error.clone())));
    assert_eq!(action, FetchAction::Finish(Err(error.clone())));
    assert_eq!(worker.outcome(), Some(Err(error)));
}

#[test]
fn failed_write_ends_the_worker() {
    let (worker, _) = FetchWorker::begin(descriptor(b"abc"));
    let (worker, _) = worker.step(FetchEvent::LocalRead(None));
    let (worker, _) = worker.step(FetchEvent::Response(Ok(b"new".to_vec())));
    let (worker, _) = worker.step(FetchEvent::DirReady(Ok(())));
    let error = Error::Io("disk full".to_string());
    let (_, action) = worker.step(FetchEvent::Written(Err(error.clone())));
    assert_eq!(action, FetchAction::Finish(Err(error)));
}

#[test]
fn ended_worker_repeats_its_result() {
    let (worker, _) = FetchWorker::begin(descriptor(b"abc"));
    let (worker, _) = worker.step(FetchEvent::LocalRead(Some(b"abc".to_vec())));
    let (worker, action) = worker.step(FetchEvent::Response(Ok(b"late".to_vec())));
    assert_eq!(action, FetchAction::Finish(Ok(Status::Skipped)));
    let (worker, action) = worker.step(FetchEvent::LocalRead(None));
    assert_eq!(action, FetchAction::Finish(Ok(Status::Skipped)));
    assert_eq!(worker.outcome(), Some(Ok(Status::Skipped)));
}

#[test]
fn event_out_of_turn_is_ignored() {
    let (worker, _) = FetchWorker::begin(descriptor(b"abc"));
    let (worker, action) = worker.step(FetchEvent::Written(Ok(())));
    assert_eq!(action, FetchAction::Ignored);
    let (worker, action) = worker.step(FetchEvent::Response(Ok(b"x".to_vec())));
    assert_eq!(action, FetchAction::Ignored);
    let (worker, action) = worker.step(FetchEvent::LocalRead(None));
    assert_eq!(action, FetchAction::Get { url: "http://x/a".to_string() });
    let (worker, action) = worker.step(FetchEvent::LocalRead(None));
    assert_eq!(action, FetchAction::Ignored);
    let (worker, action) = worker.step(FetchEvent::Response(Ok(b"x".to_vec())));
    assert_eq!(action, FetchAction::CreateParentDir { path: "dir/a.txt".to_string() });
    let (worker, action) = worker.step(FetchEvent::Written(Ok(())));
    assert_eq!(action, FetchAction::Ignored);
    let (_, action) = worker.step(FetchEvent::DirReady(Ok(())));
    assert_eq!(action, FetchAction::Write { path: "dir/a.txt".to_string(), body: b"x".to_vec() });
}

#[test]
fn second_fetch_of_a_downloaded_file_is_skipped() {
    let content = b"the content".to_vec();
    let (worker, _) = FetchWorker::begin(descriptor(&content));
    let (worker, _) = worker.step(FetchEvent::LocalRead(None));
    let (worker, _) = worker.step(FetchEvent::Response(Ok(content.clone())));
    let (_, action) = worker.step(FetchEvent::DirReady(Ok(())));
    let written = match action {
        FetchAction::Write { body, .. } => body,
        other => panic!("no write: {:?}", other),
    };
    let (worker, _) = FetchWorker::begin(descriptor(&content));
    let (_, action) = worker.step(FetchEvent::LocalRead(Some(written)));
    assert_eq!(action, FetchAction::Finish(Ok(Status::Skipped)));
}

#[test]
fn request_is_made_once() {
    let (mut worker, _) = FetchWorker::begin(descriptor(b"abc"));
    let events = vec![
        FetchEvent::LocalRead(None),
        FetchEvent::LocalRead(None),
        FetchEvent::Response(Err(Error::Reqwest("timeout".to_string()))),
        FetchEvent::LocalRead(None),
        FetchEvent::Response(Ok(b"abc".to_vec())),
    ];
    let mut requests = 0;
    for event in events {
        let next = worker.step(event);
        worker = next.0;
        if matches!(next.1, FetchAction::Get { .. }) {
            requests += 1;
        }
    }
    assert_eq!(requests, 1);
    assert_eq!(worker.outcome(), Some(Err(Error::Reqwest("timeout".to_string()))));
}

#[test]
fn known_checksum_decides_without_the_content() {
    let (worker, _) = FetchWorker::begin(descriptor(b"abc"));
    let (worker, action) = worker.checked(Some(checksum_of(b"abc")));
    assert_eq!(action, FetchAction::Finish(Ok(Status::Skipped)));
    assert_eq!(worker.outcome(), Some(Ok(Status::Skipped)));

    let (worker, _) = FetchWorker::begin(descriptor(b"abc"));
    let (_, action) = worker.checked(Some("deadbeef".to_string()));
    assert_eq!(action, FetchAction::Get { url: "http://x/a".to_string() });

    let (worker, _) = FetchWorker::begin(descriptor(b"abc"));
    let (worker, action) = worker.checked(None);
    assert_eq!(action, FetchAction::Get { url: "http://x/a".to_string() });
    let (worker, action) = worker.checked(Some(checksum_of(b"abc")));
    assert_eq!(action, FetchAction::Ignored);
    assert_eq!(worker.outcome(), None);
}

#[test]
fn checksum_text_is_compared_as_it_is() {
    let mut file = descriptor(b"abc");
    file.sum = "ABCDEF".to_string();
    let (worker, _) = FetchWorker::begin(file.clone());
    let (_, action) = worker.checked(Some("abcdef".to_string()));
    assert_eq!(action, FetchAction::Get { url: "http://x/a".to_string() });
    let (worker, _) = FetchWorker::begin(file);
    let (_, action) = worker.checked(Some("ABCDEF".to_string()));
    assert_eq!(action, FetchAction::Finish(Ok(Status::Skipped)));
}
