use furcate_mesh::peer::PeerId;
use furcate_mesh::transfer::chunk::{ChunkHeader, ChunkVerifier, CHUNK_SIZE};
use furcate_mesh::transfer::coverage::Coverage;
use furcate_mesh::transfer::digest::{root_hash, RootHasher};
use furcate_mesh::transfer::error::TransferError;
use furcate_mesh::transfer::receiver::{Pull, PullAction, PullEvent, Reply, TRANSFER_ROOT};
use furcate_mesh::transfer::sender::{ChunkStream, StreamAction, StreamEvent};
use furcate_mesh::transfer::service::{
    Answer, PullOptions, TransferService, DEFAULT_PULL_TIMEOUT,
};
use furcate_mesh::transfer::serving::{ServeAction, ServeEvent, ServeNote};

fn hex_of(bytes: &[u8]) -> String {
    hex::encode(blake3::hash(bytes).as_bytes())
}

fn payload(len: usize) -> Vec<u8> {
    (0..len).map(|i| u8::try_from(i % 251).expect("modulo fits")).collect()
}

#[test]
fn chunk_verifier_accepts_valid_chunk() {
    let bytes = b"hello mesh";
    let hdr = ChunkHeader {
        offset: 0,
        chunk_hash: ChunkVerifier::hash(bytes),
        len: u32::try_from(bytes.len()).expect("fits"),
        last: true,
    };
    ChunkVerifier::verify(&hdr, bytes).expect("ok");
}

#[test]
fn chunk_verifier_rejects_corrupt_chunk() {
    let hdr = ChunkHeader {
        offset: 1024,
        chunk_hash: ChunkVerifier::hash(b"original"),
        len: 8,
        last: false,
    };
    let err = ChunkVerifier::verify(&hdr, b"tampered").expect_err("should fail");
    match err {
        TransferError::ChunkVerify { offset } => assert_eq!(offset, 1024),
        other => panic!("wrong variant: {other:?}"),
    }
}

#[test]
fn root_hash_matches_blake3_of_file_bytes() {
    let payload = vec![0xab; 3 * CHUNK_SIZE + 17];
    let reads: Vec<Vec<u8>> = payload.chunks(CHUNK_SIZE).map(<[u8]>::to_vec).collect();
    let actual = root_hash(&reads);
    let expected = hex::encode(blake3::hash(&payload).as_bytes());
    assert_eq!(actual, expected);
}

#[test]
fn root_hash_ends_at_an_empty_read() {
    assert_eq!(
        root_hash(&vec![]),
        "af1349b9f5f9a1a6a0404dea36dcc9499bcb25c9adc112b7cc9a93cae41f3262"
    );
    let reads = vec![b"ab".to_vec(), b"c".to_vec(), vec![], b"later".to_vec()];
    assert_eq!(root_hash(&reads), hex_of(b"abc"));
    assert_eq!(ChunkVerifier::hash(b"x").len(), 64);
    assert_eq!(
        ChunkVerifier::hash(b""),
        "af1349b9f5f9a1a6a0404dea36dcc9499bcb25c9adc112b7cc9a93cae41f3262"
    );
}

#[test]
fn root_hash_does_not_depend_on_the_reads() {
    let file = payload(10_000);
    let mut hasher = RootHasher::new();
    for piece in file.chunks(37) {
        hasher.update(piece);
    }
    assert_eq!(hasher.finish(), hex_of(&file));
    assert_eq!(root_hash(&vec![file.clone()]), hex_of(&file));
}

/// Streams `file` out in reads of at most `step` bytes.
fn stream(file: &[u8], step: usize) -> Vec<(ChunkHeader, Vec<u8>)> {
    let (mut stream, mut action) = ChunkStream::new(file.len() as u64);
    let mut pos = 0;
    let mut sent = Vec::new();
    loop {
        let event = match action {
            StreamAction::Read { max } => {
                let n = max.min(step).min(file.len() - pos);
                let bytes = file[pos..pos + n].to_vec();
                pos += n;
                StreamEvent::Read(bytes)
            }
            StreamAction::Reply { header, payload } => {
                sent.push((header, payload));
                StreamEvent::Sent
            }
            StreamAction::Done(r) => {
                r.expect("stream ends well");
                return sent;
            }
        };
        action = stream.step(event);
    }
}

#[test]
fn a_file_is_cut_into_chunks() {
    let file = payload(2 * CHUNK_SIZE + 4096);
    for step in [CHUNK_SIZE, 300_000, usize::MAX] {
        let sent = stream(&file, step);
        assert_eq!(sent.len(), 3);
        for (k, (header, bytes)) in sent.iter().enumerate() {
            let start = k * CHUNK_SIZE;
            let end = (start + CHUNK_SIZE).min(file.len());
            assert_eq!(header.offset, start as u64);
            assert_eq!(bytes[..], file[start..end]);
            assert_eq!(header.len as usize, bytes.len());
            assert_eq!(header.chunk_hash, hex_of(bytes));
            assert_eq!(header.last, k == 2);
        }
    }
    assert_eq!(stream(&payload(CHUNK_SIZE), CHUNK_SIZE).len(), 1);
    assert!(stream(&payload(CHUNK_SIZE), CHUNK_SIZE)[0].0.last);
    assert_eq!(stream(&[], CHUNK_SIZE).len(), 0);
}

#[test]
fn a_file_that_shrinks_has_no_last_chunk() {
    let (mut s, action) = ChunkStream::new(10);
    assert!(matches!(action, StreamAction::Read { max: CHUNK_SIZE }));
    let action = s.step(StreamEvent::Read(vec![1, 2, 3]));
    assert!(matches!(action, StreamAction::Read { max } if max == CHUNK_SIZE - 3));
    match s.step(StreamEvent::Read(vec![])) {
        StreamAction::Reply { header, payload } => {
            assert!(!header.last);
            assert_eq!(payload, vec![1, 2, 3]);
        }
        _ => panic!("nothing sent"),
    }
    assert!(matches!(s.step(StreamEvent::Sent), StreamAction::Done(Ok(()))));
}

#[test]
fn stream_failures() {
    let text = |event: StreamEvent| {
        let (mut s, _) = ChunkStream::new(1);
        let action = match event {
            StreamEvent::IoFailed(_) => s.step(event),
            _ => {
                s.step(StreamEvent::Read(vec![1]));
                s.step(event)
            }
        };
        match action {
            StreamAction::Done(Err(e)) => e.to_text(),
            _ => panic!("not ended"),
        }
    };
    assert_eq!(
        text(StreamEvent::EncodeFailed("e".to_owned())),
        "transport: encoding chunk header: e"
    );
    assert_eq!(text(StreamEvent::ReplyFailed("r".to_owned())), "transport: reply: r");
    let io = std::io::Error::new(std::io::ErrorKind::Other, "bad sector");
    assert_eq!(text(StreamEvent::IoFailed(io)), "io: bad sector");
}

/// A cache directory in memory.
struct Disk {
    cache: Option<Vec<u8>>,
    temp: Option<Vec<u8>>,
    read: usize,
}

fn run(pull: &mut Pull, first: PullAction, disk: &mut Disk, replies: Vec<Reply>) -> Result<(), TransferError> {
    let mut replies = replies.into_iter();
    let mut action = first;
    loop {
        let event = match action {
            PullAction::Prepare => PullEvent::Prepared { cached: disk.cache.is_some() },
            PullAction::OpenTemp => {
                disk.temp = Some(Vec::new());
                PullEvent::Opened
            }
            PullAction::Query => PullEvent::Queried,
            PullAction::Receive => match replies.next() {
                Some(reply) => PullEvent::Reply(reply),
                None => PullEvent::RepliesEnded,
            },
            PullAction::Write { offset, bytes } => {
                let temp = disk.temp.as_mut().expect("open");
                let start = usize::try_from(offset).expect("fits");
                if temp.len() < start + bytes.len() {
                    temp.resize(start + bytes.len(), 0);
                }
                temp[start..start + bytes.len()].copy_from_slice(&bytes);
                PullEvent::Wrote
            }
            PullAction::Flush => {
                disk.read = 0;
                PullEvent::Flushed
            }
            PullAction::ReadTemp => {
                let temp = disk.temp.as_ref().expect("open");
                let end = (disk.read + 700_000).min(temp.len());
                let bytes = temp[disk.read..end].to_vec();
                disk.read = end;
                PullEvent::Read(bytes)
            }
            PullAction::RemoveTemp => {
                disk.temp = None;
                PullEvent::Removed
            }
            PullAction::Rename => {
                disk.cache = disk.temp.take();
                PullEvent::Renamed
            }
            PullAction::Done(r) => return r,
        };
        action = pull.step(event);
    }
}

fn pull_of(digest: &str, replies: Vec<Reply>) -> (Result<(), TransferError>, Disk) {
    let mut disk = Disk { cache: None, temp: Some(b"left over".to_vec()), read: 0 };
    let (mut pull, action) = Pull::new(PeerId::from_bytes([0; 32]), digest);
    let r = run(&mut pull, action, &mut disk, replies);
    (r, disk)
}

fn reply(chunk: &(ChunkHeader, Vec<u8>)) -> Reply {
    Reply::Chunk { header: Ok(chunk.0.clone()), payload: chunk.1.clone() }
}

#[test]
fn serve_and_pull_roundtrip_on_loopback() {
    let payload = payload(2 * CHUNK_SIZE + 4096);
    let digest = hex_of(&payload);
    let mut sender = TransferService::new("sender");
    sender.register(digest.clone(), "model.bin");
    let receiver = TransferService::new("receiver");
    let mut job = receiver.pull(PeerId::from_bytes([0; 32]), &digest);
    match sender.serve(&job.pull.selector()) {
        Answer::Stream { digest: d, path } => {
            assert_eq!(d, digest);
            assert_eq!(*path, "model.bin");
        }
        _ => panic!("not served"),
    }
    let replies = stream(&payload, CHUNK_SIZE).iter().map(reply).collect();
    let mut disk = Disk { cache: None, temp: None, read: 0 };
    run(&mut job.pull, job.action, &mut disk, replies).expect("pull ok");
    assert_eq!(disk.cache, Some(payload));
    assert_eq!(disk.temp, None);
    assert_eq!(job.pull.final_name(), digest, "should rename into cache_dir/<digest>");
}

#[test]
fn pull_missing_digest_returns_peer_missing() {
    let (r, disk) = pull_of(&"a".repeat(64), vec![]);
    let err = r.expect_err("should fail with no peer hosting");
    assert!(matches!(err, TransferError::PeerMissing { .. }), "{err:?}");
    assert_eq!(
        err.to_text(),
        format!("peer {} does not have digest {}", "00".repeat(32), "a".repeat(64))
    );
    assert!(disk.cache.is_none());
    assert!(disk.temp.is_none());
}

#[test]
fn chunks_may_come_in_any_order_and_twice() {
    let file = payload(3 * CHUNK_SIZE + 1);
    let chunks = stream(&file, CHUNK_SIZE);
    for order in [vec![3, 0, 2, 1], vec![0, 0, 1, 3, 2, 3], vec![2, 1, 0, 3]] {
        let replies = order.iter().map(|&k| reply(&chunks[k])).collect();
        let (r, disk) = pull_of(&hex_of(&file), replies);
        r.expect("pull ok");
        assert_eq!(disk.cache, Some(file.clone()));
    }
}

#[test]
fn a_missing_chunk_fails_the_root_check() {
    let file = payload(2 * CHUNK_SIZE + 5);
    let chunks = stream(&file, CHUNK_SIZE);
    let (r, disk) = pull_of(&hex_of(&file), vec![reply(&chunks[0]), reply(&chunks[2])]);
    match r {
        Err(TransferError::RootVerify { expected, actual }) => {
            assert_eq!(expected, hex_of(&file));
            assert_ne!(actual, expected);
            let e = TransferError::RootVerify { expected: "e".to_owned(), actual: "a".to_owned() };
            assert_eq!(e.to_text(), "root verify failed: expected e, got a");
        }
        other => panic!("{other:?}"),
    }
    assert!(disk.cache.is_none() && disk.temp.is_none());
    let (r, disk) = pull_of(&hex_of(&file), vec![reply(&chunks[0]), reply(&chunks[1])]);
    assert_eq!(
        r.unwrap_err().to_text(),
        "malformed reply: stream ended without a final chunk"
    );
    assert!(disk.cache.is_none() && disk.temp.is_none());
}

#[test]
fn bad_replies_end_the_pull() {
    let file = payload(100);
    let chunk = &stream(&file, CHUNK_SIZE)[0];
    let text = |reply: Reply| {
        let (r, disk) = pull_of(&hex_of(&file), vec![reply]);
        assert!(disk.cache.is_none());
        assert!(disk.temp.is_some());
        r.unwrap_err().to_text()
    };
    assert_eq!(text(Reply::Refused("no".to_owned())), "transport: reply error: no");
    assert_eq!(text(Reply::Bare), "malformed reply: reply missing chunk-header attachment");
    assert_eq!(
        text(Reply::Chunk { header: Err("eof".to_owned()), payload: vec![] }),
        "malformed reply: decoding chunk header: eof"
    );
    assert_eq!(text(tampered(chunk)), "chunk verify failed at offset 0");
}

fn tampered(chunk: &(ChunkHeader, Vec<u8>)) -> Reply {
    let mut bytes = chunk.1.clone();
    bytes[0] ^= 1;
    Reply::Chunk { header: Ok(chunk.0.clone()), payload: bytes }
}

#[test]
fn replies_after_a_complete_file_change_nothing() {
    let file = payload(2 * CHUNK_SIZE + 9);
    let chunks = stream(&file, CHUNK_SIZE);
    let other = stream(&vec![7; 3 * CHUNK_SIZE], CHUNK_SIZE);
    let late: Vec<fn(&[(ChunkHeader, Vec<u8>)]) -> Reply> = vec![
        |c| tampered(&c[0]),
        |c| reply(&c[1]),
        |_| Reply::Refused("no".to_owned()),
        |_| Reply::Bare,
        |_| Reply::Chunk { header: Err("eof".to_owned()), payload: vec![] },
    ];
    for order in [[0, 1, 2], [2, 1, 0], [1, 2, 0]] {
        for extra in &late {
            let mut replies: Vec<Reply> = order.iter().map(|&k| reply(&chunks[k])).collect();
            replies.push(extra(&other));
            let (r, disk) = pull_of(&hex_of(&file), replies);
            r.expect("whoever completes the file first wins");
            assert_eq!(disk.cache, Some(file.clone()));
            assert!(disk.temp.is_none());
        }
    }
}

#[test]
fn a_bad_chunk_before_the_file_is_complete_ends_the_pull() {
    let file = payload(2 * CHUNK_SIZE + 9);
    let chunks = stream(&file, CHUNK_SIZE);
    let replies = vec![reply(&chunks[2]), reply(&chunks[0]), tampered(&chunks[1]), reply(&chunks[1])];
    let (r, disk) = pull_of(&hex_of(&file), replies);
    assert!(matches!(
        r,
        Err(TransferError::ChunkVerify { offset }) if offset == CHUNK_SIZE as u64
    ));
    assert!(disk.cache.is_none());
}

#[test]
fn a_complete_file_is_flushed_at_once() {
    let chunk = &stream(&payload(10), CHUNK_SIZE)[0];
    let (mut p, _) = Pull::new(PeerId::from_bytes([0; 32]), "abc");
    p.step(PullEvent::Prepared { cached: false });
    p.step(PullEvent::Opened);
    p.step(PullEvent::Queried);
    assert!(matches!(p.step(PullEvent::Reply(reply(chunk))), PullAction::Write { offset: 0, .. }));
    assert!(matches!(p.step(PullEvent::Wrote), PullAction::Flush));
}

#[test]
fn no_failure_leaves_a_cache_entry() {
    let io = || PullEvent::IoFailed(std::io::Error::new(std::io::ErrorKind::Other, "full"));
    let file = payload(10);
    let chunk = &stream(&file, CHUNK_SIZE)[0];
    let way = || {
        vec![
            PullEvent::Prepared { cached: false },
            PullEvent::Opened,
            PullEvent::Queried,
            PullEvent::Reply(reply(chunk)),
            PullEvent::Wrote,
            PullEvent::Flushed,
            PullEvent::Read(file.clone()),
            PullEvent::Read(vec![]),
        ]
    };
    for at in [0, 1, 4, 5, 6, 7, 8] {
        let (mut p, _) = Pull::new(PeerId::from_bytes([0; 32]), &hex_of(&file));
        for event in way().into_iter().take(at) {
            assert!(!matches!(p.step(event), PullAction::Done(_)));
        }
        assert!(matches!(p.step(io()), PullAction::Done(Err(TransferError::Io(_)))));
    }
}

#[test]
fn coverage_reaches_as_far_as_there_is_no_gap() {
    let mut c = Coverage::new();
    assert!(c.reaches(0) && !c.reaches(1));
    c.add(5, 9);
    c.add(12, 20);
    c.add(9, 12);
    assert!(!c.reaches(1));
    c.add(2, 2);
    c.add(0, 4);
    assert!(c.reaches(4) && !c.reaches(5));
    c.add(3, 6);
    assert!(c.reaches(20) && !c.reaches(21));
    c.add(1, 3);
    assert!(c.reaches(20) && !c.reaches(21));
}

#[test]
fn a_cached_artefact_is_not_fetched() {
    let mut disk = Disk { cache: Some(vec![1]), temp: None, read: 0 };
    let (mut pull, action) = Pull::new(PeerId::from_bytes([0; 32]), "d");
    run(&mut pull, action, &mut disk, vec![Reply::Bare]).expect("cached");
    assert_eq!(disk.cache, Some(vec![1]));
}

#[test]
fn an_empty_file_cannot_be_pulled() {
    let replies: Vec<Reply> = stream(&[], CHUNK_SIZE).iter().map(reply).collect();
    let (r, _) = pull_of(&hex_of(b""), replies);
    assert!(matches!(r, Err(TransferError::PeerMissing { .. })));
}

#[test]
fn failures_around_a_pull() {
    let start = || Pull::new(PeerId::from_bytes([0; 32]), "abc").0;
    let io = || std::io::Error::new(std::io::ErrorKind::Other, "full");
    let text = |action: PullAction| match action {
        PullAction::Done(Err(e)) => e.to_text(),
        _ => panic!("not ended"),
    };
    assert_eq!(text(start().step(PullEvent::IoFailed(io()))), "io: full");
    let mut p = start();
    p.step(PullEvent::Prepared { cached: false });
    p.step(PullEvent::Opened);
    assert_eq!(
        text(p.step(PullEvent::QueryFailed("closed".to_owned()))),
        "transport: get furcate/mesh/transfer/abc: closed"
    );
    assert_eq!(p.selector(), "furcate/mesh/transfer/abc");
    assert_eq!(p.partial_name(), "abc.partial");
    assert_ne!(p.partial_name(), p.final_name());
    assert_eq!(p.final_name(), "abc");
}

#[test]
fn the_service_hosts_what_was_registered() {
    let mut service = TransferService::new("cache".to_owned());
    assert_eq!(service.cache_dir(), "cache");
    service.register("d1".to_owned(), "p1".to_owned());
    service.register("d2".to_owned(), "p2".to_owned());
    service.register("d1".to_owned(), "p3".to_owned());
    let path = |digest: &str| match service.serve(&format!("{TRANSFER_ROOT}/{digest}")) {
        Answer::Stream { path, .. } => Some(path.clone()),
        _ => None,
    };
    assert_eq!(path("d1"), Some("p3".to_owned()));
    assert_eq!(path("d2"), Some("p2".to_owned()));
    assert_eq!(path("d3"), None);
    assert!(matches!(
        service.serve("furcate/mesh/transfer/x"),
        Answer::NotHosted { digest: "x" }
    ));
    assert!(matches!(service.serve("furcate/mesh/transfer"), Answer::NoDigest));
    assert_eq!(TransferService::<String>::queryable_key(), "furcate/mesh/transfer/*");
    assert_eq!(
        TransferService::<String>::serve_error("shut").to_text(),
        "transport: declare_queryable furcate/mesh/transfer/*: shut"
    );
}

/// Serves `key`; a stream ends as `outcome` says. Gives the path that is streamed.
fn serve_one(
    service: &TransferService<String>,
    key: &str,
    outcome: Result<(), TransferError>,
) -> Option<String> {
    match service.serve_step(ServeEvent::Query(key)) {
        ServeAction::Stream { path, .. } => {
            let failed = outcome.is_err();
            match service.serve_step(ServeEvent::Streamed(outcome)) {
                ServeAction::Receive(ServeNote::StreamFailed(_)) => assert!(failed),
                ServeAction::Receive(ServeNote::Nothing) => assert!(!failed),
                _ => panic!("not waiting for the next query"),
            }
            Some(path.clone())
        }
        ServeAction::Receive(_) => None,
        ServeAction::Stop => panic!("serving ended"),
    }
}

#[test]
fn serving_goes_on_after_what_it_cannot_answer() {
    let key = |digest: &str| format!("{TRANSFER_ROOT}/{digest}");
    let io = || TransferError::Io(std::io::Error::new(std::io::ErrorKind::Other, "gone"));
    let mut service = TransferService::new("cache".to_owned());
    service.register("d1".to_owned(), "p1".to_owned());
    assert_eq!(serve_one(&service, &key("d1"), Err(io())), Some("p1".to_owned()));
    assert_eq!(serve_one(&service, "elsewhere", Ok(())), None);
    assert_eq!(serve_one(&service, &key("d2"), Ok(())), None);
    assert_eq!(serve_one(&service, &key("d1"), Ok(())), Some("p1".to_owned()));
    service.register("d2".to_owned(), "p2".to_owned());
    service.register("d1".to_owned(), "p3".to_owned());
    assert_eq!(serve_one(&service, &key("d2"), Err(io())), Some("p2".to_owned()));
    assert_eq!(serve_one(&service, &key("d1"), Ok(())), Some("p3".to_owned()));
    assert!(matches!(
        service.serve_step(ServeEvent::Query("elsewhere")),
        ServeAction::Receive(ServeNote::NoDigest)
    ));
    assert!(matches!(
        service.serve_step(ServeEvent::Query(&key("d9"))),
        ServeAction::Receive(ServeNote::NotHosted { digest: "d9" })
    ));
    match service.serve_step(ServeEvent::Streamed(Err(io()))) {
        ServeAction::Receive(ServeNote::StreamFailed(e)) => assert_eq!(e.to_text(), "io: gone"),
        _ => panic!("failure not noted"),
    }
    assert!(matches!(service.serve_step(ServeEvent::Closed), ServeAction::Stop));
}

#[test]
fn pull_options() {
    assert_eq!(DEFAULT_PULL_TIMEOUT, 300_000_000_000);
    assert_eq!(PullOptions::default().timeout, DEFAULT_PULL_TIMEOUT);
    let service = TransferService::new(());
    assert_eq!(service.pull(PeerId::from_bytes([1; 32]), "d").options.timeout, DEFAULT_PULL_TIMEOUT);
    let job = service.pull_with_options(PeerId::from_bytes([1; 32]), "d", PullOptions { timeout: 5 });
    assert_eq!(job.options.timeout, 5);
    assert!(matches!(job.action, PullAction::Prepare));
    assert_eq!(job.pull.final_name(), "d");
}
