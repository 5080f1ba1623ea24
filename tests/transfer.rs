use lanshare::{
    check_answer, decision_byte, decode_length, frame_header, get_network_interfaces,
    interface_broadcasts, local_addresses, total_size, FileMetadata, FileProgress,
    InterfaceAddress, TransferError, BatchProgress, BatchStep, ACCEPT_BYTE, CHUNK_LEN, REJECT_BYTE,
};

fn meta(name: &str, size: u64) -> FileMetadata {
    FileMetadata { name: name.to_string(), size }
}

/// Moves `data` through a `FileProgress` in chunks of at most `chunk`,
/// returning what arrived and the progress pairs (bytes so far, size) reported, or the error.
fn stream(size: u64, data: &[u8], chunk: usize) -> Result<(Vec<u8>, Vec<(u64, u64)>), TransferError> {
    let mut progress = FileProgress::new(size);
    let mut received = Vec::new();
    let mut events = Vec::new();
    let mut pos = 0usize;
    while !progress.is_complete() {
        let want = progress.chunk_len(chunk);
        let n = want.min(data.len() - pos);
        match progress.record(n) {
            None => return Err(TransferError::ConnectionAborted),
            Some(p) => events.push(p),
        }
        received.extend_from_slice(&data[pos..pos + n]);
        pos += n;
    }
    Ok((received, events))
}

/// What a receiver holds after reading `body` for the batch `files`.
struct Outcome {
    written: Vec<Vec<u8>>,
    progress: Vec<Vec<(u64, u64)>>,
    completed: Vec<usize>,
    result: Result<(), TransferError>,
}

fn receive_batch(files: &Vec<FileMetadata>, body: &[u8], chunk: usize) -> Outcome {
    let mut batch = BatchProgress::new(files);
    let mut out = Outcome { written: vec![], progress: vec![], completed: vec![], result: Ok(()) };
    let mut pos = 0usize;
    loop {
        match batch.next_step(chunk) {
            BatchStep::Open(k) => {
                assert_eq!(k, out.written.len());
                out.written.push(vec![]);
                out.progress.push(vec![]);
                batch.opened();
            }
            BatchStep::Transfer { file, max } => {
                let n = max.min(body.len() - pos);
                match batch.record(n) {
                    None => {
                        out.result = Err(TransferError::ConnectionAborted);
                        return out;
                    }
                    Some(p) => out.progress[file].push(p),
                }
                out.written[file].extend_from_slice(&body[pos..pos + n]);
                pos += n;
            }
            BatchStep::Close(k) => {
                out.completed.push(k);
                batch.closed();
            }
            BatchStep::Finished => return out,
        }
    }
}

#[test]
fn batch_walks_files_in_order() {
    let files = vec![meta("a", 3), meta("b", 0)];
    let mut batch = BatchProgress::new(&files);
    assert_eq!(batch.next_step(2), BatchStep::Open(0));
    batch.opened();
    assert_eq!(batch.next_step(2), BatchStep::Transfer { file: 0, max: 2 });
    assert_eq!(batch.record(2), Some((2, 3)));
    assert_eq!(batch.next_step(2), BatchStep::Transfer { file: 0, max: 1 });
    assert_eq!(batch.record(1), Some((3, 3)));
    assert_eq!(batch.next_step(2), BatchStep::Close(0));
    batch.closed();
    assert_eq!(batch.next_step(2), BatchStep::Open(1));
    batch.opened();
    assert_eq!(batch.next_step(2), BatchStep::Close(1));
    batch.closed();
    assert_eq!(batch.next_step(2), BatchStep::Finished);
    assert_eq!(BatchProgress::new(&vec![]).next_step(2), BatchStep::Finished);
}

#[test]
fn two_file_batch_end_to_end() {
    let files = vec![meta("ten.bin", 10), meta("empty.bin", 0)];
    let body: Vec<u8> = (0u8..10).collect();
    let out = receive_batch(&files, &body, CHUNK_LEN);
    assert_eq!(out.result, Ok(()));
    assert_eq!(out.written.len(), 2);
    assert_eq!(out.written[0], body);
    assert!(out.written[1].is_empty());
    assert_eq!(out.completed, vec![0, 1]);
    assert_eq!(out.progress[0], vec![(10, 10)]);
    assert!(out.progress[1].is_empty());
}

#[test]
fn half_sent_batch_keeps_earlier_files() {
    let files = vec![meta("first", 4), meta("second", 10)];
    let body = [7u8; 9];
    let out = receive_batch(&files, &body, CHUNK_LEN);
    assert_eq!(out.result, Err(TransferError::ConnectionAborted));
    assert_eq!(out.completed, vec![0]);
    assert_eq!(out.written[0], vec![7; 4]);
    assert_eq!(out.written[1], vec![7; 5]);
}

#[test]
fn header_is_length_prefixed() {
    let framed = frame_header(&b"[]".to_vec());
    assert_eq!(framed, vec![0, 0, 0, 0, 0, 0, 0, 2, b'[', b']']);
    let mut prefix = [0u8; 8];
    prefix.copy_from_slice(&framed[..8]);
    assert_eq!(decode_length(&prefix), 2);
}

#[test]
fn length_prefix_is_big_endian() {
    assert_eq!(decode_length(&[0, 0, 0, 0, 0, 0, 1, 0]), 256);
    assert_eq!(decode_length(&[1, 2, 3, 4, 5, 6, 7, 8]), 0x0102030405060708);
    assert_eq!(decode_length(&[255; 8]), u64::MAX);
    let body = vec![7u8; 300];
    let framed = frame_header(&body);
    assert_eq!(&framed[..8], &300u64.to_be_bytes());
    assert_eq!(&framed[8..], &body[..]);
}

#[test]
fn handshake_bytes() {
    assert_eq!(decision_byte(Some(true)), ACCEPT_BYTE);
    assert_eq!(decision_byte(Some(false)), REJECT_BYTE);
    assert_eq!(decision_byte(None), REJECT_BYTE);
    assert_eq!(check_answer(1), Ok(()));
    assert_eq!(check_answer(0), Err(TransferError::Rejected));
    assert_eq!(check_answer(2), Err(TransferError::Rejected));
    assert_eq!(TransferError::Rejected.message(), "File transfer rejected by recipient");
    assert_eq!(TransferError::ConnectionAborted.message(), "Connection closed prematurely");
}

#[test]
fn total_size_sums_and_detects_overflow() {
    assert_eq!(total_size(&vec![meta("a", 10), meta("b", 0)]), Ok(10));
    assert_eq!(total_size(&vec![]), Ok(0));
    assert_eq!(total_size(&vec![meta("a", u64::MAX), meta("b", 0)]), Ok(u64::MAX));
    assert_eq!(total_size(&vec![meta("a", u64::MAX), meta("b", 1)]), Err(TransferError::SizeOverflow));
    assert_eq!(TransferError::SizeOverflow.message(), "Declared file sizes overflow");
}

#[test]
fn progress_rises_with_every_chunk() {
    let mut p = FileProgress::new(1000);
    assert_eq!(p.record(1), Some((1, 1000)));
    assert_eq!(p.record(1), Some((2, 1000)));
    let mut big = FileProgress::new(u64::MAX);
    assert_eq!(big.record(7), Some((7, u64::MAX)));
}

#[test]
fn chunks_never_pass_the_declared_size() {
    let p = FileProgress::new(10);
    assert_eq!(p.chunk_len(4), 4);
    assert_eq!(p.chunk_len(CHUNK_LEN), 10);
    assert_eq!(stream(10, &[1; 10], 4).unwrap().1, vec![(4, 10), (8, 10), (10, 10)]);
}

#[test]
fn two_file_batch_accepted() {
    // Sender side: header for a 10-byte and a 0-byte file.
    let files = vec![meta("ten.bin", 10), meta("empty.bin", 0)];
    let json = br#"[{"name":"ten.bin","size":10},{"name":"empty.bin","size":0}]"#.to_vec();
    let header = frame_header(&json);
    let mut prefix = [0u8; 8];
    prefix.copy_from_slice(&header[..8]);
    assert_eq!(decode_length(&prefix) as usize, json.len());
    assert_eq!(total_size(&files), Ok(10));
    // Receiver accepts.
    assert_eq!(check_answer(decision_byte(Some(true))), Ok(()));
    let body: Vec<u8> = (0u8..10).collect();
    let (first, first_events) = stream(files[0].size, &body, CHUNK_LEN).unwrap();
    assert_eq!(first, body);
    assert_eq!(first_events, vec![(10, 10)]);
    let (second, second_events) = stream(files[1].size, &[], CHUNK_LEN).unwrap();
    assert!(second.is_empty());
    assert!(second_events.is_empty());
    assert!(FileProgress::new(0).is_complete());
}

#[test]
fn rejected_batch_sends_nothing() {
    let byte = decision_byte(Some(false));
    assert_eq!(check_answer(byte), Err(TransferError::Rejected));
}

#[test]
fn half_sent_file_aborts_the_batch() {
    // The first file completes, the second stops after half its bytes.
    assert!(stream(4, &[9; 4], CHUNK_LEN).is_ok());
    assert_eq!(stream(10, &[1; 5], CHUNK_LEN), Err(TransferError::ConnectionAborted));
    let mut p = FileProgress::new(10);
    assert_eq!(p.record(5), Some((5, 10)));
    assert_eq!(p.record(0), None);
    assert_eq!(p.done(), 5);
    assert_eq!(p.size(), 10);
    assert!(!p.is_complete());
}

fn addr(name: &str, ip: &str, v4: bool, broadcast: Option<&str>) -> InterfaceAddress {
    InterfaceAddress {
        interface_name: name.to_string(),
        ip: ip.to_string(),
        is_ipv4: v4,
        broadcast: broadcast.map(|b| b.to_string()),
    }
}

#[test]
fn interface_choices_skip_loopback_and_end_with_all() {
    let list = vec![
        addr("lo", "127.0.0.1", true, Some("127.255.255.255")),
        addr("eth0", "192.168.1.5", true, Some("192.168.1.255")),
        addr("eth0", "fe80::1", false, None),
        addr("wlan0", "10.0.0.7", true, None),
    ];
    let choices = get_network_interfaces(&list);
    assert_eq!(choices.len(), 2);
    assert_eq!(choices[0].name, "eth0");
    assert_eq!(choices[0].ip, "192.168.1.5");
    assert_eq!(choices[0].broadcast, "192.168.1.255");
    assert_eq!(choices[1].name, "All");
    assert_eq!(choices[1].ip, "255.255.255.255");
    assert_eq!(choices[1].broadcast, "255.255.255.255");
    assert_eq!(
        interface_broadcasts(&list),
        vec!["127.255.255.255".to_string(), "192.168.1.255".to_string()]
    );
    assert_eq!(local_addresses(&list).len(), 4);
    assert_eq!(local_addresses(&list)[2], "fe80::1");
}
