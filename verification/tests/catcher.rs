use streamcatcher::{Catcher, IoFailure, SeekFrom, TxCatcher, Identity, ReadSkipExt, Source, Transform};

fn bytes<T: Source, Tx: Transform<T>>(mut catcher: TxCatcher<T, Tx>) -> Vec<u8> {
    let mut out = vec![];
    let mut byte = [0u8; 1];
    loop {
        match catcher.read(&mut byte) {
            Ok(0) => break,
            Ok(_) => out.push(byte[0]),
            Err(e) => panic!("{:?}", e),
        }
    }
    out
}

#[test]
fn catcher_identity() {
    const INPUT: [u8; 8] = [1, 2, 3, 4, 5, 6, 7, 8];

    let catcher = Catcher::new(&INPUT[..], None).unwrap();

    let out = bytes(catcher);

    assert_eq!(out[..], INPUT[..]);
}

#[test]
fn finalises() {
    const INPUT: [u8; 8] = [1, 2, 3, 4, 5, 6, 7, 8];

    let mut catcher = Catcher::new(&INPUT[..], None).unwrap();

    catcher.load_all();

    assert!(catcher.is_finalised());
}

#[test]
fn catcher_seek_start() {
    const INPUT: [u8; 8] = [1, 2, 3, 4, 5, 6, 7, 8];

    let mut catcher = Catcher::new(&INPUT[..], None).unwrap();

    let _ = bytes(catcher.new_handle());

    const START: usize = 3;

    let pos = catcher.seek(SeekFrom::Start(START as u64));

    assert!(pos.is_ok());
    if let Ok(start) = pos {
        assert_eq!(start as usize, START);
    }

    let out = bytes(catcher);

    assert_eq!(out[..], INPUT[START..]);
}

#[test]
fn catcher_seek_end() {
    const INPUT: [u8; 8] = [1, 2, 3, 4, 5, 6, 7, 8];

    let mut catcher = Catcher::new(&INPUT[..], None).unwrap();

    let _ = bytes(catcher.new_handle());

    const END: usize = 3;

    let pos = catcher.seek(SeekFrom::End(-(END as i64)));

    assert!(pos.is_ok());
    if let Ok(start) = pos {
        assert_eq!(start as usize, INPUT.len() - END);
    }

    let out = bytes(catcher);

    assert_eq!(out[..], INPUT[INPUT.len() - END..]);
}

#[test]
fn catcher_read_after_complete() {
    const INPUT: [u8; 8] = [1, 2, 3, 4, 5, 6, 7, 8];

    let catcher = Catcher::new(&INPUT[..], None).unwrap();
    let catcher_clone = catcher.new_handle();

    let out_1 = bytes(catcher_clone);
    let out_2 = bytes(catcher);

    assert_eq!(out_1[..], INPUT[..]);
    assert_eq!(out_2[..], INPUT[..]);
}

#[test]
fn seek_without_prior_read_loads_lazily() {
    const INPUT: [u8; 8] = [1, 2, 3, 4, 5, 6, 7, 8];
    let mut catcher: TxCatcher<&[u8], Identity> = Catcher::new(&INPUT[..], None).unwrap();
    assert!(!catcher.is_empty());
    assert_eq!(catcher.seek(SeekFrom::Start(6)).unwrap(), 6);
    assert_eq!(catcher.pos(), 6);
    assert_eq!(bytes(catcher), vec![7, 8]);
}

#[test]
fn seek_past_end_settles_at_end() {
    const INPUT: [u8; 4] = [9, 8, 7, 6];
    let mut catcher = Catcher::new(&INPUT[..], None).unwrap();
    assert_eq!(catcher.seek(SeekFrom::Start(100)).unwrap(), 4);
    assert_eq!(catcher.seek(SeekFrom::End(10)).unwrap(), 4);
    assert_eq!(catcher.seek(SeekFrom::Current(-1)).unwrap(), 3);
    assert_eq!(bytes(catcher), vec![6]);
}

#[test]
fn seek_before_start_is_invalid_input() {
    const INPUT: [u8; 4] = [9, 8, 7, 6];
    let mut catcher = Catcher::new(&INPUT[..], None).unwrap();
    assert_eq!(catcher.seek(SeekFrom::Start(2)).unwrap(), 2);
    let err = catcher.seek(SeekFrom::Current(-3)).unwrap_err();
    assert_eq!(err.kind(), IoFailure::InvalidInput);
    assert_eq!(err.into_io().kind(), std::io::ErrorKind::InvalidInput);
    assert_eq!(catcher.pos(), 2);
    let err = catcher.seek(SeekFrom::End(-5)).unwrap_err();
    assert_eq!(err.kind(), IoFailure::InvalidInput);
    assert_eq!(err.into_io().kind(), std::io::ErrorKind::InvalidInput);
    assert_eq!(catcher.seek(SeekFrom::End(-4)).unwrap(), 0);
}

#[test]
fn handles_share_one_stream() {
    const INPUT: [u8; 6] = [10, 20, 30, 40, 50, 60];
    let mut first = Catcher::new(&INPUT[..], None).unwrap();
    let mut buf = [0u8; 4];
    assert_eq!(first.read(&mut buf).unwrap(), 4);
    assert_eq!(buf, [10, 20, 30, 40]);
    assert_eq!(first.pos(), 4);

    let copy = first.clone();
    assert_eq!(copy.pos(), 4);
    let fresh = first.new_handle();
    assert_eq!(fresh.pos(), 0);
    assert_eq!(bytes(copy), vec![50, 60]);
    assert_eq!(bytes(fresh), INPUT.to_vec());
    assert!(first.is_finished());
    assert_eq!(first.len(), 6);
}

#[test]
fn load_all_keeps_position() {
    const INPUT: [u8; 5] = [1, 1, 2, 3, 5];
    let mut catcher = Catcher::new(&INPUT[..], None).unwrap();
    let mut buf = [0u8; 2];
    assert_eq!(catcher.read(&mut buf).unwrap(), 2);
    catcher.load_all();
    assert_eq!(catcher.pos(), 2);
    assert!(catcher.is_finished());
    assert_eq!(catcher.len(), 5);
    assert_eq!(bytes(catcher), vec![2, 3, 5]);
}

#[test]
fn empty_source_reads_nothing() {
    let input: [u8; 0] = [];
    let mut catcher = Catcher::new(&input[..], None).unwrap();
    let mut buf = [7u8; 3];
    assert_eq!(catcher.read(&mut buf).unwrap(), 0);
    assert_eq!(buf, [7, 7, 7]);
    assert!(catcher.is_finished());
    assert!(!catcher.is_empty());
}

struct Repeat {
    byte: u8,
    left: usize,
}

impl Source for Repeat {
    fn read_into(&mut self, buf: &mut [u8]) -> std::io::Result<usize> {
        let n = buf.len().min(self.left);
        for b in buf[..n].iter_mut() {
            *b = self.byte;
        }
        self.left -= n;
        Ok(n)
    }
}

fn drain_count<T: Source, Tx: Transform<T>>(catcher: &mut TxCatcher<T, Tx>) -> usize {
    let mut buf = [0u8; 4096];
    let mut total = 0;
    loop {
        match catcher.read(&mut buf) {
            Ok(0) => return total,
            Ok(n) => {
                assert!(buf[..n].iter().all(|&b| b == 0xAC));
                total += n;
            },
            Err(e) => panic!("{:?}", e),
        }
    }
}

#[test]
fn many_handles_then_seek_both_ways() {
    const LEN: usize = 100_000;
    let mut catcher: TxCatcher<Repeat, Identity> =
        TxCatcher::new(Repeat { byte: 0xAC, left: LEN }, None).unwrap();

    for _ in 0..8 {
        let mut handle = catcher.new_handle();
        assert_eq!(drain_count(&mut handle), LEN);
    }

    // Moving forwards and backwards just works.
    assert_eq!(catcher.seek(SeekFrom::End(0)).unwrap(), LEN as u64);
    assert_eq!(drain_count(&mut catcher), 0);

    assert_eq!(catcher.seek(SeekFrom::Current(-256)).unwrap(), (LEN - 256) as u64);
    assert_eq!(drain_count(&mut catcher), 256);
}

#[test]
fn seek_there_and_back() {
    const INPUT: [u8; 8] = [1, 2, 3, 4, 5, 6, 7, 8];
    let mut catcher = Catcher::new(&INPUT[..], None).unwrap();
    assert_eq!(catcher.seek(SeekFrom::Start(2)).unwrap(), 2);
    assert_eq!(catcher.seek(SeekFrom::Current(3)).unwrap(), 5);
    assert_eq!(catcher.seek(SeekFrom::Current(-3)).unwrap(), 2);
    assert_eq!(catcher.seek(SeekFrom::Current(0)).unwrap(), 2);
    assert_eq!(catcher.seek(SeekFrom::End(0)).unwrap(), 8);
}

#[test]
fn empty_buffer_reads_nothing() {
    const INPUT: [u8; 3] = [1, 2, 3];
    let mut catcher = Catcher::new(&INPUT[..], None).unwrap();
    let mut empty: [u8; 0] = [];
    assert_eq!(catcher.read(&mut empty).unwrap(), 0);
    assert_eq!(catcher.pos(), 0);
    assert!(!catcher.is_empty());
    assert_eq!(bytes(catcher), INPUT.to_vec());
}

#[test]
fn skip_works_on_any_source() {
    let data = [1u8, 2, 3, 4, 5];
    let mut src: &[u8] = &data[..];
    assert_eq!(ReadSkipExt::skip(&mut src, 3), 3);
    assert_eq!(src, &[4u8, 5][..]);
    assert_eq!(ReadSkipExt::skip(&mut src, 10), 2);
    assert_eq!(ReadSkipExt::skip(&mut src, 1), 0);
}

#[test]
fn seek_past_end_settles_at_stored_end() {
    const INPUT: [u8; 4] = [9, 8, 7, 6];
    let mut catcher = Catcher::new(&INPUT[..], None).unwrap();
    assert_eq!(catcher.seek(SeekFrom::Start(100)).unwrap(), 4);
    assert_eq!(catcher.pos(), 4);
    assert_eq!(catcher.len(), 4);
    assert!(catcher.is_finished());
    assert_eq!(catcher.seek(SeekFrom::Current(-3)).unwrap(), 1);
    assert!(catcher.seek(SeekFrom::Current(-2)).is_err());
    assert_eq!(catcher.pos(), 1);
}
