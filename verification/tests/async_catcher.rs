use std::task::Context;
use streamcatcher::{AsyncReadSkipExt, IoFailure, StreamError, Catcher, Config, Finaliser, Progress, SeekFrom, TxCatcher, Identity};

type SliceCatcher<'a> = TxCatcher<&'a [u8], Identity>;

fn read_ready(catcher: &mut SliceCatcher<'_>, buf: &mut [u8]) -> usize {
    let waker = futures::task::noop_waker();
    let mut cx = Context::from_waker(&waker);
    loop {
        match catcher.poll_read_step(&mut cx, buf) {
            Progress::Ready((Ok(n), finalise_here)) => {
                if finalise_here {
                    catcher.finalise_now();
                }
                return n;
            },
            Progress::Ready((Err(e), _)) => panic!("{:?}", e),
            Progress::Pending => {},
        }
    }
}

fn seek_ready(catcher: &mut SliceCatcher<'_>, pos: SeekFrom) -> Result<u64, StreamError> {
    let waker = futures::task::noop_waker();
    let mut cx = Context::from_waker(&waker);
    loop {
        if let Progress::Ready(r) = catcher.poll_seek(&mut cx, pos) {
            return r;
        }
    }
}

#[test]
fn async_identity() {
    const INPUT: [u8; 8] = [1, 2, 3, 4, 5, 6, 7, 8];

    let mut catcher: SliceCatcher = Catcher::new_async(&INPUT[..], None).unwrap();
    let mut space = vec![0u8; INPUT.len()];
    let mut read_in = 0;

    while read_in < space.len() {
        read_in += read_ready(&mut catcher, &mut space[read_in..]);
    }

    assert!(catcher.is_finished());

    assert_eq!(read_in, INPUT.len());
    assert_eq!(space[..], INPUT[..]);
}

#[test]
fn async_load_all() {
    const INPUT: [u8; 8] = [1, 2, 3, 4, 5, 6, 7, 8];

    let mut catcher: SliceCatcher = Catcher::new_async(&INPUT[..], None).unwrap();
    let waker = futures::task::noop_waker();
    let mut cx = Context::from_waker(&waker);
    let mut load = catcher.new_handle().load_all_async();
    loop {
        if let Progress::Ready(_) = load.poll_load(&mut cx) {
            break;
        }
    }

    assert!(catcher.is_finished());

    assert_eq!(catcher.len(), INPUT.len());
    assert_eq!(catcher.pos(), 0);
}

#[test]
fn async_spawn_finalise() {
    let mut input = vec![];
    for i in 0u32..(1 << 20) {
        input.push(i as u8);
    }

    let mut config = Config::new();
    config.spawn_finaliser(Finaliser::NewThread);
    let mut catcher: SliceCatcher = TxCatcher::with_async_tx(&input[..], Identity {}, Some(config)).unwrap();

    let mut space = vec![0u8; input.len() + 1];
    let mut read_in = 0;

    while read_in < input.len() {
        read_in += read_ready(&mut catcher, &mut space[read_in..]);
    }

    assert!(catcher.is_finished());

    assert_eq!(read_in, input.len());
    assert_eq!(space[..input.len()], input[..]);
}

#[test]
fn async_seek_start() {
    const INPUT: [u8; 8] = [1, 2, 3, 4, 5, 6, 7, 8];

    let mut catcher: SliceCatcher = Catcher::new_async(&INPUT[..], None).unwrap();
    let mut space = vec![0u8; INPUT.len()];
    let mut read_in = 0;

    const START: usize = 3;

    let pos = seek_ready(&mut catcher, SeekFrom::Start(START as u64));

    assert!(pos.is_ok());
    if let Ok(start) = pos {
        assert_eq!(start as usize, START);
        assert_eq!(start as usize, catcher.pos());
    }

    while read_in < INPUT.len() {
        match read_ready(&mut catcher, &mut space[read_in..]) {
            0 => break,
            n => read_in += n,
        }
    }

    assert_eq!(space[..read_in], INPUT[START..]);
}

#[test]
fn async_seek_end() {
    const INPUT: [u8; 8] = [1, 2, 3, 4, 5, 6, 7, 8];

    let mut catcher: SliceCatcher = Catcher::new_async(&INPUT[..], None).unwrap();
    let mut space = vec![0u8; INPUT.len()];
    let mut read_in = 0;

    const END: usize = 3;

    let pos = seek_ready(&mut catcher, SeekFrom::End(-(END as i64)));

    assert!(pos.is_ok());
    if let Ok(start) = pos {
        assert_eq!(start as usize, INPUT.len() - END);
        assert_eq!(start as usize, catcher.pos());
    }

    while read_in < INPUT.len() {
        match read_ready(&mut catcher, &mut space[read_in..]) {
            0 => break,
            n => read_in += n,
        }
    }

    assert_eq!(space[..read_in], INPUT[INPUT.len() - END..]);
}

#[test]
fn async_read_after_complete() {
    const INPUT: [u8; 8] = [1, 2, 3, 4, 5, 6, 7, 8];

    let catcher: SliceCatcher = Catcher::new_async(&INPUT[..], None).unwrap();
    let catcher_clone = catcher.new_handle();

    let mut space1 = vec![0u8; INPUT.len()];
    let mut space2 = vec![0u8; INPUT.len()];

    let mut spaces = vec![(&mut space1, catcher), (&mut space2, catcher_clone)];

    for (space, mut source) in spaces.drain(0..) {
        let mut read_in = 0;
        while read_in < INPUT.len() {
            match read_ready(&mut source, &mut space[read_in..]) {
                0 => break,
                n => read_in += n,
            }
        }
    }

    assert_eq!(space1[..], INPUT[..]);
    assert_eq!(space2[..], INPUT[..]);
}

#[test]
fn async_runtime_finalisers_are_accepted() {
    const INPUT: [u8; 3] = [4, 5, 6];
    let mut config = Config::new();
    config.spawn_finaliser(Finaliser::Tokio);
    let mut catcher: SliceCatcher = TxCatcher::with_async_tx(&INPUT[..], Identity {}, Some(config)).unwrap();
    let mut buf = [0u8; 8];
    let waker = futures::task::noop_waker();
    let mut cx = Context::from_waker(&waker);
    match catcher.poll_read_step(&mut cx, &mut buf) {
        Progress::Ready((Ok(n), finalise_here)) => {
            assert_eq!(n, 3);
            assert!(finalise_here);
            assert!(!catcher.is_finalised());
            catcher.finalise_now();
            assert!(catcher.is_finalised());
        },
        _ => panic!("slices never wait"),
    }
    assert_eq!(buf[..3], INPUT[..]);
}

#[test]
fn async_skip_counts_bytes() {
    const INPUT: [u8; 10] = [0, 1, 2, 3, 4, 5, 6, 7, 8, 9];
    let mut catcher: SliceCatcher = Catcher::new_async(&INPUT[..], None).unwrap();
    let waker = futures::task::noop_waker();
    let mut cx = Context::from_waker(&waker);
    assert_eq!(AsyncReadSkipExt::skip(&mut catcher, &mut cx, 4), Progress::Ready(4));
    assert_eq!(catcher.pos(), 4);
    assert_eq!(AsyncReadSkipExt::skip(&mut catcher, &mut cx, 40), Progress::Ready(6));
    assert_eq!(catcher.pos(), 10);
    let err = match catcher.poll_seek(&mut cx, SeekFrom::Current(-11)) {
        Progress::Ready(r) => r.unwrap_err(),
        Progress::Pending => panic!("slices never wait"),
    };
    assert_eq!(err.kind(), IoFailure::InvalidInput);
    assert_eq!(err.into_io().kind(), std::io::ErrorKind::InvalidInput);
}

struct Hesitant {
    data: Vec<u8>,
    served: usize,
    wait_next: bool,
}

impl streamcatcher::AsyncSource for Hesitant {
    fn poll_read_into(&mut self, _cx: &mut Context<'_>, buf: &mut [u8]) -> Progress<std::io::Result<usize>> {
        if self.wait_next {
            self.wait_next = false;
            return Progress::Pending;
        }
        self.wait_next = true;
        let n = buf.len().min(self.data.len() - self.served).min(3);
        buf[..n].copy_from_slice(&self.data[self.served..self.served + n]);
        self.served += n;
        Progress::Ready(Ok(n))
    }
}

#[test]
fn async_pending_source_is_repolled() {
    let data: Vec<u8> = (0..10).collect();
    let src = Hesitant { data: data.clone(), served: 0, wait_next: true };
    let mut catcher: TxCatcher<Hesitant, Identity> = TxCatcher::new_async(src, None).unwrap();
    let waker = futures::task::noop_waker();
    let mut cx = Context::from_waker(&waker);
    let mut buf = [0u8; 10];
    // The source is not ready: nothing is read and the position stays.
    assert!(matches!(catcher.poll_read_step(&mut cx, &mut buf), Progress::Pending));
    assert_eq!(catcher.pos(), 0);
    let mut out = vec![];
    let mut polls = 0;
    loop {
        polls += 1;
        assert!(polls < 100);
        match catcher.poll_read_step(&mut cx, &mut buf) {
            Progress::Ready((Ok(0), _)) => break,
            Progress::Ready((Ok(n), fe)) => {
                if fe {
                    catcher.finalise_now();
                }
                out.extend_from_slice(&buf[..n]);
            },
            Progress::Ready((Err(e), _)) => panic!("{:?}", e),
            Progress::Pending => {},
        }
    }
    assert_eq!(out, data);
    assert_eq!(catcher.pos(), 10);
    assert!(catcher.is_finished());
}

#[test]
fn async_zero_skip_and_backward_seek_are_immediate() {
    const INPUT: [u8; 6] = [1, 2, 3, 4, 5, 6];
    let mut catcher: SliceCatcher = Catcher::new_async(&INPUT[..], None).unwrap();
    let waker = futures::task::noop_waker();
    let mut cx = Context::from_waker(&waker);
    assert_eq!(AsyncReadSkipExt::skip(&mut catcher, &mut cx, 0), Progress::Ready(0));
    let mut empty: [u8; 0] = [];
    assert!(matches!(catcher.poll_read_step(&mut cx, &mut empty), Progress::Ready((Ok(0), false))));
    assert_eq!(seek_ready(&mut catcher, SeekFrom::Start(4)).unwrap(), 4);
    match catcher.poll_seek(&mut cx, SeekFrom::Start(1)) {
        Progress::Ready(Ok(p)) => assert_eq!(p, 1),
        _ => panic!("a backward seek needs no source"),
    }
}

#[test]
fn async_skip_works_on_any_source() {
    let data = [1u8, 2, 3, 4, 5];
    let mut src: &[u8] = &data[..];
    let waker = futures::task::noop_waker();
    let mut cx = Context::from_waker(&waker);
    assert_eq!(AsyncReadSkipExt::skip(&mut src, &mut cx, 3), Progress::Ready(3));
    assert_eq!(src, &[4u8, 5][..]);
    assert_eq!(AsyncReadSkipExt::skip(&mut src, &mut cx, 9), Progress::Ready(2));
}
