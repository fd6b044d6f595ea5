use std::io::{Error, ErrorKind, Result as IoResult};
use streamcatcher::catcher::{offset_from, resolve_seek};
use streamcatcher::store::{fill_step, FillStep};
use streamcatcher::{
    CacheReadLocation, CatcherError, Catcher, Config, IoFailure, FinaliseState, Finaliser, Identity, NeedsBytes,
    Progress, RawStore, ReadCore, ReadSkipExt, SeekFrom, Source, Transform, TransformPosition, TxCatcher,
};

fn counting(n: u8) -> Vec<u8> {
    (0..n).collect()
}

#[test]
fn config_defaults_and_setters() {
    let cfg = Config::new();
    assert_eq!(cfg.lower_bound(), 4096);
    assert_eq!(cfg.finaliser(), Finaliser::NewThread);
    assert!(cfg.backing());
    assert_eq!(cfg.hint(), None);
    assert_eq!(cfg.read_burst_len(), 4096);
    assert_eq!(cfg.next_chunk_size(17, 3), 4096);

    let mut cfg = Config::default();
    cfg.chunk_size(64).use_backing(false).spawn_finaliser(Finaliser::InPlace).length_hint(Some(9));
    assert_eq!(cfg.lower_bound(), 64);
    assert!(!cfg.backing());
    assert_eq!(cfg.finaliser(), Finaliser::InPlace);
    assert_eq!(cfg.hint(), Some(9));
    assert_eq!(cfg.read_burst_len(), 4096);

    let built = Catcher::<&[u8]>::builder();
    assert_eq!(built.lower_bound(), 4096);
}

#[test]
fn finaliser_kinds() {
    assert!(Finaliser::InPlace.is_sync());
    assert!(Finaliser::NewThread.is_sync());
    assert!(!Finaliser::AsyncStd.is_sync());
    assert!(!Finaliser::Tokio.is_sync());
    assert!(!Finaliser::Smol.is_sync());
    assert!(Finaliser::InPlace.run_elsewhere());
    assert!(!Finaliser::NewThread.run_elsewhere());
    assert!(!Finaliser::Tokio.run_elsewhere());
}

#[derive(Default)]
struct Wide {}

impl<T: Source> Transform<T> for Wide {
    fn transform_read(&mut self, src: &mut T, buf: &mut [u8]) -> IoResult<TransformPosition> {
        Identity {}.transform_read(src, buf)
    }
}

impl NeedsBytes for Wide {
    fn min_bytes_required(&self) -> usize {
        8192
    }
}

#[test]
fn chunk_size_error() {
    const INPUT: [u8; 2] = [1, 2];
    let r: Result<TxCatcher<&[u8], Wide>, CatcherError> = TxCatcher::new(&INPUT[..], None);
    assert_eq!(r.err(), Some(CatcherError::ChunkSize));

    let mut cfg = Config::new();
    cfg.chunk_size(8192);
    let r: Result<TxCatcher<&[u8], Wide>, CatcherError> = TxCatcher::with_config(&INPUT[..], cfg);
    assert!(r.is_ok());

    let r = RawStore::with_min_bytes(&INPUT[..], Identity {}, None, 4097);
    assert_eq!(r.err(), Some(CatcherError::ChunkSize));
    let r = RawStore::with_min_bytes(&INPUT[..], Identity {}, None, 4096);
    assert!(r.is_ok());
}

#[test]
fn illegal_finaliser_error() {
    const INPUT: [u8; 2] = [1, 2];
    for fin in [Finaliser::AsyncStd, Finaliser::Tokio, Finaliser::Smol] {
        let mut cfg = Config::new();
        cfg.spawn_finaliser(fin);
        let r = Catcher::with_config(&INPUT[..], cfg);
        assert_eq!(r.err(), Some(CatcherError::IllegalFinaliser));
    }
    let mut cfg = Config::new();
    cfg.spawn_finaliser(Finaliser::InPlace);
    assert!(Catcher::with_tx(&INPUT[..], Identity {}, Some(cfg)).is_ok());
}

#[test]
fn multi_chunk_rope_in_place() {
    let data = counting(20);
    let mut cfg = Config::new();
    cfg.chunk_size(3).spawn_finaliser(Finaliser::InPlace);
    let mut store = RawStore::new(&data[..], Identity {}, Some(cfg)).unwrap();
    assert_eq!(store.len(), 0);
    assert_eq!(store.finalised(), FinaliseState::Live);

    let mut buf = [0u8; 5];
    let (r, elsewhere) = store.read_from_pos(0, &mut buf);
    assert_eq!(r.unwrap(), 5);
    assert!(!elsewhere);
    assert_eq!(buf, [0, 1, 2, 3, 4]);
    // The whole burst was drawn, the source ended, and the store finalised here.
    assert_eq!(store.len(), 20);
    assert!(store.is_finalised());
    assert!(!store.holds_rope());

    let mut buf = [9u8; 8];
    let (r, _) = store.read_from_pos(16, &mut buf);
    assert_eq!(r.unwrap(), 4);
    assert_eq!(buf, [16, 17, 18, 19, 9, 9, 9, 9]);

    let mut all = [0u8; 20];
    let (r, _) = store.read_from_pos(0, &mut all);
    assert_eq!(r.unwrap(), 20);
    assert_eq!(all.to_vec(), data);
}

#[test]
fn finaliser_elsewhere_is_signalled() {
    let data = counting(10);
    let mut cfg = Config::new();
    cfg.chunk_size(4);
    let mut store = RawStore::new(&data[..], Identity {}, Some(cfg)).unwrap();
    let mut buf = [0u8; 3];
    let (r, elsewhere) = store.read_from_pos(0, &mut buf);
    assert_eq!(r.unwrap(), 3);
    assert!(elsewhere);
    assert_eq!(store.finalised(), FinaliseState::Finalising);
    assert!(store.is_finished());
    assert!(!store.is_finalised());

    store.do_finalise();
    assert!(store.is_finalised());
    // The rope goes once a reader passes through after finalisation.
    assert!(store.holds_rope());
    let (loc, state) = store.get_location();
    assert_eq!(loc, CacheReadLocation::Backed);
    assert_eq!(state, FinaliseState::Finalised);
    assert!(!store.holds_rope());

    let mut rest = [0u8; 10];
    let (r, elsewhere) = store.read_from_pos(3, &mut rest);
    assert_eq!(r.unwrap(), 7);
    assert!(!elsewhere);
    assert_eq!(rest[..7], data[3..]);
}

#[test]
fn without_backing_store_stays_roped() {
    let data = counting(9);
    let mut cfg = Config::new();
    cfg.chunk_size(2).use_backing(false).spawn_finaliser(Finaliser::InPlace);
    let mut store = RawStore::new(&data[..], Identity {}, Some(cfg)).unwrap();
    let mut buf = [0u8; 9];
    let (r, _) = store.read_from_pos(0, &mut buf);
    assert_eq!(r.unwrap(), 9);
    assert_eq!(buf.to_vec(), data);
    assert!(store.is_finished());
    assert!(!store.is_finalised());
    assert!(store.holds_rope());
    store.do_finalise();
    assert!(!store.is_finalised());

    let mut buf = [0u8; 4];
    let (r, _) = store.read_from_pos(5, &mut buf);
    assert_eq!(r.unwrap(), 4);
    assert_eq!(buf, [5, 6, 7, 8]);
}

#[test]
fn fill_rounds_up_to_burst() {
    let data = vec![7u8; 10_000];
    let mut store = RawStore::new(&data[..], Identity {}, None).unwrap();
    let r = store.fill_from_source(10).unwrap();
    assert_eq!(r, (4096, false));
    assert_eq!(store.len(), 4096);
    assert!(!store.is_finished());
    // Asks for 8192 bytes; the source ends after 5904 more, and the default
    // finaliser runs elsewhere.
    let r = store.fill_from_source(4097).unwrap();
    assert_eq!(r, (5904, true));
    assert_eq!(store.len(), 10_000);
    assert!(store.is_finished());
}

#[test]
fn single_chunk_finalise_keeps_bytes() {
    let data = counting(6);
    let mut cfg = Config::new();
    cfg.spawn_finaliser(Finaliser::InPlace).length_hint(Some(64));
    let mut store = RawStore::new(&data[..], Identity {}, Some(cfg)).unwrap();
    let mut buf = [0u8; 6];
    let (r, _) = store.read_from_pos(0, &mut buf);
    assert_eq!(r.unwrap(), 6);
    let mut more = [0u8; 1];
    let (r, _) = store.read_from_pos(6, &mut more);
    assert_eq!(r.unwrap(), 0);
    assert!(store.is_finalised());
    let mut again = [0u8; 6];
    let (r, _) = store.read_from_pos(0, &mut again);
    assert_eq!(r.unwrap(), 6);
    assert_eq!(again.to_vec(), data);
}

struct Flaky {
    interruptions: usize,
    data: Vec<u8>,
    fail_after: Option<usize>,
    served: usize,
}

impl Source for Flaky {
    fn read_into(&mut self, buf: &mut [u8]) -> IoResult<usize> {
        if self.interruptions > 0 {
            self.interruptions -= 1;
            return Err(Error::new(ErrorKind::Interrupted, "again"));
        }
        if let Some(limit) = self.fail_after {
            if self.served >= limit {
                return Err(Error::new(ErrorKind::BrokenPipe, "gone"));
            }
        }
        let n = buf.len().min(self.data.len() - self.served).min(2);
        buf[..n].copy_from_slice(&self.data[self.served..self.served + n]);
        self.served += n;
        Ok(n)
    }
}

#[test]
fn interrupted_sources_are_retried() {
    let src = Flaky { interruptions: 3, data: counting(5), fail_after: None, served: 0 };
    let mut catcher: TxCatcher<Flaky, Identity> = TxCatcher::new(src, None).unwrap();
    let mut buf = [0u8; 5];
    assert_eq!(catcher.read(&mut buf).unwrap(), 5);
    assert_eq!(buf, [0, 1, 2, 3, 4]);
}

#[test]
fn source_errors_are_reported() {
    let src = Flaky { interruptions: 0, data: counting(8), fail_after: Some(4), served: 0 };
    let mut catcher: TxCatcher<Flaky, Identity> = TxCatcher::new(src, None).unwrap();
    let mut buf = [0u8; 6];
    let err = catcher.read(&mut buf).unwrap_err();
    assert_eq!(err.kind(), IoFailure::Other);
    assert_eq!(err.into_io().kind(), ErrorKind::BrokenPipe);
    assert_eq!(catcher.pos(), 0);
    // Bytes drawn before the failure stay stored.
    assert_eq!(catcher.len(), 4);
    let mut head = [0u8; 4];
    assert_eq!(catcher.read(&mut head).unwrap(), 4);
    assert_eq!(head, [0, 1, 2, 3]);
}

#[test]
fn skip_moves_forward() {
    let data = counting(30);
    let mut catcher = Catcher::new(&data[..], None).unwrap();
    assert_eq!(catcher.skip(10), 10);
    assert_eq!(catcher.pos(), 10);
    assert_eq!(catcher.skip(100), 20);
    assert_eq!(catcher.pos(), 30);
    assert_eq!(catcher.skip(5), 0);
}

#[test]
fn offsets_wrap_like_u64() {
    assert_eq!(offset_from(5, 3), (true, 8));
    assert_eq!(offset_from(5, -5), (true, 0));
    assert_eq!(offset_from(5, -6), (false, u64::MAX));
    assert_eq!(offset_from(u64::MAX, 1), (true, 0));
    assert_eq!(offset_from(0, i64::MIN), (false, 1u64 << 63));
    assert_eq!(resolve_seek(SeekFrom::Start(9), 4, 2), (true, 9));
    assert_eq!(resolve_seek(SeekFrom::Current(-2), 4, 100), (true, 2));
    assert_eq!(resolve_seek(SeekFrom::End(-2), 4, 100), (true, 98));
}

#[test]
fn slices_are_sources() {
    let data = [1u8, 2, 3];
    let mut src: &[u8] = &data[..];
    let mut buf = [0u8; 2];
    assert_eq!(src.read_into(&mut buf).unwrap(), 2);
    assert_eq!(buf, [1, 2]);
    assert_eq!(src, &[3u8][..]);
    let mut big = [0u8; 4];
    assert_eq!(src.read_into(&mut big).unwrap(), 1);
    assert_eq!(big, [3, 0, 0, 0]);
    assert_eq!(src.read_into(&mut big).unwrap(), 0);
}

#[test]
fn naive_core_reads() {
    let data = counting(12);
    let mut core = ReadCore::new(&data[..]);
    assert_eq!(core.len(), 0);
    let mut buf = [0u8; 5];
    assert_eq!(core.read_from_pos(&mut buf, 0).unwrap(), 5);
    assert_eq!(buf, [0, 1, 2, 3, 4]);
    assert_eq!(core.len(), 5);
    let mut buf = [0u8; 10];
    assert_eq!(core.read_from_pos(&mut buf, 5).unwrap(), 7);
    assert_eq!(buf[..7], data[5..]);
    assert!(!core.is_finished());
    assert_eq!(core.read_from_pos(&mut buf, 12).unwrap(), 0);
    assert!(core.is_finished());
    let mut again = [0u8; 3];
    assert_eq!(core.read_from_pos(&mut again, 2).unwrap(), 3);
    assert_eq!(again, [2, 3, 4]);
}

#[test]
fn fill_steps_follow_the_transform() {
    assert!(matches!(fill_step(Progress::Ready(Ok(TransformPosition::Read(3)))), FillStep::Keep(3)));
    assert!(matches!(fill_step(Progress::Ready(Ok(TransformPosition::Finished))), FillStep::Finish));
    assert!(matches!(
        fill_step(Progress::Ready(Err(Error::new(ErrorKind::Interrupted, "again")))),
        FillStep::Retry
    ));
    match fill_step(Progress::Ready(Err(Error::new(ErrorKind::BrokenPipe, "gone")))) {
        FillStep::Fail(e) => {
            assert_eq!(e.kind(), IoFailure::Other);
            assert_eq!(e.into_io().kind(), ErrorKind::BrokenPipe);
        },
        _ => panic!("a broken pipe is not retried"),
    }
    assert!(matches!(fill_step(Progress::Pending), FillStep::Wait));
}

#[test]
fn fill_draws_after_opening_a_chunk() {
    // A transform needing 3 contiguous bytes, with chunks of 4: each time the
    // last chunk has too little room, a new one is opened and drawing goes on.
    let data = counting(10);
    let mut cfg = Config::new();
    cfg.chunk_size(4);
    let mut store = RawStore::new(&data[..], Wide3 {}, Some(cfg)).unwrap();
    assert_eq!(store.fill_from_source(1).unwrap(), (10, true));
    assert_eq!(store.len(), 10);
    let mut all = [0u8; 10];
    let (r, _) = store.read_from_pos(0, &mut all);
    assert_eq!(r.unwrap(), 10);
    assert_eq!(all[..], data[..]);
}

struct Wide3 {}

impl<T: Source> Transform<T> for Wide3 {
    fn transform_read(&mut self, src: &mut T, buf: &mut [u8]) -> IoResult<TransformPosition> {
        match src.read_into(buf)? {
            0 => Ok(TransformPosition::Finished),
            n => Ok(TransformPosition::Read(n)),
        }
    }
}

impl NeedsBytes for Wide3 {
    fn min_bytes_required(&self) -> usize {
        3
    }
}
