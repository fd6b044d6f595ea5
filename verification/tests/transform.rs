use std::{
    io::Result as IoResult,
    sync::atomic::{AtomicU64, Ordering},
};
use streamcatcher::{NeedsBytes, Source, StateAccess, Stateful, Transform, TransformPosition, TxCatcher};

fn bytes<T: Source, Tx: Transform<T>>(mut catcher: TxCatcher<T, Tx>) -> Vec<u8> {
    let mut out = vec![];
    let mut byte = [0u8; 1];
    loop {
        match catcher.read(&mut byte) {
            Ok(0) => break,
            Ok(_) => out.push(byte[0]),
            Err(e) => panic!("{:?}", e),
        }
    }
    out
}

#[test]
fn transform_plus_one() {
    const INPUT: [u8; 8] = [1, 2, 3, 4, 5, 6, 7, 8];
    const OUTPUT: [u8; 8] = [2, 3, 4, 5, 6, 7, 8, 9];

    #[derive(Default)]
    struct PlusOne {}

    impl<T: Source> Transform<T> for PlusOne {
        fn transform_read(&mut self, src: &mut T, buf: &mut [u8]) -> IoResult<TransformPosition> {
            Ok(match src.read_into(buf)? {
                0 => TransformPosition::Finished,
                n => {
                    for i in 0..n {
                        buf[i] += 1;
                    }
                    TransformPosition::Read(n)
                },
            })
        }
    }

    impl NeedsBytes for PlusOne {}

    let catcher: TxCatcher<_, PlusOne> = TxCatcher::new(&INPUT[..], None).unwrap();

    let out = bytes(catcher);

    assert_eq!(out[..], OUTPUT[..]);
}

#[test]
fn transform_fold() {
    const INPUT: [u8; 8] = [1, 2, 3, 4, 5, 6, 7, 8];
    const OUTPUT: [u8; 4] = [3, 7, 11, 15];

    #[derive(Default)]
    struct FoldAdd {
        waiting: Option<u8>,
    }

    impl<T: Source> Transform<T> for FoldAdd {
        fn transform_read(&mut self, src: &mut T, buf: &mut [u8]) -> IoResult<TransformPosition> {
            let mut space = [0u8; 2];

            let space_start = if let Some(val) = self.waiting {
                space[0] = val;
                1
            } else {
                0
            };

            Ok(match src.read_into(&mut space[space_start..])? {
                0 => TransformPosition::Finished,
                n => {
                    let count = n + space_start;
                    if count == 2 {
                        buf[0] = space[0] + space[1];
                        self.waiting = None;
                        TransformPosition::Read(1)
                    } else {
                        self.waiting = Some(space[space_start]);
                        TransformPosition::Read(0)
                    }
                },
            })
        }
    }

    impl NeedsBytes for FoldAdd {}

    let catcher: TxCatcher<_, FoldAdd> = TxCatcher::new(&INPUT[..], None).unwrap();

    let out = bytes(catcher);

    assert_eq!(out[..], OUTPUT[..]);
}

#[test]
fn counting_state() {
    const INPUT: [u8; 8] = [1, 0, 0, 1, 0, 0, 0, 1];
    const OUTPUT_STREAM: [u8; 8] = [1, 0, 0, 1, 0, 0, 0, 1];
    const OUTPUT_COUNT: u64 = 3;

    #[derive(Default)]
    struct CountOnes {
        count: AtomicU64,
    }

    impl<T: Source> Transform<T> for CountOnes {
        fn transform_read(&mut self, src: &mut T, buf: &mut [u8]) -> IoResult<TransformPosition> {
            Ok(match src.read_into(buf)? {
                0 => TransformPosition::Finished,
                n => {
                    let mut ones = 0;
                    for i in buf[..n].iter() {
                        if *i == 1 {
                            ones += 1;
                        }
                    }
                    self.count.fetch_add(ones, Ordering::Release);
                    TransformPosition::Read(n)
                },
            })
        }
    }

    impl NeedsBytes for CountOnes {}

    impl Stateful for CountOnes {
        type State = u64;
        fn state(&self) -> Self::State {
            self.count.load(Ordering::Acquire)
        }
    }

    let catcher: TxCatcher<_, CountOnes> = TxCatcher::new(&INPUT[..], None).unwrap();
    let state_catcher = catcher.new_handle();

    let out = bytes(catcher);

    assert_eq!(out[..], OUTPUT_STREAM[..]);
    assert_eq!(state_catcher.get_state_unchecked(), OUTPUT_COUNT);
    assert_eq!(state_catcher.get_final_state(), Some(OUTPUT_COUNT));
}
