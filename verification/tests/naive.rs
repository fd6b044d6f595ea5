use streamcatcher::NaiveSharedRead;

#[test]
fn functions_somewhat() {
    const INPUT: [u8; 8] = [1, 2, 3, 4, 5, 6, 7, 8];

    let mut reader = NaiveSharedRead::new(&INPUT[..]);
    let mut space = vec![0u8; INPUT.len()];
    let mut pos = 0;

    while let Ok(n) = reader.read(&mut space[pos..]) {
        if n == 0 {
            break;
        } else {
            pos += n;
        }
    }

    assert_eq!(&space[..], &INPUT[..]);
}

#[test]
fn second_read() {
    const INPUT: [u8; 8] = [1, 2, 3, 4, 5, 6, 7, 8];

    let mut reader = NaiveSharedRead::new(&INPUT[..]);
    let mut reader2 = reader.new_handle();
    let mut space = vec![0u8; INPUT.len()];
    let mut pos = 0;

    while let Ok(n) = reader.read(&mut space[pos..]) {
        if n == 0 {
            break;
        } else {
            pos += n;
        }
    }

    assert_eq!(&space[..], &INPUT[..]);

    space = vec![0u8; INPUT.len()];
    pos = 0;

    while let Ok(n) = reader2.read(&mut space[pos..]) {
        if n == 0 {
            break;
        } else {
            pos += n;
        }
    }

    assert_eq!(&space[..], &INPUT[..]);
}
