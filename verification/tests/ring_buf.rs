use std::io::{ErrorKind, Read, Seek, SeekFrom, Write};
use swmr_file::ring_buf::{file_read_len, RingBuffer, BUFFER_MAX_SIZE};
use sync_file::{Size, SyncFile};
use tempfile::tempfile;

fn mock_8m_data() -> Vec<u8> {
    let mut state: u64 = 0x2545_f491_4f6c_dd1d;
    (0..8 * 0x400 * 0x400)
        .map(|_| {
            state = state.wrapping_mul(6364136223846793005).wrapping_add(1442695040888963407);
            (state >> 56) as u8
        })
        .collect::<Vec<_>>()
}

/// One read of the file into the empty buffer, as an accessor's job does it.
fn fill_from_file(buf: &mut RingBuffer, file: &mut SyncFile) -> std::io::Result<usize> {
    let n = file_read_len(file.size()?, file.offset());
    let mut bytes = vec![0u8; n];
    let got = loop {
        match file.read(&mut bytes) {
            Err(ref err) if err.kind() == ErrorKind::Interrupted => {}
            result => break result,
        }
    };
    let outcome = got.map(|k| {
        bytes.truncate(k);
        bytes
    });
    buf.read_file(outcome)
}

#[test]
fn obsolete() {
    const LEN: usize = 1024;
    let mut buf = RingBuffer::new();
    buf.extend_from_slice(&[0; LEN]);
    assert_eq!(buf.obsolete(), -(LEN as isize));
    assert!(buf.is_empty());
}

#[test]
fn read_small_file() -> std::io::Result<()> {
    let file = tempfile()?;
    let mut file = SyncFile::from(file);
    const CONTENT: &[u8] = b"some bytes here";
    file.write_all(CONTENT)?;
    let file_len = file.offset() as usize;
    file.seek(SeekFrom::Start(0))?;
    let mut buf = RingBuffer::new();
    let buf_len = fill_from_file(&mut buf, &mut file)?;
    assert_eq!(file_len, buf_len);
    assert_eq!(CONTENT, buf.as_slice());
    Ok(())
}

#[test]
fn read_large_file() -> std::io::Result<()> {
    let content = mock_8m_data();
    let file = tempfile()?;
    let mut file = SyncFile::from(file);
    file.write_all(&content)?;
    file.seek(SeekFrom::Start(0))?;
    let mut buf = RingBuffer::new();
    let mut start = 0;
    let mut round = 0;
    loop {
        let buf_len = fill_from_file(&mut buf, &mut file)?;
        assert_eq!(&content[start..start + buf_len], buf.as_slice());
        start += buf_len;
        // consume buf
        buf.clear();
        round += 1;
        if file.offset() == file.size()? {
            break;
        }
    }
    assert_eq!(round, content.len() / BUFFER_MAX_SIZE);
    Ok(())
}

#[test]
fn ship_large_data() {
    let src = mock_8m_data();
    let mut dst: Vec<u8> = Vec::with_capacity(src.len());
    let mut buf = RingBuffer::new();
    let mut offset = 0;
    while offset < src.len() {
        let n = buf.read_from(&src[offset..]);
        offset += n;
        let room = src.len() - dst.len();
        let out = buf.write_into(room);
        let written = out.len();
        dst.extend_from_slice(&out);
        assert_eq!(n, written);
    }
    assert_eq!(offset, 8 * 0x400 * 0x400);
    assert_eq!(src, dst);
}

#[test]
fn read_from_takes_at_most_buffer_size() {
    let src = vec![7u8; BUFFER_MAX_SIZE + 10];
    let mut buf = RingBuffer::new();
    assert_eq!(buf.read_from(&src), BUFFER_MAX_SIZE);
    assert_eq!(buf.len(), BUFFER_MAX_SIZE);
    let mut small = RingBuffer::new();
    assert_eq!(small.read_from(b"abc"), 3);
    assert_eq!(small.as_slice(), b"abc");
}

#[test]
fn write_into_hands_out_what_fits_and_keeps_the_rest() {
    let mut buf = RingBuffer::new();
    buf.read_from(b"hello world");
    assert_eq!(buf.write_into(5), b"hello".to_vec());
    assert_eq!(buf.as_slice(), b" world");
    assert_eq!(buf.write_into(0), Vec::<u8>::new());
    assert_eq!(buf.write_into(100), b" world".to_vec());
    assert!(buf.is_empty());
}

#[test]
fn delivery_conserves_bytes() {
    let mut buf = RingBuffer::new();
    buf.read_from(b"0123456789");
    let mut got = Vec::new();
    while !buf.is_empty() {
        got.extend(buf.write_into(3));
    }
    assert_eq!(got, b"0123456789".to_vec());
}

#[test]
fn read_file_failure_leaves_buffer_empty() {
    let mut buf = RingBuffer::new();
    let r: Result<usize, &str> = buf.read_file(Err("disk gone"));
    assert_eq!(r, Err("disk gone"));
    assert!(buf.is_empty());
    let r: Result<usize, &str> = buf.read_file(Ok(b"xyz".to_vec()));
    assert_eq!(r, Ok(3));
    assert_eq!(buf.as_slice(), b"xyz");
}

#[test]
fn file_read_len_is_rest_up_to_buffer_size() {
    assert_eq!(file_read_len(100, 40), 60);
    assert_eq!(file_read_len(100, 100), 0);
    assert_eq!(file_read_len(1 << 20, 0), BUFFER_MAX_SIZE);
    assert_eq!(file_read_len(BUFFER_MAX_SIZE as u64 + 1, 1), BUFFER_MAX_SIZE);
}

#[test]
fn read_rounds_round_up() {
    // 65537 bytes take two reads: a full one and one of a single byte.
    let size = BUFFER_MAX_SIZE as u64 + 1;
    assert_eq!(file_read_len(size, 0), BUFFER_MAX_SIZE);
    assert_eq!(file_read_len(size, BUFFER_MAX_SIZE as u64), 1);
}
