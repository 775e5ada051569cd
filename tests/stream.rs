use npy_stream::{make_header, NPYStream, HEADER_LEN};

fn parse_shape(header: &[u8]) -> (usize, usize) {
    let text = String::from_utf8(header[10..128].to_vec()).unwrap();
    let start = text.find("'shape': (").unwrap() + "'shape': (".len();
    let rest = &text[start..];
    let end = rest.find(')').unwrap();
    let mut parts = rest[..end].split(", ");
    let rows = parts.next().unwrap().parse::<usize>().unwrap();
    let cols = parts.next().unwrap().parse::<usize>().unwrap();
    (rows, cols)
}

fn bits(row: &[f32]) -> Vec<u32> {
    row.iter().map(|x| x.to_bits()).collect()
}

/// Runs the whole protocol against an in-memory file: reserve, append, patch.
fn stream_rows(num_cols: usize, rows: &[Vec<f32>]) -> Vec<u8> {
    let (mut stream, reserved) = NPYStream::new(num_cols);
    let mut file = reserved;
    for row in rows {
        let bytes = stream.write(&bits(row));
        file.extend_from_slice(&bytes);
    }
    let header = stream.finish();
    file[..header.len()].copy_from_slice(&header);
    file
}

fn f32_at(file: &[u8], offset: usize) -> f32 {
    f32::from_le_bytes([file[offset], file[offset + 1], file[offset + 2], file[offset + 3]])
}

#[test]
fn small_write_succeeds() {
    let file = stream_rows(2, &[vec![0.0, 1.0], vec![2.0, 3.0]]);
    assert_eq!(file.len(), 128 + 4 * 4);
    let header = String::from_utf8(file[10..128].to_vec()).unwrap();
    assert!(header.contains("'shape': ("));
    let (rows_actual, cols_actual) = parse_shape(&file);
    assert_eq!(rows_actual, 2);
    assert_eq!(cols_actual, 2);
}

#[test]
fn two_by_two_values_in_row_major_order() {
    let file = stream_rows(2, &[vec![0.0, 1.0], vec![2.0, 3.0]]);
    assert_eq!(file.len(), 144);
    assert_eq!(parse_shape(&file), (2, 2));
    assert_eq!(f32_at(&file, 128), 0.0);
    assert_eq!(f32_at(&file, 132), 1.0);
    assert_eq!(f32_at(&file, 136), 2.0);
    assert_eq!(f32_at(&file, 140), 3.0);
    assert_eq!(&file[..128], &make_header(2, 2)[..]);
}

#[test]
fn no_rows_gives_header_only() {
    let file = stream_rows(5, &[]);
    assert_eq!(file.len(), 128);
    assert_eq!(parse_shape(&file), (0, 5));
}

#[test]
fn open_reserves_zero_row_header() {
    let (stream, reserved) = NPYStream::new(3);
    assert_eq!(reserved, make_header(0, 3));
    assert_eq!(reserved.len(), HEADER_LEN);
    assert_eq!(stream.num_rows(), 0);
    assert_eq!(stream.num_cols(), 3);
}

#[test]
fn write_encodes_little_endian_bits() {
    let (mut stream, _) = NPYStream::new(3);
    let bytes = stream.write(&vec![1.0f32.to_bits(), 0x0403_0201, u32::MAX]);
    assert_eq!(bytes, vec![0, 0, 0x80, 0x3f, 1, 2, 3, 4, 255, 255, 255, 255]);
    assert_eq!(stream.num_rows(), 1);
}

#[test]
fn row_count_follows_writes() {
    let (mut stream, _) = NPYStream::new(1);
    let mut appended = 0usize;
    for i in 0..25u32 {
        appended += stream.write(&vec![i]).len();
        assert_eq!(stream.num_rows(), i as usize + 1);
    }
    assert_eq!(appended, 25 * 4);
    let header = stream.finish();
    assert_eq!(parse_shape(&header), (25, 1));
}

#[test]
fn zero_columns_rows_are_counted() {
    let file = stream_rows(0, &[vec![], vec![], vec![]]);
    assert_eq!(file.len(), 128);
    assert_eq!(parse_shape(&file), (3, 0));
}

#[test]
fn finalized_header_matches_fresh_header() {
    let rows: Vec<Vec<f32>> = (0..10).map(|r| (0..4).map(|c| (r * 4 + c) as f32).collect()).collect();
    let file = stream_rows(4, &rows);
    assert_eq!(file.len(), 128 + 10 * 4 * 4);
    assert_eq!(&file[..128], &make_header(10, 4)[..]);
    assert_eq!(f32_at(&file, 128 + 4 * 13), 13.0);
}
