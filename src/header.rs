use vstd::prelude::*;

use crate::decimal::{decimal, lemma_decimal_digits, lemma_decimal_injective, lemma_decimal_len_u64, push_decimal};

verus! {

/// Size in bytes of every header this library writes.
pub const HEADER_LEN: usize = 128;

/// Largest descriptor that fits: the header minus the magic marker, the
/// version, the length field and the closing newline.
pub const MAX_DESCRIPTOR_LEN: usize = 117;

/// The six-byte magic marker `\x93NUMPY` followed by format version 1.0.
pub open spec fn magic_and_version() -> Seq<u8> {
    seq![147u8, 78, 85, 77, 80, 89, 1, 0]
}

/// The descriptor text up to the row count:
/// `{'descr': '<f4', 'fortran_order': False, 'shape': (`.
pub open spec fn descriptor_open() -> Seq<u8> {
    seq![
        123u8, 39, 100, 101, 115, 99, 114, 39, 58, 32, 39, 60, 102, 52, 39, 44, 32, 39, 102, 111,
        114, 116, 114, 97, 110, 95, 111, 114, 100, 101, 114, 39, 58, 32, 70, 97, 108, 115, 101,
        44, 32, 39, 115, 104, 97, 112, 101, 39, 58, 32, 40,
    ]
}

/// The text between the two shape entries: `, `.
pub open spec fn shape_separator() -> Seq<u8> {
    seq![44u8, 32]
}

/// The text that closes the shape tuple and the dictionary: `)}`.
pub open spec fn descriptor_close() -> Seq<u8> {
    seq![41u8, 125]
}

/// The descriptor dictionary for a little-endian `f32` matrix in C order of
/// the given shape.
pub open spec fn descriptor(rows: nat, cols: nat) -> Seq<u8> {
    descriptor_open() + decimal(rows) + shape_separator() + decimal(cols) + descriptor_close()
}

/// `n` space characters.
pub open spec fn spaces(n: nat) -> Seq<u8> {
    Seq::new(n, |i: int| 32u8)
}

/// The header for a matrix of the given shape: magic marker and version, the
/// descriptor's length as a little-endian `u16`, the descriptor, space padding
/// up to byte 127, and a newline as the last byte.
pub open spec fn header_bytes(rows: nat, cols: nat) -> Seq<u8> {
    let d = descriptor(rows, cols);
    magic_and_version() + seq![(d.len() % 256) as u8, (d.len() / 256) as u8] + d + spaces(
        (MAX_DESCRIPTOR_LEN - d.len()) as nat,
    ) + seq![10u8]
}

/// Length of the descriptor: the fixed text plus the digits of both counts.
pub proof fn lemma_descriptor_len(rows: nat, cols: nat)
    ensures
        descriptor(rows, cols).len() == 55 + decimal(rows).len() + decimal(cols).len(),
{
}

/// Any shape whose counts fit in a `u64` has a descriptor within the budget.
pub proof fn lemma_descriptor_fits(rows: nat, cols: nat)
    requires
        rows <= u64::MAX,
        cols <= u64::MAX,
    ensures
        descriptor(rows, cols).len() <= MAX_DESCRIPTOR_LEN,
{
    lemma_decimal_len_u64(rows);
    lemma_decimal_len_u64(cols);
    lemma_descriptor_len(rows, cols);
}

/// A header is exactly `HEADER_LEN` bytes long whenever its descriptor fits
/// in the budget.
pub proof fn lemma_header_len(rows: nat, cols: nat)
    requires
        descriptor(rows, cols).len() <= MAX_DESCRIPTOR_LEN,
    ensures
        header_bytes(rows, cols).len() == HEADER_LEN,
{
}

/// A header determines its shape: two headers of counts that fit in a `u64`
/// are equal only when both their row counts and their column counts are.
pub proof fn lemma_header_determines_shape(r1: nat, c1: nat, r2: nat, c2: nat)
    requires
        r1 <= u64::MAX,
        c1 <= u64::MAX,
        r2 <= u64::MAX,
        c2 <= u64::MAX,
        header_bytes(r1, c1) == header_bytes(r2, c2),
    ensures
        r1 == r2,
        c1 == c2,
{
    let d1 = descriptor(r1, c1);
    let d2 = descriptor(r2, c2);
    lemma_descriptor_fits(r1, c1);
    lemma_descriptor_fits(r2, c2);
    let h = header_bytes(r1, c1);
    assert(h[8] == (d1.len() % 256) as u8);
    assert(header_bytes(r2, c2)[8] == (d2.len() % 256) as u8);
    assert(d1.len() == d2.len());
    assert(d1 =~= h.subrange(10, 10 + d1.len() as int));
    assert(d2 =~= header_bytes(r2, c2).subrange(10, 10 + d2.len() as int));
    let a1 = decimal(r1);
    let a2 = decimal(r2);
    lemma_decimal_digits(r1);
    lemma_decimal_digits(r2);
    lemma_decimal_digits(c1);
    lemma_decimal_digits(c2);
    let k1 = a1.len() as int;
    let k2 = a2.len() as int;
    if k1 < k2 {
        assert(d1[51 + k1] == 44u8);
        assert(d2[51 + k1] == a2[k1]);
    } else if k2 < k1 {
        assert(d2[51 + k2] == 44u8);
        assert(d1[51 + k2] == a1[k2]);
    }
    assert(a1.len() == a2.len());
    assert(a1 =~= d1.subrange(51, 51 + k1));
    assert(a2 =~= d2.subrange(51, 51 + k2));
    lemma_decimal_injective(r1, r2);
    let b1 = decimal(c1);
    let b2 = decimal(c2);
    assert(b1 =~= d1.subrange(53 + k1, 53 + k1 + b1.len()));
    assert(b2 =~= d2.subrange(53 + k2, 53 + k2 + b2.len()));
    lemma_decimal_injective(c1, c2);
}

/// The header is a function of the shape alone: two headers built for the
/// same row and column counts are byte-identical.
pub proof fn lemma_header_deterministic(rows: nat, cols: nat, h1: Seq<u8>, h2: Seq<u8>)
    requires
        h1 == header_bytes(rows, cols),
        h2 == header_bytes(rows, cols),
    ensures
        h1 == h2,
{
}

/// Appends the bytes of `src` to `out`.
fn push_all(out: &mut Vec<u8>, src: &Vec<u8>)
    ensures
        final(out)@ == old(out)@ + src@,
{
    let mut i: usize = 0;
    while i < src.len()
        invariant
            i <= src@.len(),
            out@ == old(out)@ + src@.take(i as int),
        decreases src@.len() - i,
    {
        out.push(src[i]);
        i = i + 1;
        assert(src@.take(i as int) =~= src@.take(i - 1) + seq![src@[i - 1]]);
    }
    assert(src@.take(i as int) =~= src@);
}

/// Builds the header for a matrix of `num_rows` rows and `num_cols` columns.
pub fn make_header(num_rows: usize, num_cols: usize) -> (r: Vec<u8>)
    ensures
        r@ == header_bytes(num_rows as nat, num_cols as nat),
        r@.len() == HEADER_LEN,
{
    let ghost rows = num_rows as nat;
    let ghost cols = num_cols as nat;
    proof {
        lemma_descriptor_fits(rows, cols);
    }
    let open_text: Vec<u8> = vec![
        123u8, 39, 100, 101, 115, 99, 114, 39, 58, 32, 39, 60, 102, 52, 39, 44, 32, 39, 102, 111,
        114, 116, 114, 97, 110, 95, 111, 114, 100, 101, 114, 39, 58, 32, 70, 97, 108, 115, 101,
        44, 32, 39, 115, 104, 97, 112, 101, 39, 58, 32, 40,
    ];
    let mut d: Vec<u8> = Vec::new();
    push_all(&mut d, &open_text);
    push_decimal(&mut d, num_rows as u64);
    d.push(44);
    d.push(32);
    push_decimal(&mut d, num_cols as u64);
    d.push(41);
    d.push(125);
    assert(open_text@ =~= descriptor_open());
    assert(d@ =~= descriptor(rows, cols));
    let n: usize = d.len();

    let mut h: Vec<u8> = vec![147u8, 78, 85, 77, 80, 89, 1, 0];
    h.push((n % 256) as u8);
    h.push((n / 256) as u8);
    push_all(&mut h, &d);
    let ghost filled = h@;
    while h.len() < HEADER_LEN - 1
        invariant
            filled.len() == 10 + n,
            n <= MAX_DESCRIPTOR_LEN,
            filled.len() <= h@.len() <= HEADER_LEN - 1,
            h@ == filled + spaces((h@.len() - filled.len()) as nat),
        decreases HEADER_LEN - h@.len(),
    {
        h.push(32);
        assert(h@ =~= filled + spaces((h@.len() - filled.len()) as nat));
    }
    h.push(10);
    assert(h@ =~= header_bytes(rows, cols));
    h
}

} // verus!
