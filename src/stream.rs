use vstd::prelude::*;

use crate::header::{header_bytes, lemma_descriptor_fits, lemma_header_determines_shape, lemma_header_len, make_header, HEADER_LEN};

verus! {

/// The four little-endian bytes of a 32-bit element.
pub open spec fn le_bytes(x: u32) -> Seq<u8> {
    seq![
        (x % 256) as u8,
        ((x / 256) % 256) as u8,
        ((x / 65536) % 256) as u8,
        (x / 16777216) as u8,
    ]
}

/// The encoding of one row: its elements' little-endian bytes, in order.
pub open spec fn row_bytes(row: Seq<u32>) -> Seq<u8>
    decreases row.len(),
{
    if row.len() == 0 {
        Seq::empty()
    } else {
        row_bytes(row.drop_last()) + le_bytes(row.last())
    }
}

/// The encoding of a sequence of rows, in row-major order.
pub open spec fn rows_bytes(rows: Seq<Seq<u32>>) -> Seq<u8>
    decreases rows.len(),
{
    if rows.len() == 0 {
        Seq::empty()
    } else {
        rows_bytes(rows.drop_last()) + row_bytes(rows.last())
    }
}

/// Every row has exactly `cols` elements.
pub open spec fn all_rows_have_len(rows: Seq<Seq<u32>>, cols: nat) -> bool {
    forall|i: int| 0 <= i < rows.len() ==> (#[trigger] rows[i]).len() == cols
}

/// The complete file for a matrix with the given rows: its header followed by
/// the row data.
pub open spec fn npy_file(rows: Seq<Seq<u32>>, cols: nat) -> Seq<u8> {
    header_bytes(rows.len(), cols) + rows_bytes(rows)
}

/// `file` after `patch` has been written over its start.
pub open spec fn overwrite_start(file: Seq<u8>, patch: Seq<u8>) -> Seq<u8> {
    patch + file.skip(patch.len() as int)
}

/// A row of `n` elements takes `4 * n` bytes.
pub proof fn lemma_row_bytes_len(row: Seq<u32>)
    ensures
        row_bytes(row).len() == 4 * row.len(),
    decreases row.len(),
{
    if row.len() > 0 {
        lemma_row_bytes_len(row.drop_last());
    }
}

/// Rows of `cols` elements each take `4 * cols` bytes apiece.
pub proof fn lemma_rows_bytes_len(rows: Seq<Seq<u32>>, cols: nat)
    requires
        all_rows_have_len(rows, cols),
    ensures
        rows_bytes(rows).len() == 4 * cols * rows.len(),
    decreases rows.len(),
{
    if rows.len() > 0 {
        let init = rows.drop_last();
        assert(all_rows_have_len(init, cols)) by {
            assert forall|i: int| 0 <= i < init.len() implies (#[trigger] init[i]).len() == cols by {
                assert(init[i] == rows[i]);
            }
        }
        lemma_rows_bytes_len(init, cols);
        lemma_row_bytes_len(rows.last());
        assert(rows.last() == rows[rows.len() - 1]);
        assert(4 * cols * init.len() + 4 * cols == 4 * cols * rows.len()) by (nonlinear_arith)
            requires
                init.len() + 1 == rows.len(),
        ;
    }
}

/// Streaming a matrix and patching the reserved header at the end gives the
/// complete file: the header that was written first for zero rows, followed
/// by every row's bytes and then overwritten with the header for the true row
/// count, is exactly the file for those rows. That file is `HEADER_LEN` bytes
/// plus four per element, and the only shape its header reads back as is the
/// number of rows written by the number of columns.
pub proof fn lemma_patched_stream_is_file(rows: Seq<Seq<u32>>, cols: nat)
    requires
        all_rows_have_len(rows, cols),
        rows.len() <= u64::MAX,
        cols <= u64::MAX,
    ensures
        overwrite_start(header_bytes(0, cols) + rows_bytes(rows), header_bytes(rows.len(), cols))
            == npy_file(rows, cols),
        npy_file(rows, cols).len() == HEADER_LEN + 4 * cols * rows.len(),
        forall|r: nat, c: nat|
            r <= u64::MAX && c <= u64::MAX && #[trigger] header_bytes(r, c) == npy_file(
                rows,
                cols,
            ).take(HEADER_LEN as int) ==> r == rows.len() && c == cols,
{
    lemma_descriptor_fits(0, cols);
    lemma_descriptor_fits(rows.len(), cols);
    lemma_header_len(0, cols);
    lemma_header_len(rows.len(), cols);
    lemma_rows_bytes_len(rows, cols);
    let streamed = header_bytes(0, cols) + rows_bytes(rows);
    assert(streamed.skip(HEADER_LEN as int) =~= rows_bytes(rows));
    let file = npy_file(rows, cols);
    assert(file.take(HEADER_LEN as int) =~= header_bytes(rows.len(), cols));
    assert forall|r: nat, c: nat|
        r <= u64::MAX && c <= u64::MAX && #[trigger] header_bytes(r, c) == file.take(
            HEADER_LEN as int,
        ) implies r == rows.len() && c == cols by {
        lemma_header_determines_shape(r, c, rows.len(), cols);
    }
}

/// Appends the little-endian encoding of `row` to `out`.
fn push_row(out: &mut Vec<u8>, row: &Vec<u32>)
    ensures
        final(out)@ == old(out)@ + row_bytes(row@),
{
    let mut i: usize = 0;
    while i < row.len()
        invariant
            i <= row@.len(),
            out@ == old(out)@ + row_bytes(row@.take(i as int)),
        decreases row@.len() - i,
    {
        let x: u32 = row[i];
        out.push((x % 256) as u8);
        out.push(((x / 256) % 256) as u8);
        out.push(((x / 65536) % 256) as u8);
        out.push((x / 16777216) as u8);
        let ghost prev = row@.take(i as int);
        i = i + 1;
        assert(row@.take(i as int).drop_last() =~= prev);
        assert(row_bytes(row@.take(i as int)) == row_bytes(prev) + le_bytes(x));
        assert(out@ =~= old(out)@ + row_bytes(row@.take(i as int)));
    }
    assert(row@.take(i as int) =~= row@);
}

/// The state of a matrix being streamed: a fixed column count and the rows
/// accepted so far. It hands back the bytes to be written: the header that
/// reserves the start of the output, each row's bytes to be appended, and at
/// the end the header to be written over the reserved one.
pub struct NPYStream {
    num_cols: usize,
    num_rows: usize,
    rows: Ghost<Seq<Seq<u32>>>,
}

impl NPYStream {
    /// Number of columns of every row.
    pub closed spec fn cols(&self) -> nat {
        self.num_cols as nat
    }

    /// The rows accepted so far, each element as the bit pattern of an `f32`.
    pub closed spec fn rows(&self) -> Seq<Seq<u32>> {
        self.rows@
    }

    /// The row counter agrees with the rows accepted, and each of them has
    /// the stream's column count.
    pub closed spec fn wf(&self) -> bool {
        &&& self.num_rows as nat == self.rows@.len()
        &&& all_rows_have_len(self.rows@, self.num_cols as nat)
    }

    /// Opens a stream of `num_cols` columns. Returns it with the header for
    /// zero rows, which reserves the start of the output.
    pub fn new(num_cols: usize) -> (r: (NPYStream, Vec<u8>))
        ensures
            r.0.wf(),
            r.0.cols() == num_cols,
            r.0.rows() == Seq::<Seq<u32>>::empty(),
            r.1@ == header_bytes(0, num_cols as nat),
            r.1@.len() == HEADER_LEN,
    {
        let stream = NPYStream { num_cols, num_rows: 0, rows: Ghost(Seq::empty()) };
        (stream, make_header(0, num_cols))
    }

    /// Accepts one row, each element given as the bit pattern of an `f32`
    /// (`f32::to_bits`). Returns the bytes to append to the output.
    pub fn write(&mut self, row: &Vec<u32>) -> (r: Vec<u8>)
        requires
            old(self).wf(),
            row@.len() == old(self).cols(),
            old(self).rows().len() < usize::MAX,
        ensures
            final(self).wf(),
            final(self).cols() == old(self).cols(),
            final(self).rows() == old(self).rows().push(row@),
            r@ == row_bytes(row@),
    {
        let mut out: Vec<u8> = Vec::new();
        push_row(&mut out, row);
        let ghost before = self.rows@;
        self.rows = Ghost(before.push(row@));
        self.num_rows = self.num_rows + 1;
        assert(all_rows_have_len(self.rows@, self.num_cols as nat)) by {
            assert forall|i: int| 0 <= i < self.rows@.len() implies (#[trigger] self.rows@[i]).len()
                == self.num_cols as nat by {
                if i < before.len() {
                    assert(self.rows@[i] == before[i]);
                }
            }
        }
        assert(out@ =~= row_bytes(row@));
        out
    }

    /// Number of rows accepted so far.
    pub fn num_rows(&self) -> (r: usize)
        requires
            self.wf(),
        ensures
            r == self.rows().len(),
    {
        self.num_rows
    }

    /// Number of columns of every row.
    pub fn num_cols(&self) -> (r: usize)
        ensures
            r == self.cols(),
    {
        self.num_cols
    }

    /// Closes the stream. Returns the header for the rows accepted, to be
    /// written over the one reserved at the start once every appended byte
    /// has reached the output.
    pub fn finish(self) -> (r: Vec<u8>)
        requires
            self.wf(),
        ensures
            r@ == header_bytes(self.rows().len(), self.cols()),
            r@.len() == HEADER_LEN,
    {
        make_header(self.num_rows, self.num_cols)
    }
}

} // verus!
