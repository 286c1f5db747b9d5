use vstd::prelude::*;

verus! {

use vstd::arithmetic::mul::lemma_mul_inequality;

/// A type with a designated zero value, used to allocate cleared buffers.
pub trait Zero: Sized + Copy {
    spec fn zero_spec() -> Self;

    fn zero() -> (r: Self)
        ensures
            r == Self::zero_spec(),
    ;
}

impl Zero for u8 {
    open spec fn zero_spec() -> u8 {
        0
    }

    fn zero() -> u8 {
        0
    }
}

impl Zero for i32 {
    open spec fn zero_spec() -> i32 {
        0
    }

    fn zero() -> i32 {
        0
    }
}

/// Row-major two-dimensional array.  The view is a sequence of rows.
pub struct Array2D<T> {
    rows: usize,
    cols: usize,
    data: Vec<T>,
}

impl<T> Array2D<T> {
    pub closed spec fn view(&self) -> Seq<Seq<T>> {
        Seq::new(
            self.rows as nat,
            |r: int| Seq::new(self.cols as nat, |c: int| self.data@[r * self.cols + c]),
        )
    }

    pub closed spec fn wf(&self) -> bool {
        &&& self.data@.len() == self.rows * self.cols
        &&& self.rows * self.cols <= usize::MAX
    }

    pub closed spec fn spec_rows(&self) -> nat {
        self.rows as nat
    }

    pub closed spec fn spec_cols(&self) -> nat {
        self.cols as nat
    }

    pub fn rows(&self) -> (r: usize)
        ensures
            r == self.spec_rows(),
    {
        self.rows
    }

    pub fn cols(&self) -> (r: usize)
        ensures
            r == self.spec_cols(),
    {
        self.cols
    }

    /// The dimensions are machine sizes.
    pub proof fn lemma_dims(&self)
        ensures
            self.spec_rows() <= usize::MAX,
            self.spec_cols() <= usize::MAX,
    {
    }

    proof fn lemma_index(&self, r: int, c: int)
        requires
            self.wf(),
            0 <= r < self.rows,
            0 <= c < self.cols,
        ensures
            0 <= r * self.cols + c < self.data@.len(),
            self@[r][c] == self.data@[r * self.cols + c],
    {
        lemma_mul_inequality(r + 1, self.rows as int, self.cols as int);
        assert((r + 1) * self.cols == r * self.cols + self.cols) by (nonlinear_arith);
        assert(r * self.cols >= 0) by (nonlinear_arith)
            requires
                r >= 0,
                self.cols >= 0,
        ;
    }
}

/// The view has `rows` rows of `cols` entries each.
pub open spec fn grid_dims<T>(v: Seq<Seq<T>>, rows: nat, cols: nat) -> bool {
    &&& v.len() == rows
    &&& forall|r: int| 0 <= r < rows ==> #[trigger] v[r].len() == cols
}

impl<T: Copy> Array2D<T> {
    pub fn get(&self, r: usize, c: usize) -> (v: T)
        requires
            self.wf(),
            r < self.spec_rows(),
            c < self.spec_cols(),
        ensures
            v == self@[r as int][c as int],
    {
        proof {
            self.lemma_index(r as int, c as int);
        }
        self.data[r * self.cols + c]
    }

    pub fn set(&mut self, r: usize, c: usize, v: T)
        requires
            old(self).wf(),
            r < old(self).spec_rows(),
            c < old(self).spec_cols(),
        ensures
            final(self).wf(),
            final(self).spec_rows() == old(self).spec_rows(),
            final(self).spec_cols() == old(self).spec_cols(),
            final(self)@ == old(self)@.update(
                r as int,
                old(self)@[r as int].update(c as int, v),
            ),
    {
        proof {
            self.lemma_index(r as int, c as int);
            assert(r * self.cols + c < self.data@.len());
        }
        let i = r * self.cols + c;
        self.data.set(i, v);
        proof {
            assert forall|r2: int| 0 <= r2 < self.rows implies self@[r2] =~= old(self)@.update(
                r as int,
                old(self)@[r as int].update(c as int, v),
            )[r2] by {
                assert forall|c2: int| 0 <= c2 < self.cols implies self@[r2][c2] == old(
                    self,
                )@.update(r as int, old(self)@[r as int].update(c as int, v))[r2][c2] by {
                    old(self).lemma_index(r2, c2);
                    self.lemma_index(r2, c2);
                    if r2 * self.cols + c2 == r * self.cols + c {
                        assert(r2 == r && c2 == c) by (nonlinear_arith)
                            requires
                                r2 * self.cols + c2 == r * self.cols + c,
                                0 <= c2 < self.cols,
                                0 <= c < self.cols,
                                0 <= r2,
                                0 <= r,
                        ;
                    }
                }
            }
            assert(self@ =~= old(self)@.update(
                r as int,
                old(self)@[r as int].update(c as int, v),
            ));
        }
    }

    /// Fill a rows x cols region whose top-left corner is (row_start, col_start).
    pub fn fill_region(&mut self, row_start: usize, col_start: usize, rows: usize, cols: usize, value: T)
        requires
            old(self).wf(),
            row_start + rows <= old(self).spec_rows(),
            col_start + cols <= old(self).spec_cols(),
        ensures
            final(self).wf(),
            final(self).spec_rows() == old(self).spec_rows(),
            final(self).spec_cols() == old(self).spec_cols(),
            grid_dims(final(self)@, old(self).spec_rows(), old(self).spec_cols()),
            forall|r: int, c: int|
                0 <= r < old(self).spec_rows() && 0 <= c < old(self).spec_cols()
                    ==> #[trigger] final(self)@[r][c] == (if row_start <= r < row_start + rows
                    && col_start <= c < col_start + cols {
                    value
                } else {
                    old(self)@[r][c]
                }),
    {
        let mut r: usize = row_start;
        while r < row_start + rows
            invariant
                self.wf(),
                row_start <= r <= row_start + rows,
                row_start + rows <= self.spec_rows(),
                col_start + cols <= self.spec_cols(),
                self.spec_rows() == old(self).spec_rows(),
                self.spec_cols() == old(self).spec_cols(),
                forall|r2: int, c2: int|
                    0 <= r2 < self.spec_rows() && 0 <= c2 < self.spec_cols()
                        ==> #[trigger] self@[r2][c2] == (if row_start <= r2 < r && col_start <= c2
                        < col_start + cols {
                        value
                    } else {
                        old(self)@[r2][c2]
                    }),
            decreases row_start + rows - r,
        {
            let mut c: usize = col_start;
            while c < col_start + cols
                invariant
                    self.wf(),
                    row_start <= r < row_start + rows,
                    col_start <= c <= col_start + cols,
                    row_start + rows <= self.spec_rows(),
                    col_start + cols <= self.spec_cols(),
                    self.spec_rows() == old(self).spec_rows(),
                    self.spec_cols() == old(self).spec_cols(),
                    forall|r2: int, c2: int|
                        0 <= r2 < self.spec_rows() && 0 <= c2 < self.spec_cols()
                            ==> #[trigger] self@[r2][c2] == (if (row_start <= r2 < r && col_start
                            <= c2 < col_start + cols) || (r2 == r && col_start <= c2 < c) {
                            value
                        } else {
                            old(self)@[r2][c2]
                        }),
                decreases col_start + cols - c,
            {
                self.set(r, c, value);
                c = c + 1;
            }
            r = r + 1;
        }
    }
}

impl<T: Copy> Array2D<T> {
    /// A rows x cols array with every entry equal to `value`.
    pub fn filled(rows: usize, cols: usize, value: T) -> (a: Self)
        requires
            rows * cols <= usize::MAX,
        ensures
            a.wf(),
            a.spec_rows() == rows,
            a.spec_cols() == cols,
            grid_dims(a@, rows as nat, cols as nat),
            forall|r: int, c: int|
                0 <= r < rows && 0 <= c < cols ==> #[trigger] a@[r][c] == value,
    {
        let n = rows * cols;
        let mut data: Vec<T> = Vec::new();
        let mut i: usize = 0;
        while i < n
            invariant
                data@.len() == i,
                i <= n,
                forall|k: int| 0 <= k < i ==> #[trigger] data@[k] == value,
            decreases n - i,
        {
            data.push(value);
            i = i + 1;
        }
        let a = Array2D { rows, cols, data };
        proof {
            assert forall|r: int, c: int| 0 <= r < rows && 0 <= c < cols implies #[trigger] a@[r][c]
                == value by {
                a.lemma_index(r, c);
            }
        }
        a
    }
}

impl<T: Zero> Array2D<T> {
    /// A rows x cols array with every entry zero.
    pub fn zeroed(rows: usize, cols: usize) -> (a: Self)
        requires
            rows * cols <= usize::MAX,
        ensures
            a.wf(),
            a.spec_rows() == rows,
            a.spec_cols() == cols,
            grid_dims(a@, rows as nat, cols as nat),
            forall|r: int, c: int|
                0 <= r < rows && 0 <= c < cols ==> #[trigger] a@[r][c] == T::zero_spec(),
    {
        let n = rows * cols;
        let mut data: Vec<T> = Vec::new();
        let z = T::zero();
        let mut i: usize = 0;
        while i < n
            invariant
                data@.len() == i,
                i <= n,
                z == T::zero_spec(),
                forall|k: int| 0 <= k < i ==> #[trigger] data@[k] == T::zero_spec(),
            decreases n - i,
        {
            data.push(z);
            i = i + 1;
        }
        let a = Array2D { rows, cols, data };
        proof {
            assert forall|r: int, c: int| 0 <= r < rows && 0 <= c < cols implies #[trigger] a@[r][c]
                == T::zero_spec() by {
                a.lemma_index(r, c);
            }
        }
        a
    }
}

impl<T: Zero> Array2D<T> {
    /// Transpose into dst, which must have the transposed dimensions.
    pub fn transpose_into(&self, dst: &mut Array2D<T>)
        requires
            self.wf(),
            old(dst).wf(),
            self.spec_rows() == old(dst).spec_cols(),
            self.spec_cols() == old(dst).spec_rows(),
        ensures
            final(dst).wf(),
            final(dst).spec_rows() == old(dst).spec_rows(),
            final(dst).spec_cols() == old(dst).spec_cols(),
            grid_dims(final(dst)@, old(dst).spec_rows(), old(dst).spec_cols()),
            forall|r: int, c: int|
                0 <= r < old(dst).spec_rows() && 0 <= c < old(dst).spec_cols()
                    ==> #[trigger] final(dst)@[r][c] == self@[c][r],
    {
        let mut i: usize = 0;
        while i < self.cols
            invariant
                self.wf(),
                dst.wf(),
                i <= self.spec_cols(),
                self.spec_rows() == dst.spec_cols(),
                self.spec_cols() == dst.spec_rows(),
                forall|r: int, c: int|
                    0 <= r < i && 0 <= c < dst.spec_cols() ==> #[trigger] dst@[r][c] == self@[c][r],
            decreases self.spec_cols() - i,
        {
            let mut j: usize = 0;
            while j < self.rows
                invariant
                    self.wf(),
                    dst.wf(),
                    i < self.spec_cols(),
                    j <= self.spec_rows(),
                    self.spec_rows() == dst.spec_cols(),
                    self.spec_cols() == dst.spec_rows(),
                    forall|r: int, c: int|
                        0 <= r < i && 0 <= c < dst.spec_cols() ==> #[trigger] dst@[r][c]
                            == self@[c][r],
                    forall|c: int| 0 <= c < j ==> #[trigger] dst@[i as int][c] == self@[c][i as int],
                decreases self.spec_rows() - j,
            {
                let v = self.get(j, i);
                dst.set(i, j, v);
                j = j + 1;
            }
            i = i + 1;
        }
    }

    /// A newly allocated transpose of self.
    pub fn transpose(&self) -> (r: Array2D<T>)
        requires
            self.wf(),
            self.spec_rows() * self.spec_cols() <= usize::MAX,
        ensures
            r.wf(),
            r.spec_rows() == self.spec_cols(),
            r.spec_cols() == self.spec_rows(),
            grid_dims(r@, self.spec_cols(), self.spec_rows()),
            forall|i: int, j: int|
                0 <= i < self.spec_cols() && 0 <= j < self.spec_rows() ==> #[trigger] r@[i][j]
                    == self@[j][i],
    {
        proof {
            assert(self.spec_cols() * self.spec_rows() == self.spec_rows() * self.spec_cols())
                by (nonlinear_arith);
        }
        let mut dst = Array2D::<T>::zeroed(self.cols, self.rows);
        self.transpose_into(&mut dst);
        dst
    }
}


impl<T: Copy> Array2D<T> {
    /// Copy of one row.
    pub fn get_row(&self, r: usize) -> (v: Vec<T>)
        requires
            self.wf(),
            r < self.spec_rows(),
        ensures
            v@ == self@[r as int],
            v@.len() == self.spec_cols(),
    {
        let mut v: Vec<T> = Vec::new();
        let mut c: usize = 0;
        while c < self.cols
            invariant
                self.wf(),
                r < self.spec_rows(),
                v@.len() == c,
                c <= self.spec_cols(),
                forall|k: int| 0 <= k < c ==> #[trigger] v@[k] == self@[r as int][k],
            decreases self.spec_cols() - c,
        {
            let x = self.get(r, c);
            v.push(x);
            c = c + 1;
        }
        proof {
            assert(v@ =~= self@[r as int]);
        }
        v
    }

    /// Overwrite one row.
    pub fn set_row(&mut self, r: usize, v: &Vec<T>)
        requires
            old(self).wf(),
            r < old(self).spec_rows(),
            v@.len() == old(self).spec_cols(),
        ensures
            final(self).wf(),
            final(self).spec_rows() == old(self).spec_rows(),
            final(self).spec_cols() == old(self).spec_cols(),
            final(self)@ == old(self)@.update(r as int, v@),
    {
        let mut c: usize = 0;
        proof {
            assert(old(self)@[r as int].take(0).add(v@.take(0)) + old(self)@[r as int].skip(0)
                =~= old(self)@[r as int]);
            assert(old(self)@.update(r as int, old(self)@[r as int]) =~= old(self)@);
        }
        while c < self.cols
            invariant
                self.wf(),
                self.spec_rows() == old(self).spec_rows(),
                self.spec_cols() == old(self).spec_cols(),
                r < self.spec_rows(),
                v@.len() == self.spec_cols(),
                c <= self.spec_cols(),
                self@ == old(self)@.update(
                    r as int,
                    old(self)@[r as int].take(0).add(v@.take(c as int)) + old(self)@[
                        r as int
                    ].skip(c as int),
                ),
            decreases self.spec_cols() - c,
        {
            let ghost prev = self@;
            let x = v[c];
            self.set(r, c, x);
            proof {
                assert(self@[r as int] =~= old(self)@[r as int].take(0).add(
                    v@.take(c + 1),
                ) + old(self)@[r as int].skip(c + 1));
                assert(self@ =~= old(self)@.update(
                    r as int,
                    old(self)@[r as int].take(0).add(v@.take(c + 1)) + old(self)@[
                        r as int
                    ].skip(c + 1),
                ));
            }
            c = c + 1;
        }
        proof {
            assert(old(self)@[r as int].take(0).add(v@.take(self.spec_cols() as int)) + old(
                self,
            )@[r as int].skip(self.spec_cols() as int) =~= v@);
            assert(self@ =~= old(self)@.update(r as int, v@));
        }
    }
}

} // verus!
