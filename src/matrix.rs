use vstd::prelude::*;

verus! {

/// A dense, row-major grid of `height` rows and `width` columns.
pub struct Matrix<T> {
    data: Vec<T>,
    width: usize,
    height: usize,
}

impl<T> View for Matrix<T> {
    type V = Seq<T>;

    /// The cells, row after row.
    closed spec fn view(&self) -> Seq<T> {
        self.data@
    }
}

impl<T> Matrix<T> {
    pub closed spec fn spec_width(&self) -> nat {
        self.width as nat
    }

    pub closed spec fn spec_height(&self) -> nat {
        self.height as nat
    }

    /// The grid holds exactly one cell per row and column.
    pub open spec fn wf(&self) -> bool {
        self@.len() == self.spec_width() * self.spec_height()
    }

    /// The cell of row `x` and column `y`.
    pub open spec fn at(&self, x: int, y: int) -> T {
        self@[x * self.spec_width() + y]
    }

    pub fn new(data: Vec<T>, width: usize, height: usize) -> (m: Matrix<T>)
        requires
            data@.len() == width * height,
        ensures
            m.wf(),
            m@ == data@,
            m.spec_width() == width,
            m.spec_height() == height,
    {
        Matrix { data, width, height }
    }

    pub fn as_slice(&self) -> (s: &[T])
        ensures
            s@ == self@,
    {
        self.data.as_slice()
    }

    pub fn width(&self) -> (w: usize)
        ensures
            w == self.spec_width(),
    {
        self.width
    }

    pub fn height(&self) -> (h: usize)
        ensures
            h == self.spec_height(),
    {
        self.height
    }

    /// The cell of row `x` and column `y`.
    pub fn get(&self, x: usize, y: usize) -> (c: &T)
        requires
            self.wf(),
            x < self.spec_height(),
            y < self.spec_width(),
        ensures
            *c == self.at(x as int, y as int),
    {
        // The vector's length is a `usize`, and the cell lies below it.
        let _len: usize = self.data.len();
        proof {
            lemma_cell_index(x as int, y as int, self.width as int, self.height as int);
        }
        &self.data[x * self.width + y]
    }

    /// The cells of row `x`, from left to right.
    pub fn row(&self, x: usize) -> (r: &[T])
        requires
            self.wf(),
            x < self.spec_height(),
        ensures
            r@.len() == self.spec_width(),
            forall|y: int| 0 <= y < self.spec_width() ==> r@[y] == #[trigger] self.at(x as int, y),
    {
        let _len: usize = self.data.len();
        proof {
            assert((x + 1) * self.width <= self.width * self.height) by (nonlinear_arith)
                requires x < self.height;
            assert((x + 1) * self.width == x * self.width + self.width) by (nonlinear_arith);
            assert(0 <= x * self.width) by (nonlinear_arith);
        }
        vstd::slice::slice_subrange(self.data.as_slice(), x * self.width, (x + 1) * self.width)
    }

    /// Turns the grid back into its cells, row after row.
    pub fn into_vec(self) -> (v: Vec<T>)
        ensures
            v@ == self@,
    {
        self.data
    }
}

impl<T: Default> Matrix<T> {
    /// A grid of the given size whose every cell is `T::default()`.
    pub fn zeroed(width: usize, height: usize) -> (m: Matrix<T>)
        requires
            width * height <= usize::MAX,
        ensures
            m.wf(),
            m.spec_width() == width,
            m.spec_height() == height,
            forall|i: int| 0 <= i < m@.len() ==> call_ensures(T::default, (), #[trigger] m@[i]),
    {
        let n: usize = width * height;
        let mut data: Vec<T> = Vec::new();
        let mut i: usize = 0;
        while i < n
            invariant
                i <= n,
                data@.len() == i,
                forall|j: int| 0 <= j < i ==> call_ensures(T::default, (), #[trigger] data@[j]),
            decreases n - i,
        {
            data.push(T::default());
            i = i + 1;
        }
        Matrix { data, width, height }
    }
}

/// Row `x`, column `y` of a `w`-wide grid of `h` rows is a cell of it.
pub proof fn lemma_cell_index(x: int, y: int, w: int, h: int)
    requires
        0 <= x < h,
        0 <= y < w,
    ensures
        0 <= x * w + y < w * h,
        (x * w + y) / w == x,
        (x * w + y) % w == y,
{
    assert(x * w + y < w * h) by (nonlinear_arith)
        requires 0 <= x < h, 0 <= y < w;
    assert(0 <= x * w) by (nonlinear_arith)
        requires 0 <= x, 0 <= w;
    vstd::arithmetic::div_mod::lemma_fundamental_div_mod_converse(x * w + y, w, x, y);
}

} // verus!
