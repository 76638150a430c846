use super::Matrix;
use vstd::prelude::*;
use vstd::string::{to_string_from_display_ensures, StrSliceExecFns, StringExecFns};
use vstd::utf8::encode_utf8;

verus! {

/// A run of `n` spaces.
pub open spec fn spaces(n: nat) -> Seq<char> {
    Seq::new(n, |k: int| ' ')
}

/// `text` centred in a field of `width` characters: the padding is split in
/// two, and where it is odd the extra space goes to the right. A text that is
/// wider than the field is left as it is.
pub open spec fn centered(text: Seq<char>, width: nat) -> Seq<char> {
    let pad = if width > text.len() {
        (width - text.len()) as nat
    } else {
        0
    };
    spaces(pad / 2) + text + spaces((pad - pad / 2) as nat)
}

/// The size of a text: the number of bytes of its UTF-8 encoding, as `str::len`
/// reports it. For a text of ASCII characters, such as a number, that is the
/// number of its characters.
pub open spec fn size(text: Seq<char>) -> nat {
    (encode_utf8(text).len() as usize) as nat
}

/// Appends `n` spaces to `out`.
fn push_spaces(out: &mut String, n: usize)
    ensures
        final(out)@ == old(out)@ + spaces(n as nat),
{
    let mut k: usize = 0;
    assert(out@ =~= old(out)@ + spaces(0));
    while k < n
        invariant
            k <= n,
            out@ == old(out)@ + spaces(k as nat),
        decreases n - k,
    {
        proof {
            reveal_strlit(" ");
        }
        out.append(" ");
        k += 1;
        assert(out@ =~= old(out)@ + spaces(k as nat));
    }
}

impl<const M: usize, const N: usize> Matrix<String, M, N> {
    /// The size of the largest among the first `j` cells of row `i`.
    pub open spec fn row_widest(self, i: int, j: nat) -> nat
        decreases j,
    {
        if j == 0 {
            0
        } else {
            let before = self.row_widest(i, (j - 1) as nat);
            let here = size(self.at(i, j - 1)@);
            if here > before {
                here
            } else {
                before
            }
        }
    }

    /// The size of the largest cell among the first `i` rows.
    pub open spec fn widest(self, i: nat) -> nat
        decreases i,
    {
        if i == 0 {
            0
        } else {
            let before = self.widest((i - 1) as nat);
            let here = self.row_widest(i - 1, N as nat);
            if here > before {
                here
            } else {
                before
            }
        }
    }

    /// No cell among the first `n` of row `i` is larger than `row_widest(i, n)`.
    pub proof fn lemma_row_widest(self, i: int, j: int, n: nat)
        requires
            0 <= j < n,
        ensures
            size(self.at(i, j)@) <= self.row_widest(i, n),
        decreases n,
    {
        if j < n - 1 {
            self.lemma_row_widest(i, j, (n - 1) as nat);
        }
    }

    /// No cell among the first `m` rows is larger than `widest(m)`.
    pub proof fn lemma_widest(self, i: int, j: int, m: nat)
        requires
            0 <= i < m,
            0 <= j < N,
        ensures
            size(self.at(i, j)@) <= self.widest(m),
        decreases m,
    {
        if i < m - 1 {
            self.lemma_widest(i, j, (m - 1) as nat);
        } else {
            self.lemma_row_widest(i, j, N as nat);
        }
    }

    /// Where there is a cell at all, `widest(M)` is the size of one of them.
    pub proof fn lemma_widest_attained(self)
        requires
            M > 0,
            N > 0,
        ensures
            exists|i: int, j: int|
                0 <= i < M && 0 <= j < N && size((#[trigger] self.at(i, j))@) == self.widest(
                    M as nat,
                ),
    {
        self.lemma_widest_attained_upto(M as nat);
    }

    proof fn lemma_row_widest_attained(self, i: int, n: nat)
        requires
            n > 0,
        ensures
            exists|j: int| 0 <= j < n && size((#[trigger] self.at(i, j))@) == self.row_widest(i, n),
        decreases n,
    {
        if n == 1 {
            assert(self.row_widest(i, 0) == 0);
            assert(size(self.at(i, 0)@) == self.row_widest(i, 1));
        } else {
            self.lemma_row_widest_attained(i, (n - 1) as nat);
            if size(self.at(i, n - 1)@) > self.row_widest(i, (n - 1) as nat) {
                assert(size(self.at(i, n - 1)@) == self.row_widest(i, n));
            } else {
                let j = choose|j: int|
                    0 <= j < n - 1 && size((#[trigger] self.at(i, j))@) == self.row_widest(
                        i,
                        (n - 1) as nat,
                    );
                assert(size(self.at(i, j)@) == self.row_widest(i, n));
            }
        }
    }

    proof fn lemma_widest_attained_upto(self, m: nat)
        requires
            0 < m <= M,
            N > 0,
        ensures
            exists|i: int, j: int|
                0 <= i < m && 0 <= j < N && size((#[trigger] self.at(i, j))@) == self.widest(m),
        decreases m,
    {
        self.lemma_row_widest_attained(m - 1, N as nat);
        let jj = choose|j: int|
            0 <= j < N && size((#[trigger] self.at(m - 1, j))@) == self.row_widest(m - 1, N as nat);
        if m == 1 {
            assert(self.widest(0) == 0);
            assert(size(self.at(m - 1, jj)@) == self.widest(m));
        } else {
            self.lemma_widest_attained_upto((m - 1) as nat);
            if self.row_widest(m - 1, N as nat) > self.widest((m - 1) as nat) {
                assert(size(self.at(m - 1, jj)@) == self.widest(m));
            } else {
                let (a, b) = choose|a: int, b: int|
                    0 <= a < m - 1 && 0 <= b < N && size((#[trigger] self.at(a, b))@)
                        == self.widest((m - 1) as nat);
                assert(size(self.at(a, b)@) == self.widest(m));
            }
        }
    }

    /// An opening bar followed by the first `j` cells of row `i`, each centred
    /// in a field of `width` characters.
    pub open spec fn row_text(self, i: int, width: nat, j: nat) -> Seq<char>
        decreases j,
    {
        if j == 0 {
            seq!['|']
        } else {
            self.row_text(i, width, (j - 1) as nat) + centered(self.at(i, j - 1)@, width)
        }
    }

    /// Row `i` between two bars.
    pub open spec fn line(self, i: int, width: nat) -> Seq<char> {
        self.row_text(i, width, N as nat) + seq!['|']
    }

    /// The first `k` rows, one per line.
    pub open spec fn lines(self, width: nat, k: nat) -> Seq<char>
        decreases k,
    {
        if k == 0 {
            Seq::empty()
        } else if k == 1 {
            self.line(0, width)
        } else {
            self.lines(width, (k - 1) as nat) + seq!['\n'] + self.line(k - 1, width)
        }
    }

    /// The text of the matrix: each row on a line of its own between two bars,
    /// every cell centred in a field that is two wider than the size of the
    /// largest cell of the whole matrix. A matrix without cells is written `||`.
    pub open spec fn rendered(self) -> Seq<char> {
        if M == 0 || N == 0 {
            seq!['|', '|']
        } else {
            self.lines(self.widest(M as nat) + 2, M as nat)
        }
    }

    /// The size of the largest cell.
    fn widest_cell(&self) -> (r: usize)
        ensures
            r == self.widest(M as nat),
    {
        let mut best: usize = 0;
        let mut i: usize = 0;
        while i < M
            invariant
                i <= M,
                best == self.widest(i as nat),
            decreases M - i,
        {
            let mut row_best: usize = 0;
            let mut j: usize = 0;
            while j < N
                invariant
                    i < M,
                    j <= N,
                    row_best == self.row_widest(i as int, j as nat),
                decreases N - j,
            {
                let len = self[(i, j)].as_str().len();
                if len > row_best {
                    row_best = len;
                }
                j += 1;
            }
            if row_best > best {
                best = row_best;
            }
            i += 1;
        }
        best
    }

    /// Lays out a matrix of texts.
    pub fn render(&self) -> (r: String)
        ensures
            r@ == self.rendered(),
    {
        if M == 0 || N == 0 {
            proof {
                reveal_strlit("||");
            }
            let r = String::from_str("||");
            assert(r@ =~= seq!['|', '|']);
            return r;
        }
        let widest = self.widest_cell();
        let ghost width = (widest + 2) as nat;
        let mut out = String::new();
        let mut i: usize = 0;
        assert(out@ =~= self.lines(width, 0));
        while i < M
            invariant
                i <= M,
                widest == self.widest(M as nat),
                width == widest + 2,
                out@ == self.lines(width, i as nat),
            decreases M - i,
        {
            let ghost before = out@;
            if i > 0 {
                proof {
                    reveal_strlit("\n");
                }
                out.append("\n");
            }
            proof {
                reveal_strlit("|");
            }
            out.append("|");
            let ghost head = if i > 0 {
                before + seq!['\n']
            } else {
                before
            };
            assert(out@ =~= head + self.row_text(i as int, width, 0));
            let mut j: usize = 0;
            while j < N
                invariant
                    i < M,
                    j <= N,
                    widest == self.widest(M as nat),
                    width == widest + 2,
                    out@ == head + self.row_text(i as int, width, j as nat),
                decreases N - j,
            {
                let cell = self[(i, j)].as_str();
                let len = cell.unicode_len();
                let (left, right) = if len <= widest {
                    let slack = widest - len;
                    (slack / 2 + 1, slack - slack / 2 + 1)
                } else if len - widest == 1 {
                    (0, 1)
                } else {
                    (0, 0)
                };
                push_spaces(&mut out, left);
                out.append(cell);
                push_spaces(&mut out, right);
                j += 1;
                assert(out@ =~= head + self.row_text(i as int, width, j as nat));
            }
            out.append("|");
            i += 1;
            assert(out@ =~= self.lines(width, i as nat));
        }
        out
    }
}

impl<T, const M: usize, const N: usize> Matrix<T, M, N> {
    /// Whether `cells` holds, cell by cell, a text that the entry type's own
    /// formatting gives for the entry of `self` there.
    pub open spec fn shown_as(self, cells: Matrix<String, M, N>) -> bool where
        T: std::fmt::Display,
     {
        forall|i: int, j: int|
            0 <= i < M && 0 <= j < N ==> to_string_from_display_ensures::<T>(
                &self.at(i, j),
                #[trigger] cells.at(i, j),
            )
    }

    /// The text of the matrix: every entry is formatted as its type prescribes,
    /// and the texts are laid out as `render` does.
    pub fn to_string(&self) -> (r: String) where T: std::fmt::Display
        ensures
            exists|cells: Matrix<String, M, N>|
                self.shown_as(cells) && r@ == #[trigger] cells.rendered(),
    {
        let cells = self.map(
            |i: usize, j: usize, x: &T| -> (s: String)
                ensures
                    to_string_from_display_ensures::<T>(x, s),
                {
                    x.to_string()
                }
        );
        assert(self.shown_as(cells));
        cells.render()
    }
}

} // verus!
