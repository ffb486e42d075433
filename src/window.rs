use vstd::prelude::*;

use crate::error::ShapeError;

verus! {

/// One entry of a normalized price matrix, kept as the exact quotient `num / den`.
///
/// Prices are divided only where the values leave the library, so the entries
/// stay exact whatever the number type of the prices.
#[derive(Clone, Copy, Debug, PartialEq)]
pub struct Ratio<T> {
    pub num: T,
    pub den: T,
}

/// The rows of a matrix held as a vector of vectors.
pub open spec fn rows_view<T>(m: Seq<Vec<T>>) -> Seq<Seq<T>> {
    m.map_values(|v: Vec<T>| v@)
}

/// A stack of matrices held as a vector of vectors of vectors.
pub open spec fn stack_view<T>(m: Seq<Vec<Vec<T>>>) -> Seq<Seq<Seq<T>>> {
    m.map_values(|v: Vec<Vec<T>>| rows_view(v@))
}

/// The column count of a matrix, read off its first row.
pub open spec fn n_cols<T>(g: Seq<Seq<T>>) -> int {
    if g.len() == 0 {
        0
    } else {
        g[0].len() as int
    }
}

/// Every row has the same length as the first.
pub open spec fn is_rectangular<T>(g: Seq<Seq<T>>) -> bool {
    forall|r: int| 0 <= r < g.len() ==> #[trigger] g[r].len() == n_cols(g)
}

/// The first constraint of the windowing transform that `g` and `w` break, if any.
pub open spec fn window_error<T>(g: Seq<Seq<T>>, w: int) -> Option<ShapeError> {
    if g.len() == 0 {
        Some(ShapeError::NoRows)
    } else if !is_rectangular(g) {
        Some(ShapeError::RaggedRows)
    } else if w < 1 {
        Some(ShapeError::WindowTooSmall)
    } else if w >= n_cols(g) {
        Some(ShapeError::WindowTooLarge)
    } else {
        None
    }
}

/// The `w` prices of `row` from period `start` on, each over the last of them.
pub open spec fn normalized_span<T>(row: Seq<T>, start: int, w: int) -> Seq<Ratio<T>> {
    Seq::new(w as nat, |j: int| Ratio { num: row[start + j], den: row[start + w - 1] })
}

/// The window of decision point `k + w - 1`: columns `k ..= k + w - 1` of every
/// row, normalized by the column of the decision point.
pub open spec fn local_window<T>(g: Seq<Seq<T>>, w: int, k: int) -> Seq<Seq<Ratio<T>>> {
    g.map_values(|row: Seq<T>| normalized_span(row, k, w))
}

/// The realized change of every row over the period after decision point `k + w - 1`.
pub open spec fn change_rate<T>(g: Seq<Seq<T>>, w: int, k: int) -> Seq<Ratio<T>> {
    g.map_values(|row: Seq<T>| Ratio { num: row[k + w], den: row[k + w - 1] })
}

/// The local price matrix: one normalized window per decision point, in order.
pub open spec fn local_price_matrix<T>(g: Seq<Seq<T>>, w: int) -> Seq<Seq<Seq<Ratio<T>>>> {
    Seq::new((n_cols(g) - w) as nat, |k: int| local_window(g, w, k))
}

/// The price change rates, paired index for index with the local price matrix.
pub open spec fn price_change_rates<T>(g: Seq<Seq<T>>, w: int) -> Seq<Seq<Ratio<T>>> {
    Seq::new((n_cols(g) - w) as nat, |k: int| change_rate(g, w, k))
}

fn normalize_span<T: Copy>(row: &Vec<T>, start: usize, w: usize) -> (r: Vec<Ratio<T>>)
    requires
        1 <= w,
        start + w <= row.len(),
    ensures
        r@ == normalized_span(row@, start as int, w as int),
{
    let last = row[start + w - 1];
    let mut out: Vec<Ratio<T>> = Vec::new();
    let mut j: usize = 0;
    while j < w
        invariant
            j <= w,
            1 <= w,
            start + w <= row.len(),
            last == row@[start + w - 1],
            out@.len() == j,
            forall|i: int| 0 <= i < j ==> #[trigger] out@[i] == (Ratio {
                num: row@[start + i],
                den: row@[start + w - 1],
            }),
        decreases w - j,
    {
        out.push(Ratio { num: row[start + j], den: last });
        j += 1;
    }
    assert(out@ =~= normalized_span(row@, start as int, w as int));
    out
}

fn window_at<T: Copy>(gpm: &Vec<Vec<T>>, cols: usize, k: usize, w: usize) -> (r: (
    Vec<Vec<Ratio<T>>>,
    Vec<Ratio<T>>,
))
    requires
        window_error(rows_view(gpm@), w as int).is_none(),
        cols == n_cols(rows_view(gpm@)),
        k + w < cols,
    ensures
        rows_view(r.0@) == local_window(rows_view(gpm@), w as int, k as int),
        r.1@ == change_rate(rows_view(gpm@), w as int, k as int),
{
    let ghost g = rows_view(gpm@);
    let mut win: Vec<Vec<Ratio<T>>> = Vec::new();
    let mut rate: Vec<Ratio<T>> = Vec::new();
    let mut a: usize = 0;
    while a < gpm.len()
        invariant
            g == rows_view(gpm@),
            window_error(g, w as int).is_none(),
            cols == n_cols(g),
            k + w < cols,
            a <= gpm@.len(),
            win@.len() == a,
            rate@.len() == a,
            forall|b: int| 0 <= b < a ==> #[trigger] win@[b]@ == local_window(g, w as int, k as int)[b],
            forall|b: int| 0 <= b < a ==> #[trigger] rate@[b] == change_rate(g, w as int, k as int)[b],
        decreases gpm@.len() - a,
    {
        let row = &gpm[a];
        assert(g[a as int] == row@);
        assert(g[a as int].len() == n_cols(g));
        win.push(normalize_span(row, k, w));
        rate.push(Ratio { num: row[k + w], den: row[k + w - 1] });
        a += 1;
    }
    assert(rows_view(win@) =~= local_window(g, w as int, k as int));
    assert(rate@ =~= change_rate(g, w as int, k as int));
    (win, rate)
}

/// Cuts the price matrix `gpm` (one row per asset, one column per period) into
/// overlapping windows of `window_size` periods.
///
/// For each decision point `i` with `window_size - 1 <= i <= T - 2`, the window
/// holds columns `i - window_size + 1 ..= i`, each over column `i`, and the
/// change rate holds column `i + 1` over column `i`. The first result stacks the
/// windows, the second the change rates, both in increasing `i`.
pub fn make_local_price_matrix<T: Copy>(gpm: &Vec<Vec<T>>, window_size: usize) -> (r: Result<
    (Vec<Vec<Vec<Ratio<T>>>>, Vec<Vec<Ratio<T>>>),
    ShapeError,
>)
    ensures
        r is Err <==> window_error(rows_view(gpm@), window_size as int) is Some,
        r matches Err(e) ==> window_error(rows_view(gpm@), window_size as int) == Some(e),
        r matches Ok((lpm, pcr)) ==> {
            let g = rows_view(gpm@);
            let w = window_size as int;
            &&& stack_view(lpm@) == local_price_matrix(g, w)
            &&& rows_view(pcr@) == price_change_rates(g, w)
            // shape: [T - W, R, W] and [T - W, R]
            &&& lpm@.len() == n_cols(g) - w
            &&& pcr@.len() == lpm@.len()
            &&& forall|k: int| 0 <= k < lpm@.len() ==> #[trigger] lpm@[k]@.len() == g.len()
            &&& forall|k: int| 0 <= k < pcr@.len() ==> #[trigger] pcr@[k]@.len() == g.len()
            &&& forall|k: int, a: int|
                0 <= k < lpm@.len() && 0 <= a < g.len() ==> #[trigger] lpm@[k]@[a]@.len() == w
            // the last column of every window is its own divisor
            &&& forall|k: int, a: int|
                0 <= k < lpm@.len() && 0 <= a < g.len() ==> (#[trigger] lpm@[k]@[a]@[w - 1]).num
                    == lpm@[k]@[a]@[w - 1].den
            // each change rate is the next price over the window's divisor
            &&& forall|k: int, a: int|
                0 <= k < pcr@.len() && 0 <= a < g.len() ==> #[trigger] pcr@[k]@[a] == (Ratio {
                    num: g[a][k + w],
                    den: g[a][k + w - 1],
                })
            &&& forall|k: int, a: int|
                0 <= k < pcr@.len() && 0 <= a < g.len() ==> (#[trigger] pcr@[k]@[a]).den
                    == lpm@[k]@[a]@[w - 1].den
        },
{
    let ghost g = rows_view(gpm@);
    let rows = gpm.len();
    if rows == 0 {
        return Err(ShapeError::NoRows);
    }
    let cols = gpm[0].len();
    let mut a: usize = 1;
    while a < rows
        invariant
            g == rows_view(gpm@),
            rows == gpm@.len(),
            1 <= a <= rows,
            cols == n_cols(g),
            forall|b: int| 0 <= b < a ==> #[trigger] g[b].len() == cols,
        decreases rows - a,
    {
        if gpm[a].len() != cols {
            assert(g[a as int].len() != n_cols(g));
            return Err(ShapeError::RaggedRows);
        }
        a += 1;
    }
    if window_size < 1 {
        return Err(ShapeError::WindowTooSmall);
    }
    if window_size >= cols {
        return Err(ShapeError::WindowTooLarge);
    }
    let n = cols - window_size;
    let ghost w = window_size as int;
    let mut lpm: Vec<Vec<Vec<Ratio<T>>>> = Vec::new();
    let mut pcr: Vec<Vec<Ratio<T>>> = Vec::new();
    let mut k: usize = 0;
    while k < n
        invariant
            g == rows_view(gpm@),
            window_error(g, w) is None,
            w == window_size,
            n == n_cols(g) - w,
            cols == n_cols(g),
            k <= n,
            lpm@.len() == k,
            pcr@.len() == k,
            forall|i: int| 0 <= i < k ==> rows_view(#[trigger] lpm@[i]@) == local_window(g, w, i),
            forall|i: int| 0 <= i < k ==> #[trigger] pcr@[i]@ == change_rate(g, w, i),
        decreases n - k,
    {
        let (win, rate) = window_at(gpm, cols, k, window_size);
        lpm.push(win);
        pcr.push(rate);
        k += 1;
    }
    assert(stack_view(lpm@) =~= local_price_matrix(g, w));
    assert(rows_view(pcr@) =~= price_change_rates(g, w));
    assert forall|i: int| 0 <= i < lpm@.len() implies #[trigger] lpm@[i]@.len() == g.len() by {
        assert(rows_view(lpm@[i]@) == local_window(g, w, i));
    }
    assert forall|i: int| 0 <= i < pcr@.len() implies #[trigger] pcr@[i]@.len() == g.len() by {
        assert(pcr@[i]@ == change_rate(g, w, i));
    }
    assert forall|i: int, a: int| 0 <= i < lpm@.len() && 0 <= a < g.len() implies #[trigger] lpm@[i]@[a]@
        == normalized_span(g[a], i, w) by {
        assert(rows_view(lpm@[i]@) == local_window(g, w, i));
        assert(rows_view(lpm@[i]@)[a] == lpm@[i]@[a]@);
    }
    Ok((lpm, pcr))
}

} // verus!
