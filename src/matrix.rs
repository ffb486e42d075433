use vstd::prelude::*;

use crate::error::ShapeError;
use crate::window::{n_cols, rows_view};

verus! {

/// The first constraint that the asset series break, if any: there must be at
/// least one asset, and every series must be as long as the first.
pub open spec fn assets_error<T>(series: Seq<Seq<T>>) -> Option<ShapeError> {
    if series.len() == 0 {
        Some(ShapeError::NoRows)
    } else if exists|a: int| 0 <= a < series.len() && #[trigger] series[a].len() != n_cols(series) {
        Some(ShapeError::RaggedRows)
    } else {
        None
    }
}

/// The global price matrix: a riskless row holding `riskless` in every period,
/// then one row per asset series, in the order given.
pub open spec fn global_price_matrix<T>(riskless: T, series: Seq<Seq<T>>) -> Seq<Seq<T>> {
    seq![Seq::new(n_cols(series) as nat, |c: int| riskless)] + series
}

/// Puts the riskless row and the asset series together into one price matrix,
/// rows by asset and columns by period.
pub fn build_global_price_matrix<T: Copy>(riskless: T, series: &Vec<Vec<T>>) -> (r: Result<
    Vec<Vec<T>>,
    ShapeError,
>)
    ensures
        r is Err <==> assets_error(rows_view(series@)) is Some,
        r matches Err(e) ==> assets_error(rows_view(series@)) == Some(e),
        r matches Ok(m) ==> rows_view(m@) == global_price_matrix(riskless, rows_view(series@)),
{
    let ghost g = rows_view(series@);
    if series.len() == 0 {
        return Err(ShapeError::NoRows);
    }
    let cols = series[0].len();
    let mut first: Vec<T> = Vec::new();
    let mut c: usize = 0;
    while c < cols
        invariant
            c <= cols,
            first@.len() == c,
            forall|i: int| 0 <= i < c ==> #[trigger] first@[i] == riskless,
        decreases cols - c,
    {
        first.push(riskless);
        c += 1;
    }
    let mut m: Vec<Vec<T>> = Vec::new();
    m.push(first);
    let mut a: usize = 0;
    while a < series.len()
        invariant
            g == rows_view(series@),
            cols == n_cols(g),
            a <= series@.len(),
            m@.len() == a + 1,
            m@[0]@ == Seq::new(cols as nat, |c: int| riskless),
            forall|i: int| 0 <= i < a ==> #[trigger] g[i].len() == cols,
            forall|i: int| 0 <= i < a ==> #[trigger] m@[i + 1]@ == g[i],
        decreases series@.len() - a,
    {
        let row = &series[a];
        if row.len() != cols {
            assert(g[a as int].len() != n_cols(g));
            return Err(ShapeError::RaggedRows);
        }
        let mut copy: Vec<T> = Vec::new();
        let mut c: usize = 0;
        while c < cols
            invariant
                c <= cols,
                cols == row@.len(),
                copy@.len() == c,
                forall|i: int| 0 <= i < c ==> #[trigger] copy@[i] == row@[i],
            decreases cols - c,
        {
            copy.push(row[c]);
            c += 1;
        }
        assert(copy@ =~= row@);
        m.push(copy);
        a += 1;
    }
    assert(rows_view(m@) =~= global_price_matrix(riskless, g)) by {
        assert forall|i: int| 0 <= i < m@.len() implies #[trigger] rows_view(m@)[i] == global_price_matrix(
            riskless,
            g,
        )[i] by {
            if i > 0 {
                assert(m@[(i - 1) + 1]@ == g[i - 1]);
            }
        }
    }
    Ok(m)
}

} // verus!
