//! Data-layout stages of the per-segment pipeline.
//!
//! These functions fix the row-major layout contracts of the pipeline: how a
//! segment's embedded input is partitioned into query/key/value, how token
//! ids gather rows of the embedding table, and how per-head outputs are
//! concatenated back into the model dimension. They are generic in the
//! element type, so the numeric backends instantiate them with their scalar
//! while the layout itself is verified here.

use vstd::arithmetic::div_mod::{lemma_fundamental_div_mod, lemma_mod_bound};
use vstd::prelude::*;

use crate::errors::EngineError;

verus! {

proof fn lemma_flat_lt(a: int, b: int, rows: int, width: int)
    by (nonlinear_arith)
    requires
        0 <= a < rows,
        0 <= b < width,
    ensures
        0 <= a * width + b,
        a * width + b < rows * width,
{
}

proof fn lemma_mul_le(a: int, b: int, c: int)
    by (nonlinear_arith)
    requires
        0 <= a <= b,
        0 <= c,
    ensures
        a * c <= b * c,
{
}

proof fn lemma_mul_step(a: int, c: int)
    by (nonlinear_arith)
    ensures
        (a + 1) * c == a * c + c,
{
}

/// Partitions an `n x d_model` row-major array into query, key and value
/// arrays, each `n x (d_model / 3)`: the three equal contiguous chunks of
/// every row. No numeric transformation is applied. A model dimension that
/// three does not divide is rejected before any work is done.
pub fn split_qkv<T: Copy>(x: &Vec<T>, n: usize, d_model: usize) -> (r: Result<
    (Vec<T>, Vec<T>, Vec<T>),
    EngineError,
>)
    requires
        x@.len() == n * d_model,
    ensures
        r is Ok <==> d_model % 3 == 0,
        r matches Err(e) ==> e is InvalidConfiguration,
        r matches Ok(t) ==> ({
            let (q, k, v) = t;
            let dk = d_model as int / 3;
            &&& q@.len() == n * dk
            &&& k@.len() == n * dk
            &&& v@.len() == n * dk
            &&& forall|i: int, j: int|
                #![trigger q@[i * dk + j]]
                0 <= i < n && 0 <= j < dk ==> q@[i * dk + j] == x@[i * d_model + j] && k@[i * dk
                    + j] == x@[i * d_model + dk + j] && v@[i * dk + j] == x@[i * d_model + 2 * dk
                    + j]
        }),
{
    if d_model % 3 != 0 {
        return Err(EngineError::InvalidConfiguration);
    }
    let dk = d_model / 3;
    let ghost dki = dk as int;
    let ghost dm = d_model as int;
    let mut q: Vec<T> = Vec::new();
    let mut k: Vec<T> = Vec::new();
    let mut v: Vec<T> = Vec::new();
    let mut i: usize = 0;
    while i < n
        invariant
            0 <= i <= n,
            dm == 3 * dki,
            dki == dk && dm == d_model,
            x@.len() == n * dm,
            q@.len() == i * dki,
            k@.len() == i * dki,
            v@.len() == i * dki,
            forall|a: int, b: int|
                #![trigger q@[a * dki + b]]
                0 <= a < i && 0 <= b < dki ==> q@[a * dki + b] == x@[a * dm + b] && k@[a * dki + b]
                    == x@[a * dm + dki + b] && v@[a * dki + b] == x@[a * dm + 2 * dki + b],
        decreases n - i,
    {
        let mut j: usize = 0;
        while j < dk
            invariant
                0 <= j <= dk,
                0 <= i < n,
                dm == 3 * dki,
                dki == dk && dm == d_model,
                x@.len() == n * dm,
                q@.len() == i * dki + j,
                k@.len() == i * dki + j,
                v@.len() == i * dki + j,
                forall|a: int, b: int|
                    #![trigger q@[a * dki + b]]
                    0 <= a < i && 0 <= b < dki ==> q@[a * dki + b] == x@[a * dm + b] && k@[a * dki
                        + b] == x@[a * dm + dki + b] && v@[a * dki + b] == x@[a * dm + 2 * dki + b],
                forall|b: int|
                    #![trigger q@[i * dki + b]]
                    0 <= b < j ==> q@[i * dki + b] == x@[i * dm + b] && k@[i * dki + b] == x@[i * dm
                        + dki + b] && v@[i * dki + b] == x@[i * dm + 2 * dki + b],
            decreases dk - j,
        {
            proof {
                assert(x.len() == x@.len());
                lemma_mul_le(i as int, n as int, dm);
                lemma_flat_lt(i as int, j as int, n as int, dm);
                lemma_flat_lt(i as int, dki + j, n as int, dm);
                lemma_flat_lt(i as int, 2 * dki + j, n as int, dm);
            }
            let base = i * d_model;
            let qe = x[base + j];
            let ke = x[base + dk + j];
            let ve = x[base + dk + dk + j];
            q.push(qe);
            k.push(ke);
            v.push(ve);
            proof {
                assert forall|a: int, b: int|
                    #![trigger q@[a * dki + b]]
                    0 <= a < i && 0 <= b < dki implies q@[a * dki + b] == x@[a * dm + b] && k@[a
                    * dki + b] == x@[a * dm + dki + b] && v@[a * dki + b] == x@[a * dm + 2 * dki
                    + b] by {
                    lemma_flat_lt(a, b, i as int, dki);
                }
            }
            j = j + 1;
        }
        proof {
            lemma_mul_step(i as int, dki);
            assert forall|a: int, b: int|
                #![trigger q@[a * dki + b]]
                0 <= a < i + 1 && 0 <= b < dki implies q@[a * dki + b] == x@[a * dm + b] && k@[a
                * dki + b] == x@[a * dm + dki + b] && v@[a * dki + b] == x@[a * dm + 2 * dki
                + b] by {
                if a == i {
                    assert(q@[i * dki + b] == x@[i * dm + b]);
                    assert(k@[i * dki + b] == x@[i * dm + dki + b]);
                    assert(v@[i * dki + b] == x@[i * dm + 2 * dki + b]);
                }
            }
        }
        i = i + 1;
    }
    Ok((q, k, v))
}

/// Reconstruction law: concatenating a segment's query, key and value
/// partitions as three heads along the feature axis yields back exactly
/// the array they were split from. The hypotheses are the contracts of
/// `split_qkv` (for the three partitions) and of `concat_heads` (for their
/// concatenation), stated over the underlying sequences.
pub proof fn lemma_split_concat_reconstructs<T>(
    xs: Seq<T>,
    qs: Seq<T>,
    ks: Seq<T>,
    vs: Seq<T>,
    cat: Seq<T>,
    n: int,
    dk: int,
)
    requires
        0 <= n,
        0 < dk,
        xs.len() == n * (3 * dk),
        qs.len() == n * dk,
        ks.len() == n * dk,
        vs.len() == n * dk,
        forall|i: int, j: int|
            #![trigger qs[i * dk + j]]
            0 <= i < n && 0 <= j < dk ==> qs[i * dk + j] == xs[i * (3 * dk) + j] && ks[i * dk + j]
                == xs[i * (3 * dk) + dk + j] && vs[i * dk + j] == xs[i * (3 * dk) + 2 * dk + j],
        cat.len() == n * (3 * dk),
        forall|i: int, h: int, j: int|
            #![trigger cat[i * (3 * dk) + h * dk + j]]
            0 <= i < n && 0 <= h < 3 && 0 <= j < dk ==> cat[i * (3 * dk) + h * dk + j]
                == seq![qs, ks, vs][h][i * dk + j],
    ensures
        cat =~= xs,
{
    let dm = 3 * dk;
    assert forall|t: int| 0 <= t < n * dm implies cat[t] == xs[t] by {
        let i = t / dm;
        let c = t % dm;
        let h = c / dk;
        let j = c % dk;
        lemma_fundamental_div_mod(t, dm);
        lemma_mod_bound(t, dm);
        lemma_fundamental_div_mod(c, dk);
        lemma_mod_bound(c, dk);
        assert(t == dm * i + c);
        assert(c == dk * h + j);
        assert(0 <= i < n) by (nonlinear_arith)
            requires
                0 <= t < n * dm,
                t == dm * i + c,
                0 <= c < dm,
                0 < dm,
        {
        }
        assert(0 <= h < 3) by (nonlinear_arith)
            requires
                c == dk * h + j,
                0 <= c < 3 * dk,
                0 <= j < dk,
                0 < dk,
        {
        }
        assert(t == i * dm + h * dk + j);
        assert(cat[i * (3 * dk) + h * dk + j] == seq![qs, ks, vs][h][i * dk + j]);
        assert(cat[t] == seq![qs, ks, vs][h][i * dk + j]);
        if h == 0 {
            assert(h * dk == 0 * dk);
            assert(seq![qs, ks, vs][0int] == qs);
            assert(cat[t] == qs[i * dk + j]);
            assert(qs[i * dk + j] == xs[i * (3 * dk) + j]);
            assert(xs[i * (3 * dk) + j] == xs[t]);
        } else if h == 1 {
            assert(h * dk == 1 * dk);
            assert(seq![qs, ks, vs][1int] == ks);
            assert(cat[t] == ks[i * dk + j]);
            assert(qs[i * dk + j] == xs[i * (3 * dk) + j]);
            assert(ks[i * dk + j] == xs[i * (3 * dk) + dk + j]);
            assert(xs[i * (3 * dk) + dk + j] == xs[t]);
        } else {
            assert(h * dk == 2 * dk);
            assert(seq![qs, ks, vs][2int] == vs);
            assert(cat[t] == vs[i * dk + j]);
            assert(qs[i * dk + j] == xs[i * (3 * dk) + j]);
            assert(vs[i * dk + j] == xs[i * (3 * dk) + 2 * dk + j]);
            assert(xs[i * (3 * dk) + 2 * dk + j] == xs[t]);
        }
    }
}

/// Maps each token id to a row of the embedding table: row `id % rows`, the
/// only reduction the engine asks of the identifier space. The result is
/// the `ids.len() x width` row-major embedded segment.
pub fn gather_rows<T: Copy>(table: &Vec<T>, rows: usize, width: usize, ids: &Vec<usize>) -> (r: Vec<
    T,
>)
    requires
        rows >= 1,
        table@.len() == rows * width,
        ids@.len() * width <= usize::MAX,
    ensures
        r@.len() == ids@.len() * width,
        forall|i: int, c: int|
            #![trigger r@[i * width + c]]
            0 <= i < ids@.len() && 0 <= c < width ==> r@[i * width + c] == table@[((
            ids@[i] as int) % (rows as int)) * width + c],
{
    let mut r: Vec<T> = Vec::new();
    let ghost w = width as int;
    let mut i: usize = 0;
    while i < ids.len()
        invariant
            0 <= i <= ids@.len(),
            rows >= 1,
            w == width,
            table@.len() == rows * w,
            ids@.len() * w <= usize::MAX,
            r@.len() == i * w,
            forall|a: int, c: int|
                #![trigger r@[a * w + c]]
                0 <= a < i && 0 <= c < w ==> r@[a * w + c] == table@[((ids@[a] as int) % (
                rows as int)) * w + c],
        decreases ids@.len() - i,
    {
        let row = ids[i] % rows;
        let mut c: usize = 0;
        while c < width
            invariant
                0 <= c <= width,
                0 <= i < ids@.len(),
                rows >= 1,
                w == width,
                row == (ids@[i as int] as int) % (rows as int),
                row < rows,
                table@.len() == rows * w,
                ids@.len() * w <= usize::MAX,
                r@.len() == i * w + c,
                forall|a: int, cc: int|
                    #![trigger r@[a * w + cc]]
                    0 <= a < i && 0 <= cc < w ==> r@[a * w + cc] == table@[((ids@[a] as int) % (
                    rows as int)) * w + cc],
                forall|cc: int|
                    #![trigger r@[i * w + cc]]
                    0 <= cc < c ==> r@[i * w + cc] == table@[((ids@[i as int] as int) % (
                    rows as int)) * w + cc],
            decreases width - c,
        {
            proof {
                assert(table.len() == table@.len());
                lemma_flat_lt(row as int, c as int, rows as int, w);
            }
            let e = table[row * width + c];
            r.push(e);
            proof {
                assert forall|a: int, cc: int|
                    #![trigger r@[a * w + cc]]
                    0 <= a < i && 0 <= cc < w implies r@[a * w + cc] == table@[((
                ids@[a] as int) % (rows as int)) * w + cc] by {
                    lemma_flat_lt(a, cc, i as int, w);
                }
            }
            c = c + 1;
        }
        proof {
            lemma_mul_step(i as int, w);
            assert forall|a: int, cc: int|
                #![trigger r@[a * w + cc]]
                0 <= a < i + 1 && 0 <= cc < w implies r@[a * w + cc] == table@[((
            ids@[a] as int) % (rows as int)) * w + cc] by {
                if a == i {
                    assert(r@[i * w + cc] == table@[((ids@[i as int] as int) % (rows as int)) * w
                        + cc]);
                }
            }
        }
        i = i + 1;
    }
    r
}

/// Concatenates the per-head outputs along the feature axis: head `h`'s
/// `n x dk` result occupies columns `h*dk .. (h+1)*dk` of the final
/// `n x (heads.len() * dk)` output, reconstructing the model dimension.
pub fn concat_heads<T: Copy>(heads: &Vec<Vec<T>>, n: usize, dk: usize) -> (r: Vec<T>)
    requires
        heads@.len() >= 1,
        forall|h: int| 0 <= h < heads@.len() ==> (#[trigger] heads@[h])@.len() == n * dk,
        n * (heads@.len() * dk) <= usize::MAX,
    ensures
        r@.len() == n * (heads@.len() * dk),
        forall|i: int, h: int, j: int|
            #![trigger r@[i * (heads@.len() * dk) + h * dk + j]]
            0 <= i < n && 0 <= h < heads@.len() && 0 <= j < dk ==> r@[i * (heads@.len() * dk) + h
                * dk + j] == heads@[h]@[i * dk + j],
{
    let hn = heads.len();
    let ghost hni = hn as int;
    let ghost dki = dk as int;
    let ghost wm = hni * dki;
    let mut r: Vec<T> = Vec::new();
    let mut i: usize = 0;
    while i < n
        invariant
            0 <= i <= n,
            hni == hn == heads@.len(),
            hni >= 1,
            dki == dk,
            wm == hni * dki,
            forall|h: int| 0 <= h < hni ==> (#[trigger] heads@[h])@.len() == n * dki,
            n * wm <= usize::MAX,
            r@.len() == i * wm,
            forall|a: int, h: int, b: int|
                #![trigger r@[a * wm + h * dki + b]]
                0 <= a < i && 0 <= h < hni && 0 <= b < dki ==> r@[a * wm + h * dki + b]
                    == heads@[h]@[a * dki + b],
        decreases n - i,
    {
        let mut h: usize = 0;
        while h < hn
            invariant
                0 <= h <= hni,
                0 <= i < n,
                hni == hn == heads@.len(),
                hni >= 1,
                dki == dk,
                wm == hni * dki,
                forall|hh: int| 0 <= hh < hni ==> (#[trigger] heads@[hh])@.len() == n * dki,
                n * wm <= usize::MAX,
                r@.len() == i * wm + h * dki,
                forall|a: int, hh: int, b: int|
                    #![trigger r@[a * wm + hh * dki + b]]
                    0 <= a < i && 0 <= hh < hni && 0 <= b < dki ==> r@[a * wm + hh * dki + b]
                        == heads@[hh]@[a * dki + b],
                forall|hh: int, b: int|
                    #![trigger r@[i * wm + hh * dki + b]]
                    0 <= hh < h && 0 <= b < dki ==> r@[i * wm + hh * dki + b]
                        == heads@[hh]@[i * dki + b],
            decreases hn - h,
        {
            let hrow = &heads[h];
            let mut j: usize = 0;
            while j < dk
                invariant
                    0 <= j <= dki,
                    0 <= h < hni,
                    0 <= i < n,
                    hni == hn == heads@.len(),
                    hni >= 1,
                    dki == dk,
                    wm == hni * dki,
                    hrow == heads@[h as int],
                    forall|hh: int| 0 <= hh < hni ==> (#[trigger] heads@[hh])@.len() == n * dki,
                    n * wm <= usize::MAX,
                    r@.len() == i * wm + h * dki + j,
                    forall|a: int, hh: int, b: int|
                        #![trigger r@[a * wm + hh * dki + b]]
                        0 <= a < i && 0 <= hh < hni && 0 <= b < dki ==> r@[a * wm + hh * dki + b]
                            == heads@[hh]@[a * dki + b],
                    forall|hh: int, b: int|
                        #![trigger r@[i * wm + hh * dki + b]]
                        0 <= hh < h && 0 <= b < dki ==> r@[i * wm + hh * dki + b]
                            == heads@[hh]@[i * dki + b],
                    forall|b: int|
                        #![trigger r@[i * wm + h * dki + b]]
                        0 <= b < j ==> r@[i * wm + h * dki + b] == heads@[h as int]@[i * dki + b],
                decreases dk - j,
            {
                proof {
                    assert(hrow.len() == hrow@.len());
                    lemma_flat_lt(i as int, j as int, n as int, dki);
                    lemma_mul_le(i as int, n as int, dki);
                }
                let e = hrow[i * dk + j];
                r.push(e);
                proof {
                    assert forall|a: int, hh: int, b: int|
                        #![trigger r@[a * wm + hh * dki + b]]
                        0 <= a < i && 0 <= hh < hni && 0 <= b < dki implies r@[a * wm + hh * dki
                        + b] == heads@[hh]@[a * dki + b] by {
                        lemma_flat_lt(hh, b, hni, dki);
                        lemma_flat_lt(a, hh * dki + b, i as int, wm);
                        lemma_mul_le(a + 1, i as int, wm);
                    }
                    assert forall|hh: int, b: int|
                        #![trigger r@[i * wm + hh * dki + b]]
                        0 <= hh < h && 0 <= b < dki implies r@[i * wm + hh * dki + b]
                        == heads@[hh]@[i * dki + b] by {
                        lemma_flat_lt(hh, b, h as int, dki);
                    }
                }
                j = j + 1;
            }
            proof {
                lemma_mul_step(h as int, dki);
                assert forall|hh: int, b: int|
                    #![trigger r@[i * wm + hh * dki + b]]
                    0 <= hh < h + 1 && 0 <= b < dki implies r@[i * wm + hh * dki + b]
                    == heads@[hh]@[i * dki + b] by {
                    if hh == h {
                        assert(r@[i * wm + h * dki + b] == heads@[h as int]@[i * dki + b]);
                    }
                }
            }
            h = h + 1;
        }
        proof {
            lemma_mul_step(i as int, wm);
            assert forall|a: int, hh: int, b: int|
                #![trigger r@[a * wm + hh * dki + b]]
                0 <= a < i + 1 && 0 <= hh < hni && 0 <= b < dki implies r@[a * wm + hh * dki + b]
                == heads@[hh]@[a * dki + b] by {
                if a == i {
                    assert(r@[i * wm + hh * dki + b] == heads@[hh]@[i * dki + b]);
                }
            }
        }
        i = i + 1;
    }
    r
}

} // verus!
