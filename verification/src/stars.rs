//! The star points (hoshi) marked on a board.

use vstd::prelude::*;

verus! {

/// The star points of a board of size `x` by `y`, in the order in which they
/// are listed.
///
/// Only boards with an odd number of lines both ways have star points. When
/// both sides have at least twelve lines there are nine, at lines `3`,
/// `x / 2` and `x - 4` (one way) crossed with lines `3`, `y / 2` and `y - 4`
/// (the other way); otherwise there is the centre point alone.
pub open spec fn star_points(x: int, y: int) -> Seq<(int, int)> {
    if x % 2 == 1 && y % 2 == 1 {
        if x / 4 >= 3 && y / 4 >= 3 {
            let xs = seq![3, x / 2, x - 4];
            let ys = seq![3, y / 2, y - 4];
            Seq::new(9, |i: int| (xs[i / 3], ys[i % 3]))
        } else {
            seq![(x / 2, y / 2)]
        }
    } else {
        seq![]
    }
}

/// Every star point lies on the board.
pub proof fn lemma_stars_on_board(x: int, y: int, k: int)
    requires
        x >= 0,
        y >= 0,
        0 <= k < star_points(x, y).len(),
    ensures
        0 <= star_points(x, y)[k].0 < x,
        0 <= star_points(x, y)[k].1 < y,
{
}

/// A board has star points exactly when both its sides have an odd number of
/// lines; it then has nine of them or one, and the centre point is one.
pub proof fn lemma_star_count(x: int, y: int)
    requires
        x >= 0,
        y >= 0,
    ensures
        star_points(x, y).len() > 0 <==> (x % 2 == 1 && y % 2 == 1),
        star_points(x, y).len() == 0 || star_points(x, y).len() == 1 || star_points(x, y).len()
            == 9,
        star_points(x, y).len() > 0 ==> star_points(x, y).contains((x / 2, y / 2)),
{
    if x % 2 == 1 && y % 2 == 1 && x / 4 >= 3 && y / 4 >= 3 {
        assert(star_points(x, y)[4] == (x / 2, y / 2));
    } else if x % 2 == 1 && y % 2 == 1 {
        assert(star_points(x, y)[0] == (x / 2, y / 2));
    }
}

/// No star point is listed twice.
pub proof fn lemma_stars_distinct(x: int, y: int)
    requires
        x >= 0,
        y >= 0,
    ensures
        star_points(x, y).no_duplicates(),
{
    let sp = star_points(x, y);
    assert forall|i: int, j: int| 0 <= i < sp.len() && 0 <= j < sp.len() && i != j implies sp[i]
        != sp[j] by {
        if sp.len() == 9 {
            assert(sp[i] == (seq![3, x / 2, x - 4][i / 3], seq![3, y / 2, y - 4][i % 3]));
            assert(sp[j] == (seq![3, x / 2, x - 4][j / 3], seq![3, y / 2, y - 4][j % 3]));
        }
    }
}

/// The star points are symmetric: the mirror image of a star point across
/// either middle line of the board is a star point too.
pub proof fn lemma_stars_symmetric(x: int, y: int, k: int)
    requires
        x >= 0,
        y >= 0,
        0 <= k < star_points(x, y).len(),
    ensures
        star_points(x, y).contains((x - 1 - star_points(x, y)[k].0, star_points(x, y)[k].1)),
        star_points(x, y).contains((star_points(x, y)[k].0, y - 1 - star_points(x, y)[k].1)),
{
    let sp = star_points(x, y);
    if sp.len() == 9 {
        let a = k / 3;
        let b = k % 3;
        let ma = 2 - a;
        let mb = 2 - b;
        assert(sp[3 * ma + b] == (x - 1 - sp[k].0, sp[k].1));
        assert(sp[3 * a + mb] == (sp[k].0, y - 1 - sp[k].1));
    } else {
        assert(sp[0] == (x - 1 - sp[k].0, sp[k].1));
        assert(sp[0] == (sp[k].0, y - 1 - sp[k].1));
    }
}

/// Swapping the two sides of the board transposes its star points: `(a, b)`
/// is a star point of an `x` by `y` board exactly when `(b, a)` is one of a
/// `y` by `x` board, and both boards have as many.
pub proof fn lemma_stars_transpose(x: int, y: int, p: (int, int))
    requires
        x >= 0,
        y >= 0,
    ensures
        star_points(y, x).len() == star_points(x, y).len(),
        star_points(x, y).contains(p) <==> star_points(y, x).contains((p.1, p.0)),
{
    let s = star_points(x, y);
    let t = star_points(y, x);
    if s.contains(p) {
        let k = choose|k: int| 0 <= k < s.len() && s[k] == p;
        if s.len() == 9 {
            let j = 3 * (k % 3) + k / 3;
            assert(t[j] == (p.1, p.0));
        } else {
            assert(t[0] == (p.1, p.0));
        }
    }
    if t.contains((p.1, p.0)) {
        let k = choose|k: int| 0 <= k < t.len() && t[k] == (p.1, p.0);
        if t.len() == 9 {
            let j = 3 * (k % 3) + k / 3;
            assert(s[j] == p);
        } else {
            assert(s[0] == p);
        }
    }
}

/// Whether line `v` (counted from 0) of a side of `n` lines carries star
/// points when that side is long enough for nine: the fourth line from
/// either edge, or the middle line.
pub open spec fn is_star_line(v: int, n: int) -> bool {
    v == 3 || v == (n - 1) - 3 || 2 * v + 1 == n
}

/// Which points are star points. On a board whose sides both have an odd
/// number of lines, at least twelve each, the star points are the crossings
/// of the star lines ([`is_star_line`]) of one side with those of the other;
/// on a smaller board with odd sides the centre alone is one; otherwise no
/// point is.
pub proof fn lemma_star_points_are_crossings(x: int, y: int, p: (int, int))
    requires
        x >= 0,
        y >= 0,
    ensures
        star_points(x, y).contains(p) <==> if x % 2 == 1 && y % 2 == 1 {
            if x >= 12 && y >= 12 {
                is_star_line(p.0, x) && is_star_line(p.1, y)
            } else {
                2 * p.0 + 1 == x && 2 * p.1 + 1 == y
            }
        } else {
            false
        },
{
    let sp = star_points(x, y);
    if x % 2 == 1 && y % 2 == 1 && x >= 12 && y >= 12 {
        let xs = seq![3, x / 2, x - 4];
        let ys = seq![3, y / 2, y - 4];
        if sp.contains(p) {
            let k = choose|k: int| 0 <= k < sp.len() && sp[k] == p;
            assert(sp[k] == (xs[k / 3], ys[k % 3]));
            assert(0 <= k / 3 < 3 && 0 <= k % 3 < 3);
        }
        if is_star_line(p.0, x) && is_star_line(p.1, y) {
            let a: int = if p.0 == 3 { 0 } else if 2 * p.0 + 1 == x { 1 } else { 2 };
            let b: int = if p.1 == 3 { 0 } else if 2 * p.1 + 1 == y { 1 } else { 2 };
            let k = 3 * a + b;
            assert(k / 3 == a && k % 3 == b);
            assert(sp[k] == (xs[a], ys[b]));
            assert(sp[k] == p);
        }
    } else if x % 2 == 1 && y % 2 == 1 {
        if sp.contains(p) {
            let k = choose|k: int| 0 <= k < sp.len() && sp[k] == p;
            assert(k == 0);
        }
        if 2 * p.0 + 1 == x && 2 * p.1 + 1 == y {
            assert(sp[0] == p);
        }
    }
}

/// The star points form a grid: with `(a, b)` and `(c, d)`, `(a, d)` is a
/// star point too.
pub proof fn lemma_stars_form_grid(x: int, y: int, a: int, b: int, c: int, d: int)
    requires
        x >= 0,
        y >= 0,
        star_points(x, y).contains((a, b)),
        star_points(x, y).contains((c, d)),
    ensures
        star_points(x, y).contains((a, d)),
{
    lemma_star_points_are_crossings(x, y, (a, b));
    lemma_star_points_are_crossings(x, y, (c, d));
    lemma_star_points_are_crossings(x, y, (a, d));
}

/// The star points are listed in increasing order: by their first
/// coordinate, then by their second.
pub proof fn lemma_stars_increasing(x: int, y: int, i: int, j: int)
    requires
        x >= 0,
        y >= 0,
        0 <= i < j < star_points(x, y).len(),
    ensures
        star_points(x, y)[i].0 < star_points(x, y)[j].0 || (star_points(x, y)[i].0 == star_points(
            x,
            y,
        )[j].0 && star_points(x, y)[i].1 < star_points(x, y)[j].1),
{
    let sp = star_points(x, y);
    let xs = seq![3, x / 2, x - 4];
    let ys = seq![3, y / 2, y - 4];
    assert(sp[i] == (xs[i / 3], ys[i % 3]));
    assert(sp[j] == (xs[j / 3], ys[j % 3]));
}

/// The list `v` of points `[a, b]` stands, entry for entry, for the pairs `s`.
pub open spec fn stars_are(v: Seq<Vec<usize>>, s: Seq<(int, int)>) -> bool {
    &&& v.len() == s.len()
    &&& forall|k: int|
        0 <= k < v.len() ==> {
            &&& (#[trigger] v[k])@.len() == 2
            &&& v[k]@[0] as int == s[k].0
            &&& v[k]@[1] as int == s[k].1
        }
}

/// Lists the star points of a board of size `bansize = (x, y)`, each as a
/// vector `[a, b]` ([`star_points`]).
pub fn size2stars(bansize: (u32, u32)) -> (stars: Vec<Vec<usize>>)
    ensures
        stars_are(stars@, star_points(bansize.0 as int, bansize.1 as int)),
{
    let mut stars: Vec<Vec<usize>> = Vec::new();
    let xlen = bansize.0 as usize;
    let ylen = bansize.1 as usize;
    if xlen % 2 == 1 && ylen % 2 == 1 {
        if xlen / 4 >= 3 && ylen / 4 >= 3 {
            let ixs: Vec<usize> = vec![3, xlen / 2, xlen - 4];
            let iys: Vec<usize> = vec![3, ylen / 2, ylen - 4];
            let ghost sp = star_points(xlen as int, ylen as int);
            let mut a: usize = 0;
            while a < 3
                invariant
                    a <= 3,
                    xlen == bansize.0,
                    ylen == bansize.1,
                    xlen % 2 == 1 && ylen % 2 == 1 && xlen / 4 >= 3 && ylen / 4 >= 3,
                    ixs@ == seq![3usize, (xlen / 2) as usize, (xlen - 4) as usize],
                    iys@ == seq![3usize, (ylen / 2) as usize, (ylen - 4) as usize],
                    sp == star_points(xlen as int, ylen as int),
                    stars_are(stars@, sp.take(3 * a)),
                decreases 3 - a,
            {
                let mut b: usize = 0;
                while b < 3
                    invariant
                        a < 3,
                        b <= 3,
                        xlen % 2 == 1 && ylen % 2 == 1 && xlen / 4 >= 3 && ylen / 4 >= 3,
                        ixs@ == seq![3usize, (xlen / 2) as usize, (xlen - 4) as usize],
                        iys@ == seq![3usize, (ylen / 2) as usize, (ylen - 4) as usize],
                        sp == star_points(xlen as int, ylen as int),
                        stars_are(stars@, sp.take(3 * a + b)),
                    decreases 3 - b,
                {
                    let star: Vec<usize> = vec![ixs[a], iys[b]];
                    let ghost before = stars@;
                    stars.push(star);
                    proof {
                        let k = 3 * a + b;
                        assert(sp[k as int] == (ixs@[a as int] as int, iys@[b as int] as int));
                        assert forall|i: int| 0 <= i < stars@.len() implies {
                            &&& (#[trigger] stars@[i])@.len() == 2
                            &&& stars@[i]@[0] as int == sp.take(k + 1)[i].0
                            &&& stars@[i]@[1] as int == sp.take(k + 1)[i].1
                        } by {
                            if i < k {
                                assert(stars@[i] == before[i]);
                                assert(sp.take(k + 1)[i] == sp.take(k as int)[i]);
                            }
                        }
                    }
                    b = b + 1;
                }
                a = a + 1;
            }
            assert(sp.take(9) =~= sp);
        } else {
            let star: Vec<usize> = vec![xlen / 2, ylen / 2];
            stars.push(star);
        }
    }
    stars
}

} // verus!
