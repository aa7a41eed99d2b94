//! The intersections of a board and the lines that join them.
//!
//! A board of size `(x, y)` is described by a node table `node[c][r]`
//! (`c` in `0..y`, `r` in `0..x`) that lists, for each intersection,
//! the intersections that a grid line joins it to.

use vstd::prelude::*;

verus! {

/// The ordered list of neighbours that the node table records for the
/// intersection `(c, r)` of a board of size `(x, y)`: the one before it along
/// `c`, the one before it along `r`, the one after it along `c` (unless `c` is
/// `x - 1`) and the one after it along `r` (unless `r` is `y - 1`).
pub open spec fn neighbor_list(c: int, r: int, x: int, y: int) -> Seq<(int, int)> {
    let s0: Seq<(int, int)> = if c > 0 { seq![(c - 1, r)] } else { seq![] };
    let s1 = if r > 0 { s0.push((c, r - 1)) } else { s0 };
    let s2 = if c != x - 1 { s1.push((c + 1, r)) } else { s1 };
    if r != y - 1 { s2.push((c, r + 1)) } else { s2 }
}

/// A point `[a, b]` of the node table stands for the pair `(a, b)`.
pub open spec fn point_is(p: [usize; 2], q: (int, int)) -> bool {
    p[0] as int == q.0 && p[1] as int == q.1
}

/// The list `v` of points stands, entry for entry, for the list `s` of pairs.
pub open spec fn points_are(v: Seq<[usize; 2]>, s: Seq<(int, int)>) -> bool {
    &&& v.len() == s.len()
    &&& forall|k: int| 0 <= k < v.len() ==> point_is(#[trigger] v[k], s[k])
}

/// The node table of a board of size `x` by `y` (`y` columns of `x` entries).
pub open spec fn is_grid_node(node: Seq<Vec<Vec<[usize; 2]>>>, x: int, y: int) -> bool {
    &&& node.len() == y
    &&& forall|c: int| 0 <= c < y ==> (#[trigger] node[c])@.len() == x
    &&& forall|c: int, r: int|
        0 <= c < y && 0 <= r < x ==> points_are(#[trigger] node[c]@[r]@, neighbor_list(c, r, x, y))
}

/// The distance between two intersections counted in steps along grid lines.
pub open spec fn steps_between(a: (int, int), b: (int, int)) -> int {
    let d0 = if a.0 >= b.0 { a.0 - b.0 } else { b.0 - a.0 };
    let d1 = if a.1 >= b.1 { a.1 - b.1 } else { b.1 - a.1 };
    d0 + d1
}

/// Whether `p` is an intersection of a square board of side `n`.
pub open spec fn on_square_board(p: (int, int), n: int) -> bool {
    0 <= p.0 < n && 0 <= p.1 < n
}

/// No intersection is listed twice among the neighbours of another.
pub proof fn lemma_neighbors_distinct(c: int, r: int, x: int, y: int)
    ensures
        neighbor_list(c, r, x, y).no_duplicates(),
{
}

/// On a square board of side `n`, the neighbours recorded for an intersection
/// are exactly the intersections of the board one step away from it.
pub proof fn lemma_neighbors_exactly_adjacent(n: int, p: (int, int), q: (int, int))
    requires
        on_square_board(p, n),
    ensures
        neighbor_list(p.0, p.1, n, n).contains(q) <==> (on_square_board(q, n) && steps_between(p, q) == 1),
{
    let s = neighbor_list(p.0, p.1, n, n);
    if on_square_board(q, n) && steps_between(p, q) == 1 {
        if q == (p.0 - 1, p.1) {
            assert(s.contains(q)) by { assert(s[0] == q); }
        } else if q == (p.0, p.1 - 1) {
            let i: int = if p.0 > 0 { 1 } else { 0 };
            assert(s.contains(q)) by { assert(s[i] == q); }
        } else if q == (p.0 + 1, p.1) {
            let i: int = (if p.0 > 0 { 1int } else { 0int }) + (if p.1 > 0 { 1int } else { 0int });
            assert(s.contains(q)) by { assert(s[i] == q); }
        } else {
            assert(q == (p.0, p.1 + 1));
            let i: int = (if p.0 > 0 { 1int } else { 0int }) + (if p.1 > 0 { 1int } else { 0int }) + (if p.0 != n - 1 { 1int } else { 0int });
            assert(s.contains(q)) by { assert(s[i] == q); }
        }
    }
    if s.contains(q) {
        let k = choose|k: int| 0 <= k < s.len() && s[k] == q;
        assert(on_square_board(q, n) && steps_between(p, q) == 1);
    }
}

/// On a square board, grid lines join intersections both ways: if `q` is
/// listed among the neighbours of `p`, then `p` is listed among those of `q`.
pub proof fn lemma_neighbors_symmetric(n: int, p: (int, int), q: (int, int))
    requires
        on_square_board(p, n),
        neighbor_list(p.0, p.1, n, n).contains(q),
    ensures
        on_square_board(q, n),
        neighbor_list(q.0, q.1, n, n).contains(p),
{
    lemma_neighbors_exactly_adjacent(n, p, q);
    lemma_neighbors_exactly_adjacent(n, q, p);
}

/// On a square board of side `n`, an intersection has four neighbours, less
/// one for each side of the board that it lies on.
pub proof fn lemma_neighbor_count(n: int, p: (int, int))
    requires
        on_square_board(p, n),
    ensures
        neighbor_list(p.0, p.1, n, n).len() == 4 - (if p.0 == 0 { 1int } else { 0int }) - (if p.1
            == 0 { 1int } else { 0int }) - (if p.0 == n - 1 { 1int } else { 0int }) - (if p.1 == n
            - 1 { 1int } else { 0int }),
{
}

fn neighbors_of(c: usize, r: usize, x: usize, y: usize) -> (row: Vec<[usize; 2]>)
    requires
        c < y,
        r < x,
    ensures
        points_are(row@, neighbor_list(c as int, r as int, x as int, y as int)),
{
    let mut row: Vec<[usize; 2]> = Vec::new();
    if c != 0 {
        row.push([c - 1, r]);
    }
    if r != 0 {
        row.push([c, r - 1]);
    }
    if c != x - 1 {
        row.push([c + 1, r]);
    }
    if r != y - 1 {
        row.push([c, r + 1]);
    }
    proof {
        let s = neighbor_list(c as int, r as int, x as int, y as int);
        assert forall|k: int| 0 <= k < row@.len() implies #[trigger] point_is(row@[k], s[k]) by {}
    }
    row
}

/// Builds the node table of a board of size `bansize = (x, y)`: `y` columns
/// of `x` intersections, each with the list of its neighbours
/// ([`neighbor_list`]).
pub fn size2grid_node(bansize: (u32, u32)) -> (node: Vec<Vec<Vec<[usize; 2]>>>)
    ensures
        is_grid_node(node@, bansize.0 as int, bansize.1 as int),
{
    let bansize_x = bansize.0 as usize;
    let bansize_y = bansize.1 as usize;
    let mut node: Vec<Vec<Vec<[usize; 2]>>> = Vec::new();
    let mut c: usize = 0;
    while c < bansize_y
        invariant
            c <= bansize_y,
            bansize_x == bansize.0,
            bansize_y == bansize.1,
            node@.len() == c,
            forall|i: int| 0 <= i < c ==> (#[trigger] node@[i])@.len() == bansize_x,
            forall|i: int, j: int|
                0 <= i < c && 0 <= j < bansize_x ==> points_are(
                    #[trigger] node@[i]@[j]@,
                    neighbor_list(i, j, bansize_x as int, bansize_y as int),
                ),
        decreases bansize_y - c,
    {
        let mut column: Vec<Vec<[usize; 2]>> = Vec::new();
        let mut r: usize = 0;
        while r < bansize_x
            invariant
                c < bansize_y,
                r <= bansize_x,
                column@.len() == r,
                forall|j: int|
                    0 <= j < r ==> points_are(
                        #[trigger] column@[j]@,
                        neighbor_list(c as int, j, bansize_x as int, bansize_y as int),
                    ),
            decreases bansize_x - r,
        {
            let row = neighbors_of(c, r, bansize_x, bansize_y);
            column.push(row);
            r = r + 1;
        }
        node.push(column);
        c = c + 1;
    }
    node
}

/// A line segment between two intersections, as drawn: `(from, to)`.
pub type Segment = ([usize; 2], [usize; 2]);

/// The pair of pairs that a segment stands for.
pub open spec fn segment_view(s: Segment) -> ((int, int), (int, int)) {
    ((s.0[0] as int, s.0[1] as int), (s.1[0] as int, s.1[1] as int))
}

/// The segments drawn from intersection `(n, m)` to each of `links`, in order.
pub open spec fn cell_segments(n: int, m: int, links: Seq<[usize; 2]>) -> Seq<((int, int), (int, int))> {
    links.map_values(|q: [usize; 2]| ((n, m), (q[0] as int, q[1] as int)))
}

/// The segments drawn from the intersections of column `n`, in order.
pub open spec fn column_segments(n: int, column: Seq<Vec<[usize; 2]>>) -> Seq<((int, int), (int, int))>
    decreases column.len(),
{
    if column.len() == 0 {
        seq![]
    } else {
        column_segments(n, column.drop_last()) + cell_segments(
            n,
            column.len() - 1,
            column.last()@,
        )
    }
}

/// The segments drawn for a whole node table: column by column, intersection
/// by intersection, one segment from each intersection to each of its listed
/// neighbours, in the order of the table.
pub open spec fn table_segments(node: Seq<Vec<Vec<[usize; 2]>>>) -> Seq<((int, int), (int, int))>
    decreases node.len(),
{
    if node.len() == 0 {
        seq![]
    } else {
        table_segments(node.drop_last()) + column_segments(node.len() - 1, node.last()@)
    }
}

/// Lists the grid-line segments to draw for the node table `node`: from each
/// intersection `[n, m]` to each neighbour that `node[n][m]` lists, in the
/// order of the table ([`table_segments`]).
pub fn grid_segments(node: &Vec<Vec<Vec<[usize; 2]>>>) -> (segs: Vec<Segment>)
    ensures
        segs@.map_values(|s: Segment| segment_view(s)) == table_segments(node@),
{
    let mut segs: Vec<Segment> = Vec::new();
    let mut n: usize = 0;
    while n < node.len()
        invariant
            n <= node@.len(),
            segs@.map_values(|s: Segment| segment_view(s)) == table_segments(node@.take(n as int)),
        decreases node@.len() - n,
    {
        let column = &node[n];
        let ghost base = segs@.map_values(|s: Segment| segment_view(s));
        let mut m: usize = 0;
        while m < column.len()
            invariant
                n < node@.len(),
                column == node@[n as int],
                m <= column@.len(),
                base == table_segments(node@.take(n as int)),
                segs@.map_values(|s: Segment| segment_view(s)) == base + column_segments(
                    n as int,
                    column@.take(m as int),
                ),
            decreases column@.len() - m,
        {
            let links = &column[m];
            let ghost base2 = segs@.map_values(|s: Segment| segment_view(s));
            let mut k: usize = 0;
            while k < links.len()
                invariant
                    m < column@.len(),
                    links == column@[m as int],
                    k <= links@.len(),
                    base2 == base + column_segments(n as int, column@.take(m as int)),
                    segs@.map_values(|s: Segment| segment_view(s)) == base2 + cell_segments(
                        n as int,
                        m as int,
                        links@.take(k as int),
                    ),
                decreases links@.len() - k,
            {
                let ghost before = segs@;
                segs.push(([n, m], links[k]));
                proof {
                    assert(links@.take(k + 1) =~= links@.take(k as int).push(links@[k as int]));
                    assert(segs@ =~= before.push(([n, m], links@[k as int])));
                    assert(segs@.map_values(|s: Segment| segment_view(s)) =~= before.map_values(
                        |s: Segment| segment_view(s),
                    ).push(segment_view(([n, m], links@[k as int]))));
                    assert(cell_segments(n as int, m as int, links@.take(k + 1)) =~= cell_segments(
                        n as int,
                        m as int,
                        links@.take(k as int),
                    ).push(segment_view(([n, m], links@[k as int]))));
                    assert(segs@.map_values(|s: Segment| segment_view(s)) =~= base2
                        + cell_segments(n as int, m as int, links@.take(k + 1)));
                }
                k = k + 1;
            }
            proof {
                assert(links@.take(k as int) =~= links@);
                assert(column@.take(m + 1).drop_last() =~= column@.take(m as int));
                assert(column@.take(m + 1).last() == links);
                assert(column_segments(n as int, column@.take(m + 1)) == column_segments(
                    n as int,
                    column@.take(m as int),
                ) + cell_segments(n as int, m as int, links@));
                assert(segs@.map_values(|s: Segment| segment_view(s)) =~= base + column_segments(
                    n as int,
                    column@.take(m + 1),
                ));
            }
            m = m + 1;
        }
        proof {
            assert(column@.take(m as int) =~= column@);
            assert(node@.take(n + 1).drop_last() =~= node@.take(n as int));
            assert(node@.take(n + 1).last() == column);
            assert(table_segments(node@.take(n + 1)) == table_segments(node@.take(n as int))
                + column_segments(n as int, column@));
        }
        n = n + 1;
    }
    proof {
        assert(node@.take(n as int) =~= node@);
    }
    segs
}

/// Whether `links` lists the point `q`.
pub open spec fn lists_point(links: Seq<[usize; 2]>, q: (int, int)) -> bool {
    exists|k: int| 0 <= k < links.len() && #[trigger] point_is(links[k], q)
}

proof fn lemma_concat_contains<A>(a: Seq<A>, b: Seq<A>, x: A)
    ensures
        (a + b).contains(x) <==> (a.contains(x) || b.contains(x)),
{
    if a.contains(x) {
        let i = choose|i: int| 0 <= i < a.len() && a[i] == x;
        assert((a + b)[i] == x);
    }
    if b.contains(x) {
        let i = choose|i: int| 0 <= i < b.len() && b[i] == x;
        assert((a + b)[a.len() + i] == x);
    }
    if (a + b).contains(x) {
        let i = choose|i: int| 0 <= i < (a + b).len() && (a + b)[i] == x;
        if i < a.len() {
            assert(a[i] == x);
        } else {
            assert(b[i - a.len()] == x);
        }
    }
}

proof fn lemma_cell_segments_contains(n: int, m: int, links: Seq<[usize; 2]>, p: (int, int), q: (int, int))
    ensures
        cell_segments(n, m, links).contains((p, q)) <==> (p == (n, m) && lists_point(links, q)),
{
    let cs = cell_segments(n, m, links);
    if cs.contains((p, q)) {
        let i = choose|i: int| 0 <= i < cs.len() && cs[i] == (p, q);
        assert(point_is(links[i], q));
    }
    if p == (n, m) && lists_point(links, q) {
        let k = choose|k: int| 0 <= k < links.len() && #[trigger] point_is(links[k], q);
        assert(cs[k] == (p, q));
    }
}

proof fn lemma_column_segments_contains(n: int, column: Seq<Vec<[usize; 2]>>, p: (int, int), q: (int, int))
    ensures
        column_segments(n, column).contains((p, q)) <==> (p.0 == n && 0 <= p.1 < column.len()
            && lists_point(column[p.1]@, q)),
    decreases column.len(),
{
    if column.len() > 0 {
        let front = column.drop_last();
        lemma_column_segments_contains(n, front, p, q);
        lemma_cell_segments_contains(n, column.len() - 1, column.last()@, p, q);
        lemma_concat_contains(
            column_segments(n, front),
            cell_segments(n, column.len() - 1, column.last()@),
            (p, q),
        );
        if 0 <= p.1 < front.len() {
            assert(front[p.1] == column[p.1]);
        }
    }
}

/// A segment is drawn from `p` to `q` exactly when `p` is an entry of the node
/// table whose list of neighbours holds `q`.
pub proof fn lemma_table_segments_contains(node: Seq<Vec<Vec<[usize; 2]>>>, p: (int, int), q: (int, int))
    ensures
        table_segments(node).contains((p, q)) <==> (0 <= p.0 < node.len() && 0 <= p.1
            < node[p.0]@.len() && lists_point(node[p.0]@[p.1]@, q)),
    decreases node.len(),
{
    if node.len() > 0 {
        let front = node.drop_last();
        lemma_table_segments_contains(front, p, q);
        lemma_column_segments_contains(node.len() - 1, node.last()@, p, q);
        lemma_concat_contains(
            table_segments(front),
            column_segments(node.len() - 1, node.last()@),
            (p, q),
        );
        if 0 <= p.0 < front.len() {
            assert(front[p.0] == node[p.0]);
        }
    }
}

/// On a square board of side `n`, the segments drawn for its node table join
/// exactly the pairs of intersections one step apart.
pub proof fn lemma_segments_join_adjacent(n: int, node: Seq<Vec<Vec<[usize; 2]>>>, p: (int, int), q: (int, int))
    requires
        is_grid_node(node, n, n),
    ensures
        table_segments(node).contains((p, q)) <==> (on_square_board(p, n) && on_square_board(q, n)
            && steps_between(p, q) == 1),
{
    lemma_table_segments_contains(node, p, q);
    if on_square_board(p, n) {
        let links = node[p.0]@[p.1]@;
        let s = neighbor_list(p.0, p.1, n, n);
        assert(points_are(links, s));
        lemma_neighbors_exactly_adjacent(n, p, q);
        if lists_point(links, q) {
            let k = choose|k: int| 0 <= k < links.len() && #[trigger] point_is(links[k], q);
            assert(point_is(links[k], s[k]));
            assert(s[k] == q);
        }
        if s.contains(q) {
            let k = choose|k: int| 0 <= k < s.len() && s[k] == q;
            assert(point_is(links[k], s[k]));
        }
    }
}

/// On a square board every grid line is drawn both ways: a segment from `p`
/// to `q` comes with one from `q` to `p`.
pub proof fn lemma_segments_symmetric(n: int, node: Seq<Vec<Vec<[usize; 2]>>>, p: (int, int), q: (int, int))
    requires
        is_grid_node(node, n, n),
        table_segments(node).contains((p, q)),
    ensures
        table_segments(node).contains((q, p)),
{
    lemma_segments_join_adjacent(n, node, p, q);
    lemma_segments_join_adjacent(n, node, q, p);
}

} // verus!
