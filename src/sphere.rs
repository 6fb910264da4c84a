//! Topology of the UV sphere of `d` divisions: `d` latitude bands and `2d` longitude
//! segments. Vertex 0 is the north pole, then come the `d - 1` interior rings of `2d`
//! vertices each, north to south, and the last vertex is the south pole.
use vstd::prelude::*;

verus! {

/// Where a sphere vertex sits. A ring vertex is at polar angle `polar_step·π/d` and at
/// longitude angle `segment·2π/(2d)`.
#[derive(Clone, Copy, Debug, PartialEq, Eq, Structural)]
pub enum SpherePoint {
    NorthPole,
    Ring { polar_step: usize, segment: usize },
    SouthPole,
}

/// A triangle, as the positions of its three corners in the vertex list.
pub type Triangle = (int, int, int);

/// A line segment, as the positions of its two ends in the vertex list.
pub type Segment = (int, int);

/// Divisions the sphere generator accepts: at least two, and few enough that every
/// vertex position fits a 16-bit index.
pub open spec fn valid_divisions(d: int) -> bool {
    2 <= d && sphere_vertex_count(d) <= 65536
}

/// Number of vertices: two poles and `d - 1` rings of `2d`.
pub open spec fn sphere_vertex_count(d: int) -> int {
    2 + (d - 1) * (2 * d)
}

/// Number of triangle indices: two triangles per quad of every band, the caps included.
pub open spec fn sphere_index_count(d: int) -> int {
    6 * (2 * d) * (d - 1)
}

/// Number of edge indices: `2d` pole spokes at each pole, `(d - 2)` meridian pieces per
/// segment between rings, and the `d - 1` parallels of `2d` pieces, two ends each.
pub open spec fn sphere_edge_index_count(d: int) -> int {
    2 * (2 * d) * (2 * d - 1)
}

/// Position of the vertex of interior ring `i` (0 for the ring nearest the north pole)
/// at longitude segment `j`.
pub open spec fn ring_vertex(d: int, i: int, j: int) -> int {
    1 + i * (2 * d) + j
}

/// Position of the south pole.
pub open spec fn south_pole(d: int) -> int {
    1 + (d - 1) * (2 * d)
}

/// The segment after `j` around a ring, wrapping to 0.
pub open spec fn next_segment(d: int, j: int) -> int {
    if j + 1 == 2 * d {
        0
    } else {
        j + 1
    }
}

/// The fan around the north pole: for each segment, the pole, the next vertex of the
/// first ring and the current one.
pub open spec fn top_cap(d: int) -> Seq<Triangle> {
    Seq::new((2 * d) as nat, |j: int| (0, ring_vertex(d, 0, next_segment(d, j)), ring_vertex(d, 0, j)))
}

/// The quads between ring `i` and ring `i + 1`, two triangles each, segment by segment.
pub open spec fn band(d: int, i: int) -> Seq<Triangle> {
    Seq::new(
        (4 * d) as nat,
        |q: int|
            {
                let j = q / 2;
                let n = next_segment(d, j);
                if q % 2 == 0 {
                    (ring_vertex(d, i, j), ring_vertex(d, i, n), ring_vertex(d, i + 1, j))
                } else {
                    (ring_vertex(d, i, n), ring_vertex(d, i + 1, n), ring_vertex(d, i + 1, j))
                }
            },
    )
}

/// The bands below the first `n` rings, north to south.
pub open spec fn bands(d: int, n: int) -> Seq<Triangle>
    decreases n,
{
    if n <= 0 {
        Seq::empty()
    } else {
        bands(d, n - 1) + band(d, n - 1)
    }
}

/// The fan around the south pole, over the last ring.
pub open spec fn bottom_cap(d: int) -> Seq<Triangle> {
    Seq::new(
        (2 * d) as nat,
        |j: int| (ring_vertex(d, d - 2, j), ring_vertex(d, d - 2, next_segment(d, j)), south_pole(d)),
    )
}

/// All triangles of the sphere, in generation order.
pub open spec fn sphere_triangles(d: int) -> Seq<Triangle> {
    top_cap(d) + bands(d, d - 2) + bottom_cap(d)
}

/// Corner `k` of a triangle.
pub open spec fn corner(t: Triangle, k: int) -> int {
    if k == 0 {
        t.0
    } else if k == 1 {
        t.1
    } else {
        t.2
    }
}

/// The flat index list of a triangle list: three corners per triangle.
pub open spec fn corners(ts: Seq<Triangle>) -> Seq<int> {
    Seq::new((3 * ts.len()) as nat, |p: int| corner(ts[p / 3], p % 3))
}

/// A list of 16-bit indices read as integers.
pub open spec fn as_ints(s: Seq<u16>) -> Seq<int> {
    s.map_values(|x: u16| x as int)
}

/// Appending a triangle appends its three corners.
pub proof fn lemma_corners_push(ts: Seq<Triangle>, t: Triangle)
    ensures
        corners(ts.push(t)) =~= corners(ts) + seq![t.0, t.1, t.2],
{
}

/// Valid divisions are small enough for every count here to fit a machine word.
pub proof fn lemma_divisions_small(d: int)
    requires
        valid_divisions(d),
    ensures
        d < 256,
        0 < sphere_vertex_count(d) <= 65536,
        south_pole(d) == sphere_vertex_count(d) - 1,
{
    assert(d < 256) by (nonlinear_arith)
        requires
            2 <= d,
            2 + (d - 1) * (2 * d) <= 65536,
    ;
}

/// A ring vertex lies strictly between the two poles.
pub proof fn lemma_ring_vertex_bounds(d: int, i: int, j: int)
    requires
        2 <= d,
        0 <= i <= d - 2,
        0 <= j < 2 * d,
    ensures
        1 <= ring_vertex(d, i, j) < south_pole(d),
{
    assert(1 + i * (2 * d) + j < 1 + (d - 1) * (2 * d)) by (nonlinear_arith)
        requires
            0 <= i <= d - 2,
            0 <= j < 2 * d,
    ;
    assert(0 <= i * (2 * d)) by (nonlinear_arith)
        requires
            0 <= i,
            0 <= d,
    ;
}

/// Appends one triangle's corners to an index list.
fn push_triangle(out: &mut Vec<u16>, built: Ghost<Seq<Triangle>>, a: u16, b: u16, c: u16)
    requires
        as_ints(old(out)@) == corners(built@),
    ensures
        as_ints(final(out)@) == corners(built@.push((a as int, b as int, c as int))),
{
    out.push(a);
    out.push(b);
    out.push(c);
    proof {
        lemma_corners_push(built@, (a as int, b as int, c as int));
        assert(as_ints(out@) =~= as_ints(old(out)@) + seq![a as int, b as int, c as int]);
    }
}

/// The triangle index list of the UV sphere of `divisions` divisions.
pub fn sphere_indices(divisions: usize) -> (r: Vec<u16>)
    requires
        valid_divisions(divisions as int),
    ensures
        as_ints(r@) == corners(sphere_triangles(divisions as int)),
{
    let ghost d = divisions as int;
    proof {
        lemma_divisions_small(d);
    }
    let longitude: usize = 2 * divisions;
    let south: usize = 1 + (divisions - 1) * longitude;
    let mut out: Vec<u16> = Vec::new();
    let ghost mut built: Seq<Triangle> = Seq::empty();
    assert(as_ints(out@) =~= corners(built));

    // North cap.
    let mut j: usize = 0;
    while j < longitude
        invariant
            d == divisions, 2 <= d < 256, longitude == 2 * d, south_pole(d) <= 65535,
            j <= longitude,
            as_ints(out@) == corners(built),
            built =~= top_cap(d).take(j as int),
        decreases longitude - j,
    {
        let next: usize = if j + 1 == longitude { 0 } else { j + 1 };
        proof {
            lemma_ring_vertex_bounds(d, 0, j as int);
            lemma_ring_vertex_bounds(d, 0, next as int);
        }
        push_triangle(&mut out, Ghost(built), 0, (1 + next) as u16, (1 + j) as u16);
        proof {
            built = built.push((0, ring_vertex(d, 0, next as int), ring_vertex(d, 0, j as int)));
            assert(built =~= top_cap(d).take(j + 1));
        }
        j += 1;
    }
    assert(built =~= top_cap(d));

    // Bands between consecutive rings.
    let mut i: usize = 0;
    while i + 2 < divisions
        invariant
            d == divisions, 2 <= d < 256, longitude == 2 * d, south_pole(d) <= 65535,
            i <= d - 2,
            as_ints(out@) == corners(built),
            built =~= top_cap(d) + bands(d, i as int),
        decreases divisions - i,
    {
        proof {
            lemma_ring_vertex_bounds(d, i as int, 0);
            lemma_ring_vertex_bounds(d, i + 1, 0);
        }
        let row: usize = 1 + i * longitude;
        let next_row: usize = 1 + (i + 1) * longitude;
        let ghost before = built;
        let mut j: usize = 0;
        while j < longitude
            invariant
                d == divisions, 2 <= d < 256, longitude == 2 * d, south_pole(d) <= 65535,
                i + 2 < d,
                row == ring_vertex(d, i as int, 0),
                next_row == ring_vertex(d, i + 1, 0),
                j <= longitude,
                as_ints(out@) == corners(built),
                built =~= before + band(d, i as int).take(2 * j),
            decreases longitude - j,
        {
            let next: usize = if j + 1 == longitude { 0 } else { j + 1 };
            proof {
                lemma_ring_vertex_bounds(d, i as int, j as int);
                lemma_ring_vertex_bounds(d, i as int, next as int);
                lemma_ring_vertex_bounds(d, i + 1, j as int);
                lemma_ring_vertex_bounds(d, i + 1, next as int);
            }
            let a = (row + j) as u16;
            let b = (row + next) as u16;
            let c = (next_row + j) as u16;
            let e = (next_row + next) as u16;
            push_triangle(&mut out, Ghost(built), a, b, c);
            proof {
                built = built.push((a as int, b as int, c as int));
            }
            push_triangle(&mut out, Ghost(built), b, e, c);
            proof {
                built = built.push((b as int, e as int, c as int));
                assert(band(d, i as int)[2 * j] == (a as int, b as int, c as int));
                assert(band(d, i as int)[2 * j + 1] == (b as int, e as int, c as int));
                assert(built =~= before + band(d, i as int).take(2 * j + 2));
            }
            j += 1;
        }
        proof {
            assert(band(d, i as int).take(2 * j) =~= band(d, i as int));
            assert(bands(d, i + 1) == bands(d, i as int) + band(d, i as int));
        }
        i += 1;
    }

    // South cap, over the last ring.
    proof {
        lemma_ring_vertex_bounds(d, d - 2, 0);
    }
    let base: usize = 1 + (divisions - 2) * longitude;
    let ghost before = built;
    let mut j: usize = 0;
    while j < longitude
        invariant
            d == divisions, 2 <= d < 256, longitude == 2 * d, south_pole(d) <= 65535,
            base == ring_vertex(d, d - 2, 0),
            south == south_pole(d),
            south <= 65535,
            j <= longitude,
            as_ints(out@) == corners(built),
            built =~= before + bottom_cap(d).take(j as int),
        decreases longitude - j,
    {
        let next: usize = if j + 1 == longitude { 0 } else { j + 1 };
        proof {
            lemma_ring_vertex_bounds(d, d - 2, j as int);
            lemma_ring_vertex_bounds(d, d - 2, next as int);
        }
        push_triangle(&mut out, Ghost(built), (base + j) as u16, (base + next) as u16, south as u16);
        proof {
            built = built.push((ring_vertex(d, d - 2, j as int), ring_vertex(d, d - 2, next as int), south_pole(d)));
            assert(built =~= before + bottom_cap(d).take(j + 1));
        }
        j += 1;
    }
    proof {
        assert(bottom_cap(d).take(j as int) =~= bottom_cap(d));
        assert(built =~= sphere_triangles(d));
    }
    out
}

/// `bands(d, n)` holds `4d` triangles per band.
pub proof fn lemma_bands_len(d: int, n: int)
    requires
        0 <= d,
        0 <= n,
    ensures
        bands(d, n).len() == n * (4 * d),
    decreases n,
{
    if n > 0 {
        lemma_bands_len(d, n - 1);
        assert((n - 1) * (4 * d) + 4 * d == n * (4 * d)) by (nonlinear_arith);
    } else {
        assert(n * (4 * d) == 0) by (nonlinear_arith)
            requires
                n == 0,
        ;
    }
}

/// Every corner of every band triangle is a ring vertex, for bands above the last ring.
pub proof fn lemma_bands_in_range(d: int, n: int)
    requires
        2 <= d,
        0 <= n <= d - 2,
    ensures
        forall|t: int, k: int|
            0 <= t < bands(d, n).len() && 0 <= k < 3 ==> 1 <= #[trigger] corner(bands(d, n)[t], k) < south_pole(d),
    decreases n,
{
    if n > 0 {
        lemma_bands_in_range(d, n - 1);
        let prev = bands(d, n - 1);
        let b = band(d, n - 1);
        assert forall|t: int, k: int| 0 <= t < bands(d, n).len() && 0 <= k < 3 implies 1 <= #[trigger] corner(bands(d, n)[t], k) < south_pole(d) by {
            if t >= prev.len() {
                let q = t - prev.len();
                let j = q / 2;
                lemma_ring_vertex_bounds(d, n - 1, j);
                lemma_ring_vertex_bounds(d, n - 1, next_segment(d, j));
                lemma_ring_vertex_bounds(d, n, j);
                lemma_ring_vertex_bounds(d, n, next_segment(d, j));
                assert(bands(d, n)[t] == b[q]);
            } else {
                assert(bands(d, n)[t] == prev[t]);
            }
        }
    }
}

/// The sphere of `d >= 2` divisions has `6·2d·(d - 1)` triangle indices, and every one
/// of them is the position of one of its `2 + (d - 1)·2d` vertices.
pub proof fn lemma_sphere_indices_in_range(d: int)
    requires
        2 <= d,
    ensures
        corners(sphere_triangles(d)).len() == sphere_index_count(d),
        forall|p: int|
            0 <= p < sphere_index_count(d) ==> 0 <= #[trigger] corners(sphere_triangles(d))[p] < sphere_vertex_count(d),
{
    lemma_bands_len(d, d - 2);
    lemma_bands_in_range(d, d - 2);
    let ts = sphere_triangles(d);
    let top = top_cap(d);
    let mid = bands(d, d - 2);
    let bot = bottom_cap(d);
    assert(3 * ts.len() == sphere_index_count(d)) by (nonlinear_arith)
        requires
            ts.len() == 2 * d + (d - 2) * (4 * d) + 2 * d,
    ;
    assert forall|p: int| 0 <= p < sphere_index_count(d) implies 0 <= #[trigger] corners(ts)[p] < sphere_vertex_count(d) by {
        let t = p / 3;
        let k = p % 3;
        assert(corners(ts)[p] == corner(ts[t], k));
        if t < top.len() {
            lemma_ring_vertex_bounds(d, 0, t);
            lemma_ring_vertex_bounds(d, 0, next_segment(d, t));
            assert(ts[t] == top[t]);
        } else if t < top.len() + mid.len() {
            assert(ts[t] == mid[t - top.len()]);
            assert(1 <= corner(mid[t - top.len()], k) < south_pole(d));
        } else {
            let j = t - top.len() - mid.len();
            lemma_ring_vertex_bounds(d, d - 2, j);
            lemma_ring_vertex_bounds(d, d - 2, next_segment(d, j));
            assert(ts[t] == bot[j]);
        }
    }
}

/// The pieces of meridian `j` between consecutive rings, north to south.
pub open spec fn meridian_between_rings(d: int, j: int) -> Seq<Segment> {
    Seq::new((d - 2) as nat, |i: int| (ring_vertex(d, i, j), ring_vertex(d, i + 1, j)))
}

/// Meridian `j` from pole to pole: the north spoke, the pieces between rings and the
/// south spoke.
pub open spec fn meridian(d: int, j: int) -> Seq<Segment> {
    seq![(0, ring_vertex(d, 0, j))] + meridian_between_rings(d, j) + seq![(ring_vertex(d, d - 2, j), south_pole(d))]
}

/// The first `n` meridians.
pub open spec fn meridians(d: int, n: int) -> Seq<Segment>
    decreases n,
{
    if n <= 0 {
        Seq::empty()
    } else {
        meridians(d, n - 1) + meridian(d, n - 1)
    }
}

/// The closed circle of ring `i`.
pub open spec fn parallel(d: int, i: int) -> Seq<Segment> {
    Seq::new((2 * d) as nat, |j: int| (ring_vertex(d, i, j), ring_vertex(d, i, next_segment(d, j))))
}

/// The circles of the first `n` rings.
pub open spec fn parallels(d: int, n: int) -> Seq<Segment>
    decreases n,
{
    if n <= 0 {
        Seq::empty()
    } else {
        parallels(d, n - 1) + parallel(d, n - 1)
    }
}

/// All wireframe segments of the sphere: every meridian, then every ring circle.
/// They are enumerated on their own, not taken from the triangles, so that each edge
/// appears once.
pub open spec fn sphere_edges(d: int) -> Seq<Segment> {
    meridians(d, 2 * d) + parallels(d, d - 1)
}

/// The flat index list of a segment list: two ends per segment.
pub open spec fn ends(ss: Seq<Segment>) -> Seq<int> {
    Seq::new((2 * ss.len()) as nat, |p: int| if p % 2 == 0 { ss[p / 2].0 } else { ss[p / 2].1 })
}

/// Appends one segment's ends to an index list.
fn push_segment(out: &mut Vec<u16>, built: Ghost<Seq<Segment>>, a: u16, b: u16)
    requires
        as_ints(old(out)@) == ends(built@),
    ensures
        as_ints(final(out)@) == ends(built@.push((a as int, b as int))),
{
    out.push(a);
    out.push(b);
    proof {
        assert(ends(built@.push((a as int, b as int))) =~= ends(built@) + seq![a as int, b as int]);
        assert(as_ints(out@) =~= as_ints(old(out)@) + seq![a as int, b as int]);
    }
}

/// The wireframe index list of the UV sphere of `divisions` divisions.
pub fn sphere_edge_indices(divisions: usize) -> (r: Vec<u16>)
    requires
        valid_divisions(divisions as int),
    ensures
        as_ints(r@) == ends(sphere_edges(divisions as int)),
{
    let ghost d = divisions as int;
    proof {
        lemma_divisions_small(d);
        lemma_ring_vertex_bounds(d, d - 2, 0);
    }
    let longitude: usize = 2 * divisions;
    let south: usize = 1 + (divisions - 1) * longitude;
    let last_ring: usize = 1 + (divisions - 2) * longitude;
    let mut out: Vec<u16> = Vec::new();
    let ghost mut built: Seq<Segment> = Seq::empty();
    assert(as_ints(out@) =~= ends(built));

    // Meridians, each from the north pole through every ring to the south pole.
    let mut j: usize = 0;
    while j < longitude
        invariant
            d == divisions, 2 <= d < 256, longitude == 2 * d, south_pole(d) <= 65535,
            south == south_pole(d),
            last_ring == ring_vertex(d, d - 2, 0),
            j <= longitude,
            as_ints(out@) == ends(built),
            built == meridians(d, j as int),
        decreases longitude - j,
    {
        let ghost before = built;
        proof {
            lemma_ring_vertex_bounds(d, 0, j as int);
        }
        push_segment(&mut out, Ghost(built), 0, (1 + j) as u16);
        proof {
            built = built.push((0, ring_vertex(d, 0, j as int)));
        }
        let mut i: usize = 0;
        while i + 2 < divisions
            invariant
                d == divisions, 2 <= d < 256, longitude == 2 * d, south_pole(d) <= 65535,
                j < longitude,
                i <= d - 2,
                as_ints(out@) == ends(built),
                built =~= before + seq![(0, ring_vertex(d, 0, j as int))] + meridian_between_rings(d, j as int).take(i as int),
            decreases divisions - i,
        {
            proof {
                lemma_ring_vertex_bounds(d, i as int, j as int);
                lemma_ring_vertex_bounds(d, i + 1, j as int);
            }
            let current_ring: usize = 1 + i * longitude;
            let next_ring: usize = 1 + (i + 1) * longitude;
            push_segment(&mut out, Ghost(built), (current_ring + j) as u16, (next_ring + j) as u16);
            proof {
                built = built.push((ring_vertex(d, i as int, j as int), ring_vertex(d, i + 1, j as int)));
                assert(built =~= before + seq![(0, ring_vertex(d, 0, j as int))] + meridian_between_rings(d, j as int).take(i + 1));
            }
            i += 1;
        }
        proof {
            lemma_ring_vertex_bounds(d, d - 2, j as int);
        }
        push_segment(&mut out, Ghost(built), (last_ring + j) as u16, south as u16);
        proof {
            built = built.push((ring_vertex(d, d - 2, j as int), south_pole(d)));
            assert(meridian_between_rings(d, j as int).take(i as int) =~= meridian_between_rings(d, j as int));
            assert(built =~= before + meridian(d, j as int));
        }
        j += 1;
    }

    // Ring circles, north to south.
    let ghost all_meridians = built;
    let mut i: usize = 0;
    while i + 1 < divisions
        invariant
            d == divisions, 2 <= d < 256, longitude == 2 * d, south_pole(d) <= 65535,
            i <= d - 1,
            as_ints(out@) == ends(built),
            built =~= all_meridians + parallels(d, i as int),
        decreases divisions - i,
    {
        proof {
            lemma_ring_vertex_bounds(d, i as int, 0);
        }
        let ring_start: usize = 1 + i * longitude;
        let ghost before = built;
        let mut j: usize = 0;
        while j < longitude
            invariant
                d == divisions, 2 <= d < 256, longitude == 2 * d, south_pole(d) <= 65535,
                i + 1 < d,
                ring_start == ring_vertex(d, i as int, 0),
                j <= longitude,
                as_ints(out@) == ends(built),
                built =~= before + parallel(d, i as int).take(j as int),
            decreases longitude - j,
        {
            let next: usize = if j + 1 == longitude { 0 } else { j + 1 };
            proof {
                lemma_ring_vertex_bounds(d, i as int, j as int);
                lemma_ring_vertex_bounds(d, i as int, next as int);
            }
            push_segment(&mut out, Ghost(built), (ring_start + j) as u16, (ring_start + next) as u16);
            proof {
                built = built.push((ring_vertex(d, i as int, j as int), ring_vertex(d, i as int, next as int)));
                assert(built =~= before + parallel(d, i as int).take(j + 1));
            }
            j += 1;
        }
        proof {
            assert(parallel(d, i as int).take(j as int) =~= parallel(d, i as int));
        }
        i += 1;
    }
    out
}

/// Both ends of every segment name one of the first `v` vertices.
pub open spec fn segments_within(ss: Seq<Segment>, v: int) -> bool {
    forall|t: int| 0 <= t < ss.len() ==> 0 <= (#[trigger] ss[t]).0 < v && 0 <= ss[t].1 < v
}

/// The first `n` meridians hold `d` segments each, all between sphere vertices.
pub proof fn lemma_meridians(d: int, n: int)
    requires
        2 <= d,
        0 <= n <= 2 * d,
    ensures
        meridians(d, n).len() == n * d,
        segments_within(meridians(d, n), sphere_vertex_count(d)),
    decreases n,
{
    if n > 0 {
        lemma_meridians(d, n - 1);
        let j = n - 1;
        let m = meridian(d, j);
        let inner = meridian_between_rings(d, j);
        assert((n - 1) * d + d == n * d) by (nonlinear_arith);
        lemma_ring_vertex_bounds(d, 0, j);
        lemma_ring_vertex_bounds(d, d - 2, j);
        assert forall|t: int| 0 <= t < m.len() implies 0 <= (#[trigger] m[t]).0 < sphere_vertex_count(d) && 0 <= m[t].1 < sphere_vertex_count(d) by {
            if 1 <= t < 1 + inner.len() {
                lemma_ring_vertex_bounds(d, t - 1, j);
                lemma_ring_vertex_bounds(d, t, j);
                assert(m[t] == inner[t - 1]);
            }
        }
        let prev = meridians(d, n - 1);
        assert forall|t: int| 0 <= t < meridians(d, n).len() implies 0 <= (#[trigger] meridians(d, n)[t]).0 < sphere_vertex_count(d) && 0 <= meridians(d, n)[t].1 < sphere_vertex_count(d) by {
            if t < prev.len() {
                assert(meridians(d, n)[t] == prev[t]);
            } else {
                assert(meridians(d, n)[t] == m[t - prev.len()]);
            }
        }
    } else {
        assert(n * d == 0) by (nonlinear_arith)
            requires
                n == 0,
        ;
    }
}

/// The circles of the first `n` rings hold `2d` segments each, all between sphere vertices.
pub proof fn lemma_parallels(d: int, n: int)
    requires
        2 <= d,
        0 <= n <= d - 1,
    ensures
        parallels(d, n).len() == n * (2 * d),
        segments_within(parallels(d, n), sphere_vertex_count(d)),
    decreases n,
{
    if n > 0 {
        lemma_parallels(d, n - 1);
        let c = parallel(d, n - 1);
        assert((n - 1) * (2 * d) + 2 * d == n * (2 * d)) by (nonlinear_arith);
        let prev = parallels(d, n - 1);
        assert forall|t: int| 0 <= t < parallels(d, n).len() implies 0 <= (#[trigger] parallels(d, n)[t]).0 < sphere_vertex_count(d) && 0 <= parallels(d, n)[t].1 < sphere_vertex_count(d) by {
            if t < prev.len() {
                assert(parallels(d, n)[t] == prev[t]);
            } else {
                let j = t - prev.len();
                lemma_ring_vertex_bounds(d, n - 1, j);
                lemma_ring_vertex_bounds(d, n - 1, next_segment(d, j));
                assert(parallels(d, n)[t] == c[j]);
            }
        }
    } else {
        assert(n * (2 * d) == 0) by (nonlinear_arith)
            requires
                n == 0,
        ;
    }
}

/// The sphere of `d >= 2` divisions has `2·2d·(2d - 1)` edge indices, and every one of
/// them is the position of one of its vertices: the wireframe reuses the solid's
/// vertex list.
pub proof fn lemma_sphere_edges_in_range(d: int)
    requires
        2 <= d,
    ensures
        ends(sphere_edges(d)).len() == sphere_edge_index_count(d),
        forall|p: int|
            0 <= p < sphere_edge_index_count(d) ==> 0 <= #[trigger] ends(sphere_edges(d))[p] < sphere_vertex_count(d),
{
    lemma_meridians(d, 2 * d);
    lemma_parallels(d, d - 1);
    let ss = sphere_edges(d);
    let ms = meridians(d, 2 * d);
    let ps = parallels(d, d - 1);
    assert(2 * ss.len() == sphere_edge_index_count(d)) by (nonlinear_arith)
        requires
            ss.len() == (2 * d) * d + (d - 1) * (2 * d),
    ;
    assert forall|t: int| 0 <= t < ss.len() implies 0 <= (#[trigger] ss[t]).0 < sphere_vertex_count(d) && 0 <= ss[t].1 < sphere_vertex_count(d) by {
        if t < ms.len() {
            assert(ss[t] == ms[t]);
        } else {
            assert(ss[t] == ps[t - ms.len()]);
        }
    }
    assert forall|p: int| 0 <= p < sphere_edge_index_count(d) implies 0 <= #[trigger] ends(ss)[p] < sphere_vertex_count(d) by {
        assert(0 <= ss[p / 2].0 < sphere_vertex_count(d));
    }
}

/// The vertices of interior ring `i`, by segment.
pub open spec fn ring_points(d: int, i: int) -> Seq<SpherePoint> {
    Seq::new((2 * d) as nat, |j: int| SpherePoint::Ring { polar_step: (i + 1) as usize, segment: j as usize })
}

/// The vertices of the first `n` interior rings.
pub open spec fn rings_points(d: int, n: int) -> Seq<SpherePoint>
    decreases n,
{
    if n <= 0 {
        Seq::empty()
    } else {
        rings_points(d, n - 1) + ring_points(d, n - 1)
    }
}

/// The vertex list of the sphere: north pole, the interior rings north to south, south pole.
pub open spec fn sphere_points(d: int) -> Seq<SpherePoint> {
    seq![SpherePoint::NorthPole] + rings_points(d, d - 1) + seq![SpherePoint::SouthPole]
}

/// Where each vertex of the UV sphere of `divisions` divisions sits, in vertex order.
pub fn sphere_vertex_points(divisions: usize) -> (r: Vec<SpherePoint>)
    requires
        valid_divisions(divisions as int),
    ensures
        r@ == sphere_points(divisions as int),
{
    let ghost d = divisions as int;
    proof {
        lemma_divisions_small(d);
    }
    let longitude: usize = 2 * divisions;
    let mut out: Vec<SpherePoint> = Vec::new();
    out.push(SpherePoint::NorthPole);
    let mut i: usize = 0;
    while i + 1 < divisions
        invariant
            d == divisions, 2 <= d < 256, longitude == 2 * d,
            i <= d - 1,
            out@ =~= seq![SpherePoint::NorthPole] + rings_points(d, i as int),
        decreases divisions - i,
    {
        let ghost before = out@;
        let mut j: usize = 0;
        while j < longitude
            invariant
                d == divisions, 2 <= d < 256, longitude == 2 * d,
                i + 1 < d,
                j <= longitude,
                out@ =~= before + ring_points(d, i as int).take(j as int),
            decreases longitude - j,
        {
            out.push(SpherePoint::Ring { polar_step: i + 1, segment: j });
            assert(out@ =~= before + ring_points(d, i as int).take(j + 1));
            j += 1;
        }
        assert(ring_points(d, i as int).take(j as int) =~= ring_points(d, i as int));
        i += 1;
    }
    out.push(SpherePoint::SouthPole);
    out
}

/// Vertex `i·2d + j` of the first `n` rings is segment `j` of ring `i`.
pub proof fn lemma_rings_points(d: int, n: int)
    requires
        1 <= d,
        0 <= n,
    ensures
        rings_points(d, n).len() == n * (2 * d),
        forall|i: int, j: int|
            0 <= i < n && 0 <= j < 2 * d ==> #[trigger] rings_points(d, n)[i * (2 * d) + j]
                == (SpherePoint::Ring { polar_step: (i + 1) as usize, segment: j as usize }),
    decreases n,
{
    if n > 0 {
        lemma_rings_points(d, n - 1);
        let prev = rings_points(d, n - 1);
        assert((n - 1) * (2 * d) + 2 * d == n * (2 * d)) by (nonlinear_arith);
        assert forall|i: int, j: int| 0 <= i < n && 0 <= j < 2 * d implies #[trigger] rings_points(d, n)[i * (2 * d) + j]
            == (SpherePoint::Ring { polar_step: (i + 1) as usize, segment: j as usize }) by {
            if i < n - 1 {
                assert(i * (2 * d) + j < (n - 1) * (2 * d)) by (nonlinear_arith)
                    requires
                        0 <= i < n - 1,
                        0 <= j < 2 * d,
                ;
                assert(rings_points(d, n)[i * (2 * d) + j] == prev[i * (2 * d) + j]);
            } else {
                assert(rings_points(d, n)[i * (2 * d) + j] == ring_points(d, n - 1)[j]);
            }
        }
    } else {
        assert(n * (2 * d) == 0) by (nonlinear_arith)
            requires
                n == 0,
        ;
    }
}

/// The vertex layout agrees with the positions that the triangles and segments use:
/// there are `2 + (d - 1)·2d` vertices, the north pole first, the south pole at
/// `south_pole(d)`, and `ring_vertex(d, i, j)` is segment `j` of the ring at polar
/// step `i + 1`.
pub proof fn lemma_sphere_points_layout(d: int)
    requires
        2 <= d,
    ensures
        sphere_points(d).len() == sphere_vertex_count(d),
        sphere_points(d)[0] == SpherePoint::NorthPole,
        sphere_points(d)[south_pole(d)] == SpherePoint::SouthPole,
        forall|i: int, j: int|
            0 <= i < d - 1 && 0 <= j < 2 * d ==> #[trigger] sphere_points(d)[ring_vertex(d, i, j)]
                == (SpherePoint::Ring { polar_step: (i + 1) as usize, segment: j as usize }),
{
    lemma_rings_points(d, d - 1);
    let rs = rings_points(d, d - 1);
    assert((d - 1) * (2 * d) == south_pole(d) - 1);
    assert forall|i: int, j: int| 0 <= i < d - 1 && 0 <= j < 2 * d implies #[trigger] sphere_points(d)[ring_vertex(d, i, j)]
        == (SpherePoint::Ring { polar_step: (i + 1) as usize, segment: j as usize }) by {
        lemma_ring_vertex_bounds(d, i, j);
        assert(sphere_points(d)[ring_vertex(d, i, j)] == rs[i * (2 * d) + j]);
    }
}

} // verus!
