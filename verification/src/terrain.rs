//! Terrain outlines and their tessellation into triangle-strip indices.
//!
//! A terrain mesh is an ordered list of tagged vertices. An `Inner` vertex
//! anchors a fan segment; the `Surface` vertices that follow it are boundary
//! samples. The tessellator emits one index stream for a triangle-strip
//! topology with primitive restart enabled: within a segment it weaves back
//! to the anchor every other step, and at each new anchor it emits the
//! restart sentinel, re-emits the closing surface index so the next segment
//! can reuse it, and starts the next fan.

use vstd::prelude::*;
use crate::ty::WorldCoords;

verus! {

/// The primitive-restart sentinel: breaks a strip draw into sub-strips.
pub const RESTART: u32 = 0xffff_ffff;

/// One tagged outline vertex: a boundary sample or a fan anchor.
#[derive(Copy, Clone, Debug)]
pub enum TerrainVertex {
    Surface(WorldCoords),
    Inner(WorldCoords),
}

impl TerrainVertex {
    /// The vertex coordinate with the tag stripped.
    pub open spec fn coords_spec(self) -> WorldCoords {
        match self {
            TerrainVertex::Surface(c) => c,
            TerrainVertex::Inner(c) => c,
        }
    }

    /// Returns the coordinate regardless of the tag.
    pub fn coords(&self) -> (r: WorldCoords)
        ensures
            r == self.coords_spec(),
    {
        match *self {
            TerrainVertex::Surface(c) => c,
            TerrainVertex::Inner(c) => c,
        }
    }

    /// Tests for the anchor tag.
    pub fn is_inner(&self) -> (r: bool)
        ensures
            r == (*self is Inner),
    {
        match *self {
            TerrainVertex::Inner(_) => true,
            TerrainVertex::Surface(_) => false,
        }
    }
}

/// A well-formed outline: non-empty, anchored by an `Inner` first vertex,
/// and with at least one `Surface` sample before every later anchor (so the
/// index that closes a segment always exists).
pub open spec fn wf_mesh(s: Seq<TerrainVertex>) -> bool {
    &&& s.len() >= 1
    &&& s[0] is Inner
    &&& forall|i: int| 1 <= i < s.len() && (#[trigger] s[i]) is Inner ==> s[i - 1] is Surface
}

/// The coordinates of a vertex list, in order, tags discarded.
pub open spec fn coords_of(s: Seq<TerrainVertex>) -> Seq<WorldCoords> {
    Seq::new(s.len(), |i: int| s[i].coords_spec())
}

/// The index stream the tessellator emits for the vertices from position `i`
/// on, given the running state: `base` is the current anchor position,
/// `start` tells whether the next step must re-emit the anchor, and `lastv`
/// is the most recently emitted surface index value.
pub open spec fn strip_tail(
    s: Seq<TerrainVertex>,
    off: int,
    i: int,
    base: int,
    start: bool,
    lastv: int,
) -> Seq<u32>
    decreases s.len() - i,
{
    if i < 0 || i >= s.len() {
        Seq::<u32>::empty()
    } else {
        let head: Seq<u32> = if start { seq![(base + off) as u32] } else { Seq::<u32>::empty() };
        match s[i] {
            TerrainVertex::Surface(_) => head + seq![(i + off) as u32] + strip_tail(
                s,
                off,
                i + 1,
                base,
                !start,
                i + off,
            ),
            TerrainVertex::Inner(_) => head + seq![(i + off) as u32, RESTART, lastv as u32]
                + strip_tail(s, off, i + 1, i, true, lastv),
        }
    }
}

/// The full index stream for an outline: the walk from the second vertex with
/// the first vertex as anchor, closed by one trailing restart sentinel.
pub open spec fn strip_indices(s: Seq<TerrainVertex>, off: int) -> Seq<u32> {
    strip_tail(s, off, 1, 0, true, 0) + seq![RESTART]
}

/// The positions of the anchor (`Inner`) vertices at or after position `i`,
/// in order.
pub open spec fn anchors_from(s: Seq<TerrainVertex>, i: int) -> Seq<int>
    decreases s.len() - i,
{
    if i < 0 || i >= s.len() {
        Seq::<int>::empty()
    } else if s[i] is Inner {
        seq![i] + anchors_from(s, i + 1)
    } else {
        anchors_from(s, i + 1)
    }
}

/// The positions of all anchor vertices, in order.
pub open spec fn anchors(s: Seq<TerrainVertex>) -> Seq<int> {
    anchors_from(s, 0)
}

/// Splits an index stream on the restart sentinel: one piece per maximal
/// sentinel-free run, so a stream with `n` sentinels yields `n + 1` pieces
/// (a trailing sentinel yields a final empty piece).
pub open spec fn split_restarts(t: Seq<u32>) -> Seq<Seq<u32>>
    decreases t.len(),
{
    if t.len() == 0 {
        seq![Seq::<u32>::empty()]
    } else if t[0] == RESTART {
        seq![Seq::<u32>::empty()] + split_restarts(t.drop_first())
    } else {
        let rest = split_restarts(t.drop_first());
        seq![seq![t[0]] + rest[0]] + rest.drop_first()
    }
}

proof fn lemma_split_nonempty(t: Seq<u32>)
    ensures
        split_restarts(t).len() >= 1,
    decreases t.len(),
{
    if t.len() == 0 {
    } else {
        lemma_split_nonempty(t.drop_first());
    }
}

proof fn lemma_split_prepend(x: u32, t: Seq<u32>)
    requires
        x != RESTART,
    ensures
        split_restarts(seq![x] + t) == seq![seq![x] + split_restarts(t)[0]] + split_restarts(
            t,
        ).drop_first(),
{
    let u = seq![x] + t;
    assert(u.drop_first() =~= t);
    assert(seq![u[0]] =~= seq![x]);
}

proof fn lemma_split_restart(t: Seq<u32>)
    ensures
        split_restarts(seq![RESTART] + t) == seq![Seq::<u32>::empty()] + split_restarts(t),
{
    let u = seq![RESTART] + t;
    assert(u.drop_first() =~= t);
}

proof fn lemma_strip_tail_last(
    s: Seq<TerrainVertex>,
    off: int,
    i: int,
    base: int,
    start: bool,
    lastv: int,
)
    requires
        0 <= off,
        s.len() + off <= RESTART,
        0 <= base < s.len(),
        1 <= i < s.len(),
        0 <= lastv < RESTART,
    ensures
        strip_tail(s, off, i, base, start, lastv).len() >= 1,
        strip_tail(s, off, i, base, start, lastv).last() != RESTART,
    decreases s.len() - i,
{
    if i == s.len() - 1 {
        assert(strip_tail(s, off, i + 1, base, !start, i + off) =~= Seq::<u32>::empty());
        assert(strip_tail(s, off, i + 1, i, true, lastv) =~= Seq::<u32>::empty());
    } else {
        match s[i] {
            TerrainVertex::Surface(_) => {
                lemma_strip_tail_last(s, off, i + 1, base, !start, i + off);
            },
            TerrainVertex::Inner(_) => {
                lemma_strip_tail_last(s, off, i + 1, i, true, lastv);
            },
        }
    }
}

proof fn lemma_anchors_from_range(s: Seq<TerrainVertex>, i: int)
    ensures
        forall|k: int| 0 <= k < anchors_from(s, i).len() ==> i <= #[trigger] anchors_from(s, i)[k]
            < s.len(),
    decreases s.len() - i,
{
    if i < 0 || i >= s.len() {
    } else {
        lemma_anchors_from_range(s, i + 1);
        if s[i] is Inner {
            assert forall|k: int| 0 <= k < anchors_from(s, i).len() implies i <= #[trigger] anchors_from(
                s,
                i,
            )[k] < s.len() by {
                if k >= 1 {
                    assert(anchors_from(s, i)[k] == anchors_from(s, i + 1)[k - 1]);
                }
            }
        }
    }
}

#[verifier::rlimit(100)]
proof fn lemma_strip_tail_closure(
    s: Seq<TerrainVertex>,
    off: int,
    i: int,
    base: int,
    start: bool,
    lastv: int,
)
    requires
        wf_mesh(s),
        0 <= off,
        s.len() + off <= RESTART,
        1 <= i <= s.len(),
        0 <= base < i,
        s[base] is Inner,
        forall|j: int| base < j < i ==> s[j] is Surface,
        i == base + 1 || lastv == i - 1 + off,
        0 <= lastv < RESTART,
    ensures
        ({
            let segs = split_restarts(strip_tail(s, off, i, base, start, lastv) + seq![RESTART]);
            let a = anchors_from(s, i);
            let m = a.len() as int;
            &&& segs.len() == m + 2
            &&& segs[m + 1] == Seq::<u32>::empty()
            &&& forall|j: int|
                0 <= j < segs[0].len() ==> base + off <= #[trigger] segs[0][j] <= (if m > 0 {
                    a[0]
                } else {
                    s.len() - 1
                }) + off
            &&& forall|k: int, j: int|
                1 <= k <= m && 0 <= j < segs[k].len() ==> a[k - 1] - 1 + off
                    <= #[trigger] segs[k][j] <= (if k < m {
                    a[k]
                } else {
                    s.len() - 1
                }) + off
        }),
    decreases s.len() - i,
{
    let a = anchors_from(s, i);
    let m = a.len() as int;
    lemma_anchors_from_range(s, i);
    let t = strip_tail(s, off, i, base, start, lastv) + seq![RESTART];
    let segs = split_restarts(t);
    if i == s.len() {
        reveal_with_fuel(split_restarts, 3);
        assert(strip_tail(s, off, i, base, start, lastv) =~= Seq::<u32>::empty());
        assert(t =~= seq![RESTART]);
        assert(t.drop_first() =~= Seq::<u32>::empty());
        assert(segs =~= seq![Seq::<u32>::empty(), Seq::<u32>::empty()]);
        assert(a =~= Seq::<int>::empty());
    } else {
        let b: u32 = (base + off) as u32;
        let x: u32 = (i + off) as u32;
        assert(base + off < RESTART && i + off < RESTART);
        assert(b == base + off && x == i + off);
        match s[i] {
            TerrainVertex::Surface(_) => {
                let rec = strip_tail(s, off, i + 1, base, !start, i + off);
                lemma_strip_tail_closure(s, off, i + 1, base, !start, i + off);
                lemma_anchors_from_range(s, i + 1);
                let t2 = rec + seq![RESTART];
                let segs2 = split_restarts(t2);
                let a2 = anchors_from(s, i + 1);
                assert(a == a2);
                lemma_split_nonempty(t2);
                let t5 = seq![x] + t2;
                lemma_split_prepend(x, t2);
                let pre: Seq<u32> = if start {
                    seq![b, x]
                } else {
                    seq![x]
                };
                if start {
                    assert(t =~= seq![b] + t5);
                    lemma_split_nonempty(t5);
                    lemma_split_prepend(b, t5);
                    assert(segs[0] =~= pre + segs2[0]);
                } else {
                    assert(t =~= t5);
                    assert(segs[0] =~= pre + segs2[0]);
                }
                assert(segs.len() == segs2.len());
                assert forall|k: int| 1 <= k < segs.len() implies segs[k] == segs2[k] by {
                    assert(segs[k] == split_restarts(t2).drop_first()[k - 1]);
                }
                assert(segs[m + 1] == Seq::<u32>::empty());
                let hi0 = (if m > 0 {
                    a[0]
                } else {
                    s.len() - 1
                }) + off;
                assert forall|j: int| 0 <= j < segs[0].len() implies base + off
                    <= #[trigger] segs[0][j] <= hi0 by {
                    if m > 0 {
                        assert(a2[0] >= i + 1);
                    }
                    if j >= pre.len() {
                        assert(segs[0][j] == segs2[0][j - pre.len()]);
                    }
                }
            },
            TerrainVertex::Inner(_) => {
                assert(s[i - 1] is Surface);
                assert(i > base + 1);
                assert(lastv == i - 1 + off);
                let l: u32 = lastv as u32;
                assert(l == lastv);
                let rec = strip_tail(s, off, i + 1, i, true, lastv);
                lemma_strip_tail_closure(s, off, i + 1, i, true, lastv);
                lemma_anchors_from_range(s, i + 1);
                let t2 = rec + seq![RESTART];
                let segs2 = split_restarts(t2);
                let a2 = anchors_from(s, i + 1);
                let m2 = a2.len() as int;
                assert(a == seq![i] + a2);
                assert(m == m2 + 1);
                assert(a[0] == i);
                lemma_split_nonempty(t2);
                let t3 = seq![l] + t2;
                lemma_split_prepend(l, t2);
                let t4 = seq![RESTART] + t3;
                lemma_split_restart(t3);
                lemma_split_nonempty(t3);
                let t5 = seq![x] + t4;
                lemma_split_prepend(x, t4);
                let pre: Seq<u32> = if start {
                    seq![b, x]
                } else {
                    seq![x]
                };
                if start {
                    assert(t =~= seq![b] + t5);
                    lemma_split_nonempty(t5);
                    lemma_split_prepend(b, t5);
                    assert(segs[0] =~= pre);
                } else {
                    assert(t =~= t5);
                    assert(segs[0] =~= pre);
                }
                assert(segs.len() == 1 + split_restarts(t3).len());
                assert(segs.len() == m + 2);
                assert(segs[1] =~= seq![l] + segs2[0]);
                assert forall|k: int| 2 <= k < segs.len() implies segs[k] == segs2[k - 1] by {
                    assert(segs[k] == split_restarts(t3)[k - 1]);
                    assert(split_restarts(t3)[k - 1] == split_restarts(t2).drop_first()[k - 2]);
                }
                assert(segs[m + 1] == segs2[m2 + 1]);
                let hi0 = (if m > 0 {
                    a[0]
                } else {
                    s.len() - 1
                }) + off;
                assert forall|j: int| 0 <= j < segs[0].len() implies base + off
                    <= #[trigger] segs[0][j] <= hi0 by {
                    assert(segs[0] == pre);
                }
                assert forall|k: int, j: int|
                    1 <= k <= m && 0 <= j < segs[k].len() implies a[k - 1] - 1 + off
                    <= #[trigger] segs[k][j] <= (if k < m {
                    a[k]
                } else {
                    s.len() - 1
                }) + off by {
                    if k == 1 {
                        assert(segs[1] == seq![l] + segs2[0]);
                        if j >= 1 {
                            assert(segs[1][j] == segs2[0][j - 1]);
                            if m2 > 0 {
                                assert(a2[0] >= i + 1);
                                assert(a[1] == a2[0]);
                            }
                        }
                    } else {
                        assert(segs[k] == segs2[k - 1]);
                        assert(a[k - 1] == a2[k - 2]);
                        if k < m {
                            assert(a[k] == a2[k - 1]);
                        }
                    }
                }
            },
        }
    }
}

/// Segment closure: splitting the tessellator's index stream on the restart
/// sentinel yields one piece per anchor vertex (one per `Inner`-to-`Inner`
/// run) plus an empty final piece from the trailing sentinel, and each piece
/// references only the vertices of its own fan run, extended on the left by
/// the closing surface sample of the previous run and on the right by the
/// anchor of the next run (the two shared vertices a strip topology needs to
/// stitch neighbouring fans).
pub proof fn lemma_segment_closure(s: Seq<TerrainVertex>, off: int)
    requires
        wf_mesh(s),
        0 <= off,
        s.len() + off <= RESTART,
    ensures
        ({
            let segs = split_restarts(strip_indices(s, off));
            let a = anchors(s);
            let m = a.len() as int;
            &&& m >= 1
            &&& a[0] == 0
            &&& segs.len() == m + 1
            &&& segs[m] == Seq::<u32>::empty()
            &&& forall|k: int, j: int|
                0 <= k < m && 0 <= j < segs[k].len() ==> (if k == 0 {
                    a[0]
                } else {
                    a[k] - 1
                }) + off <= #[trigger] segs[k][j] <= (if k + 1 < m {
                    a[k + 1]
                } else {
                    s.len() - 1
                }) + off
        }),
{
    lemma_strip_tail_closure(s, off, 1, 0, true, 0);
    lemma_anchors_from_range(s, 1);
    let segs = split_restarts(strip_indices(s, off));
    let a = anchors(s);
    let m = a.len() as int;
    let a1 = anchors_from(s, 1);
    let m1 = a1.len() as int;
    assert(a == seq![0int] + a1);
    assert(m == m1 + 1);
    assert(a[0] == 0);
    assert(strip_indices(s, off) == strip_tail(s, off, 1, 0, true, 0) + seq![RESTART]);
    assert(segs[m] == Seq::<u32>::empty());
    assert forall|k: int, j: int|
        0 <= k < m && 0 <= j < segs[k].len() implies (if k == 0 {
        a[0]
    } else {
        a[k] - 1
    }) + off <= #[trigger] segs[k][j] <= (if k + 1 < m {
        a[k + 1]
    } else {
        s.len() - 1
    }) + off by {
        if k == 0 {
            if m1 > 0 {
                assert(a[1] == a1[0]);
            }
        } else {
            assert(a[k] == a1[k - 1]);
            if k + 1 < m {
                assert(a[k + 1] == a1[k]);
            }
        }
    }
}

/// Restart termination: for any well-formed outline the index stream is
/// non-empty and ends with exactly one trailing restart sentinel.
pub proof fn lemma_restart_termination(s: Seq<TerrainVertex>, off: int)
    requires
        wf_mesh(s),
        0 <= off,
        s.len() + off <= RESTART,
    ensures
        strip_indices(s, off).len() >= 1,
        strip_indices(s, off).last() == RESTART,
        strip_indices(s, off).len() >= 2 ==> strip_indices(s, off)[strip_indices(
            s,
            off,
        ).len() - 2] != RESTART,
{
    let t = strip_tail(s, off, 1, 0, true, 0);
    if s.len() >= 2 {
        lemma_strip_tail_last(s, off, 1, 0, true, 0);
        assert(strip_indices(s, off)[strip_indices(s, off).len() - 2] == t.last());
    } else {
        assert(t =~= Seq::<u32>::empty());
    }
}

/// An ordered terrain outline, immutable once built.
pub struct TerrainMesh {
    mesh: Vec<TerrainVertex>,
}

impl View for TerrainMesh {
    type V = Seq<TerrainVertex>;

    closed spec fn view(&self) -> Seq<TerrainVertex> {
        self.mesh@
    }
}

impl TerrainMesh {
    /// Wraps an ordered vertex list as a terrain outline.
    pub fn new(mesh: Vec<TerrainVertex>) -> (r: TerrainMesh)
        ensures
            r@ == mesh@,
    {
        TerrainMesh { mesh }
    }

    /// A well-formed outline (see `wf_mesh`).
    pub open spec fn wf(&self) -> bool {
        wf_mesh(self@)
    }

    /// Checks the tessellator's precondition: anchored first vertex and a
    /// surface sample before every later anchor.
    pub fn is_well_formed(&self) -> (r: bool)
        ensures
            r == self.wf(),
    {
        if self.mesh.len() == 0 {
            return false;
        }
        if !self.mesh[0].is_inner() {
            return false;
        }
        let n = self.mesh.len();
        let mut i: usize = 1;
        while i < n
            invariant
                1 <= i <= n,
                n == self@.len(),
                self@[0] is Inner,
                forall|j: int| 1 <= j < i && (#[trigger] self@[j]) is Inner ==> self@[j - 1]
                    is Surface,
            decreases n - i,
        {
            if self.mesh[i].is_inner() && self.mesh[i - 1].is_inner() {
                return false;
            }
            i += 1;
        }
        true
    }

    /// The vertex positions in input order, tags stripped.
    pub fn mesh_vertices(&self) -> (r: Vec<WorldCoords>)
        ensures
            r@ == coords_of(self@),
    {
        let n = self.mesh.len();
        let mut out: Vec<WorldCoords> = Vec::new();
        let mut i: usize = 0;
        while i < n
            invariant
                i <= n,
                n == self@.len(),
                out@.len() == i,
                forall|j: int| 0 <= j < i ==> out@[j] == self@[j].coords_spec(),
            decreases n - i,
        {
            out.push(self.mesh[i].coords());
            i += 1;
        }
        proof {
            assert(out@ =~= coords_of(self@));
        }
        out
    }

    /// Tessellates the outline into triangle-strip indices, each vertex
    /// position shifted by `offset`. Rejects an outline that breaks the
    /// anchor precondition, and one whose shifted indices would not stay
    /// below the restart sentinel.
    pub fn mesh_indices(&self, offset: u32) -> (r: Option<Vec<u32>>)
        ensures
            r is Some <==> self.wf() && self@.len() + offset <= RESTART,
            r matches Some(v) ==> v@ == strip_indices(self@, offset as int),
    {
        if !self.is_well_formed() {
            return None;
        }
        if self.mesh.len() > (RESTART - offset) as usize {
            return None;
        }
        let n = self.mesh.len();
        let mut indices: Vec<u32> = Vec::new();
        let mut base: u32 = 0;
        let mut start: bool = true;
        let mut last: Option<u32> = None;
        let ghost mut g_last: int = 0;
        let mut i: usize = 1;
        while i < n
            invariant
                1 <= i <= n,
                n == self@.len(),
                self.wf(),
                n + offset <= RESTART,
                base < i,
                (base as int) < n,
                self@[base as int] is Inner,
                i > base + 1 ==> last is Some,
                last matches Some(v) ==> v as int == g_last,
                last is None ==> g_last == 0,
                indices@ + strip_tail(self@, offset as int, i as int, base as int, start, g_last)
                    == strip_tail(self@, offset as int, 1, 0, true, 0),
            decreases n - i,
        {
            let ghost pre = indices@;
            let ghost s = self@;
            let ghost off = offset as int;
            let ghost old_i = i as int;
            let ghost old_base = base as int;
            let ghost old_start = start;
            let ghost old_last = g_last;
            if start {
                indices.push(base + offset);
                start = false;
            } else {
                start = true;
            }
            if self.mesh[i].is_inner() {
                proof {
                    // the anchor precondition puts a surface sample just
                    // before this anchor, so a surface index was emitted
                    assert(s[old_i - 1] is Surface);
                    assert(old_i > old_base + 1);
                }
                indices.push((i as u32) + offset);
                indices.push(RESTART);
                indices.push(last.unwrap());
                base = i as u32;
                start = true;
            } else {
                let v = (i as u32) + offset;
                indices.push(v);
                last = Some(v);
                proof {
                    g_last = old_i + off;
                }
            }
            i += 1;
            proof {
                assert(indices@ + strip_tail(s, off, i as int, base as int, start, g_last) =~= pre
                    + strip_tail(s, off, old_i, old_base, old_start, old_last));
            }
        }
        proof {
            assert(strip_tail(self@, offset as int, n as int, base as int, start, g_last)
                =~= Seq::<u32>::empty());
            assert(indices@ =~= strip_tail(self@, offset as int, 1, 0, true, 0));
        }
        indices.push(RESTART);
        proof {
            assert(indices@ =~= strip_indices(self@, offset as int));
        }
        Some(indices)
    }
}

} // verus!
