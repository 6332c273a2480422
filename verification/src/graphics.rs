//! Rendering rules that do not depend on the GPU: how meshes are grouped into
//! pipelines and how line meshes index their vertices.

use vstd::prelude::*;

verus! {

/// How the vertices of a mesh are assembled into primitives.
#[derive(Clone, Copy, Debug, PartialEq, Eq, Structural)]
pub enum PrimitiveTopology {
    PointList,
    LineList,
    LineStrip,
    TriangleList,
    TriangleStrip,
}

/// The pipelines a renderer draws with.
#[derive(Clone, Copy, Debug, PartialEq, Eq, Structural)]
pub enum Pipeline {
    /// Filled triangles, back faces culled.
    Triangles,
    /// Lines, nothing culled.
    Lines,
}

/// The pipeline that draws meshes of a topology: line lists go to the line
/// pipeline, every other topology is drawn as triangles.
pub open spec fn pipeline_of(topology: PrimitiveTopology) -> Pipeline {
    if topology == PrimitiveTopology::LineList {
        Pipeline::Lines
    } else {
        Pipeline::Triangles
    }
}

/// The pipeline that draws meshes of a topology: line lists go to the line
/// pipeline, every other topology is drawn as triangles.
pub fn pipeline_for(topology: PrimitiveTopology) -> (p: Pipeline)
    ensures
        p == pipeline_of(topology),
{
    match topology {
        PrimitiveTopology::LineList => Pipeline::Lines,
        _ => Pipeline::Triangles,
    }
}

/// The positions, in order, of the meshes of the given topologies that a
/// pipeline draws.
pub open spec fn drawn_by(topologies: Seq<PrimitiveTopology>, pipeline: Pipeline) -> Seq<usize>
    decreases topologies.len(),
{
    if topologies.len() == 0 {
        Seq::empty()
    } else {
        let rest = drawn_by(topologies.drop_last(), pipeline);
        if pipeline_of(topologies.last()) == pipeline {
            rest.push((topologies.len() - 1) as usize)
        } else {
            rest
        }
    }
}

/// Line lists, and only they, are drawn with the line pipeline; every other
/// topology (points, line strips, triangles) is drawn as triangles.
pub proof fn law_pipeline_of_topology(topology: PrimitiveTopology)
    ensures
        (pipeline_of(topology) == Pipeline::Lines) == (topology == PrimitiveTopology::LineList),
        (pipeline_of(topology) == Pipeline::Triangles) == (topology != PrimitiveTopology::LineList),
{
}

/// Every mesh is drawn exactly once: each position lies in the list of the
/// pipeline for its topology and not in the other; the lists hold positions
/// only, each once, in increasing order.
pub proof fn law_each_mesh_drawn_once(topologies: Seq<PrimitiveTopology>, i: int)
    requires
        0 <= i < topologies.len(),
        topologies.len() <= usize::MAX,
    ensures
        drawn_by(topologies, pipeline_of(topologies[i])).contains(i as usize),
        topologies[i] == PrimitiveTopology::LineList ==> drawn_by(
            topologies,
            Pipeline::Lines,
        ).contains(i as usize) && !drawn_by(topologies, Pipeline::Triangles).contains(i as usize),
        topologies[i] != PrimitiveTopology::LineList ==> drawn_by(
            topologies,
            Pipeline::Triangles,
        ).contains(i as usize) && !drawn_by(topologies, Pipeline::Lines).contains(i as usize),
        forall|p: Pipeline, j: int|
            0 <= j < drawn_by(topologies, p).len() ==> #[trigger] drawn_by(topologies, p)[j]
                < topologies.len(),
        forall|p: Pipeline, j: int, k: int|
            0 <= j < k < drawn_by(topologies, p).len() ==> #[trigger] drawn_by(topologies, p)[j]
                < #[trigger] drawn_by(topologies, p)[k],
        drawn_by(topologies, Pipeline::Triangles).len() + drawn_by(topologies, Pipeline::Lines).len()
            == topologies.len(),
{
    lemma_drawn_by_members(topologies);
}

/// What the lists of positions hold: exactly the positions whose topology the
/// pipeline draws, in increasing order, splitting all positions between them.
proof fn lemma_drawn_by_members(topologies: Seq<PrimitiveTopology>)
    requires
        topologies.len() <= usize::MAX,
    ensures
        forall|p: Pipeline, i: int|
            0 <= i < topologies.len() ==> (#[trigger] drawn_by(topologies, p).contains(i as usize)
                <==> pipeline_of(topologies[i]) == p),
        forall|p: Pipeline, j: int|
            0 <= j < drawn_by(topologies, p).len() ==> #[trigger] drawn_by(topologies, p)[j]
                < topologies.len(),
        forall|p: Pipeline, j: int, k: int|
            0 <= j < k < drawn_by(topologies, p).len() ==> #[trigger] drawn_by(topologies, p)[j]
                < #[trigger] drawn_by(topologies, p)[k],
        drawn_by(topologies, Pipeline::Triangles).len() + drawn_by(topologies, Pipeline::Lines).len()
            == topologies.len(),
    decreases topologies.len(),
{
    if topologies.len() > 0 {
        let rest = topologies.drop_last();
        lemma_drawn_by_members(rest);
        assert forall|p: Pipeline, i: int|
            0 <= i < topologies.len() implies (#[trigger] drawn_by(topologies, p).contains(
            i as usize,
        ) <==> pipeline_of(topologies[i]) == p) by {
            let last = (topologies.len() - 1) as usize;
            if i < topologies.len() - 1 {
                assert(rest[i] == topologies[i]);
                if drawn_by(rest, p).contains(i as usize) {
                    let j = choose|j: int| 0 <= j < drawn_by(rest, p).len() && drawn_by(rest, p)[j]
                        == i as usize;
                    if pipeline_of(topologies.last()) == p {
                        assert(drawn_by(topologies, p)[j] == i as usize);
                    }
                }
                if drawn_by(topologies, p).contains(i as usize) {
                    let j = choose|j: int|
                        0 <= j < drawn_by(topologies, p).len() && drawn_by(topologies, p)[j]
                            == i as usize;
                    if pipeline_of(topologies.last()) == p && j == drawn_by(rest, p).len() {
                        assert((i as usize) == last);
                    }
                    assert(drawn_by(rest, p).contains(i as usize)) by {
                        if pipeline_of(topologies.last()) == p {
                            assert(drawn_by(rest, p)[j] == i as usize);
                        }
                    }
                }
            } else {
                if pipeline_of(topologies.last()) == p {
                    assert(drawn_by(topologies, p)[drawn_by(rest, p).len() as int] == last);
                } else {
                    if drawn_by(rest, p).contains(last) {
                        let j = choose|j: int|
                            0 <= j < drawn_by(rest, p).len() && drawn_by(rest, p)[j] == last;
                        assert(drawn_by(rest, p)[j] < rest.len());
                    }
                }
            }
        }
    }
}

/// Group meshes, by position, into those the triangle pipeline draws and
/// those the line pipeline draws, keeping their order, so that each pipeline
/// is set once per frame.
pub fn partition_by_pipeline(topologies: &[PrimitiveTopology]) -> (r: (Vec<usize>, Vec<usize>))
    ensures
        r.0@ == drawn_by(topologies@, Pipeline::Triangles),
        r.1@ == drawn_by(topologies@, Pipeline::Lines),
{
    let mut triangles: Vec<usize> = Vec::new();
    let mut lines: Vec<usize> = Vec::new();
    let mut i: usize = 0;
    while i < topologies.len()
        invariant
            i <= topologies@.len(),
            triangles@ == drawn_by(topologies@.take(i as int), Pipeline::Triangles),
            lines@ == drawn_by(topologies@.take(i as int), Pipeline::Lines),
        decreases topologies@.len() - i,
    {
        assert(topologies@.take(i + 1).drop_last() =~= topologies@.take(i as int));
        match pipeline_for(topologies[i]) {
            Pipeline::Triangles => triangles.push(i),
            Pipeline::Lines => lines.push(i),
        }
        i = i + 1;
    }
    assert(topologies@.take(i as int) =~= topologies@);
    (triangles, lines)
}

/// The number of vertices of a square grid of `size` cells per side: two end
/// points for each of its `size + 1` lines in either direction.
pub fn grid_vertex_count(size: u32) -> (n: usize)
    requires
        4 * (size + 1) <= usize::MAX,
    ensures
        n == 4 * (size + 1),
{
    4 * (size as usize + 1)
}

/// The indices of a line list that joins vertex `2k` to vertex `2k + 1` for
/// every even vertex of `vertex_count`; indices are 16 bits wide and wrap
/// around beyond 65535.
pub fn line_list_indices(vertex_count: usize) -> (r: Vec<u16>)
    requires
        vertex_count < usize::MAX,
    ensures
        r@.len() == 2 * ((vertex_count + 1) / 2),
        forall|j: int| 0 <= j < r@.len() ==> #[trigger] r@[j] == j % 65536,
{
    let mut r: Vec<u16> = Vec::new();
    let mut i: usize = 0;
    while i < vertex_count
        invariant
            i <= vertex_count + 1,
            vertex_count < usize::MAX,
            i % 2 == 0,
            r@.len() == i,
            forall|j: int| 0 <= j < r@.len() ==> #[trigger] r@[j] == j % 65536,
        decreases vertex_count + 1 - i,
    {
        let a: u16 = (i % 65536) as u16;
        let b: u16 = ((i + 1) % 65536) as u16;
        r.push(a);
        r.push(b);
        i = i + 2;
    }
    assert(i == 2 * ((vertex_count + 1) / 2));
    r
}

} // verus!
