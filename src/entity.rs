use vstd::prelude::*;

verus! {

/// Size in bytes of an entity's transform in the form the shaders read.
pub const RAW_TRANSFORM_SIZE: usize = 64;

/// Size in bytes of one vertex record.
pub const VERTEX_SIZE: usize = 20;

/// Size in bytes of the four vertex records of an entity's quad.
pub const QUAD_SIZE: usize = 80;

/// An entity as a layer sees it: its raw transform and the four vertices of
/// its quad, both already laid out as the GPU reads them.
#[derive(Clone, Copy, Debug, PartialEq, Eq)]
pub struct Entity2D {
    pub transform: [u8; RAW_TRANSFORM_SIZE],
    pub vertices: [u8; QUAD_SIZE],
}

impl Entity2D {
    pub fn new(transform: [u8; RAW_TRANSFORM_SIZE], vertices: [u8; QUAD_SIZE]) -> (r: Entity2D)
        ensures
            r.transform@ == transform@,
            r.vertices@ == vertices@,
    {
        Entity2D { transform, vertices }
    }

    /// The raw transform bytes.
    pub fn to_raw(&self) -> (r: [u8; RAW_TRANSFORM_SIZE])
        ensures
            r@ == self.transform@,
    {
        self.transform
    }

    /// The bytes of the four quad vertices.
    pub fn vertices(&self) -> (r: &[u8; QUAD_SIZE])
        ensures
            r@ == self.vertices@,
    {
        &self.vertices
    }
}

/// The transforms of `es`, one after the other, in order.
pub open spec fn transforms_of(es: Seq<&Entity2D>) -> Seq<u8>
    decreases es.len(),
{
    if es.len() == 0 {
        Seq::empty()
    } else {
        transforms_of(es.drop_last()) + es.last().transform@
    }
}

/// The quad vertices of `es`, one quad after the other, in order.
pub open spec fn quads_of(es: Seq<&Entity2D>) -> Seq<u8>
    decreases es.len(),
{
    if es.len() == 0 {
        Seq::empty()
    } else {
        quads_of(es.drop_last()) + es.last().vertices@
    }
}

pub proof fn lemma_transforms_len(es: Seq<&Entity2D>)
    ensures
        transforms_of(es).len() == es.len() * RAW_TRANSFORM_SIZE,
    decreases es.len(),
{
    if es.len() > 0 {
        lemma_transforms_len(es.drop_last());
        assert(transforms_of(es).len() == (es.len() - 1) * 64 + 64) by (nonlinear_arith)
            requires transforms_of(es).len() == transforms_of(es.drop_last()).len() + 64,
                transforms_of(es.drop_last()).len() == (es.len() - 1) * 64;
    }
}

pub proof fn lemma_quads_len(es: Seq<&Entity2D>)
    ensures
        quads_of(es).len() == es.len() * QUAD_SIZE,
    decreases es.len(),
{
    if es.len() > 0 {
        lemma_quads_len(es.drop_last());
        assert(quads_of(es).len() == (es.len() - 1) * 80 + 80) by (nonlinear_arith)
            requires quads_of(es).len() == quads_of(es.drop_last()).len() + 80,
                quads_of(es.drop_last()).len() == (es.len() - 1) * 80;
    }
}

/// The transform buffer contents for `entities`.
pub fn transform_bytes(entities: &Vec<&Entity2D>) -> (r: Vec<u8>)
    ensures
        r@ == transforms_of(entities@),
{
    let mut out: Vec<u8> = Vec::new();
    let mut i: usize = 0;
    while i < entities.len()
        invariant
            i <= entities@.len(),
            out@ == transforms_of(entities@.take(i as int)),
        decreases entities@.len() - i,
    {
        let e: &Entity2D = entities[i];
        let ghost before = out@;
        let mut j: usize = 0;
        while j < RAW_TRANSFORM_SIZE
            invariant
                j <= RAW_TRANSFORM_SIZE,
                out@ == before + e.transform@.take(j as int),
            decreases RAW_TRANSFORM_SIZE - j,
        {
            out.push(e.transform[j]);
            assert(e.transform@.take(j + 1) == e.transform@.take(j as int).push(e.transform@[j as int]));
            j += 1;
        }
        assert(e.transform@.take(64) == e.transform@);
        assert(entities@.take(i + 1).drop_last() == entities@.take(i as int));
        i += 1;
    }
    assert(entities@.take(entities@.len() as int) == entities@);
    out
}

/// The vertex buffer contents for `entities`.
pub fn quad_bytes(entities: &Vec<&Entity2D>) -> (r: Vec<u8>)
    ensures
        r@ == quads_of(entities@),
{
    let mut out: Vec<u8> = Vec::new();
    let mut i: usize = 0;
    while i < entities.len()
        invariant
            i <= entities@.len(),
            out@ == quads_of(entities@.take(i as int)),
        decreases entities@.len() - i,
    {
        let e: &Entity2D = entities[i];
        let ghost before = out@;
        let mut j: usize = 0;
        while j < QUAD_SIZE
            invariant
                j <= QUAD_SIZE,
                out@ == before + e.vertices@.take(j as int),
            decreases QUAD_SIZE - j,
        {
            out.push(e.vertices[j]);
            assert(e.vertices@.take(j + 1) == e.vertices@.take(j as int).push(e.vertices@[j as int]));
            j += 1;
        }
        assert(e.vertices@.take(80) == e.vertices@);
        assert(entities@.take(i + 1).drop_last() == entities@.take(i as int));
        i += 1;
    }
    assert(entities@.take(entities@.len() as int) == entities@);
    out
}

} // verus!
