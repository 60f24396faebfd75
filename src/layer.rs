use vstd::prelude::*;
use crate::atlas::{contains_id, cursor_after, fits, layout_valid, region_at, AtlasRegion, Texture2D, TextureAtlas2D, TextureID};
use crate::entity::{lemma_quads_len, lemma_transforms_len, quad_bytes, quads_of, transform_bytes, transforms_of, Entity2D, QUAD_SIZE, RAW_TRANSFORM_SIZE};

verus! {

/// Names a layer; layers are drawn in the order of their names.
#[derive(Clone, Copy, Debug, PartialEq, Eq, Structural, Hash, PartialOrd, Ord)]
pub struct LayerID(pub u32);

#[derive(Clone, Copy, Debug, PartialEq, Eq, Structural)]
pub enum LayerError {
    /// More entities than the buffers were allocated for.
    CapacityExceeded,
    /// The buffers were never allocated.
    Uninitialized,
    /// The layer already holds a texture of that name.
    TextureConflict,
    /// The texture does not fit in the atlas image.
    AtlasCapacityExceeded,
}

/// The six indices of a quad's two triangles, shared by every entity.
pub open spec fn quad_indices() -> Seq<u16> {
    seq![0u16, 1u16, 2u16, 0u16, 2u16, 3u16]
}

/// What a layer holds, as plain values.
pub struct LayerView {
    pub id: LayerID,
    pub textures: Seq<Texture2D>,
    /// Entities drawn now.
    pub entity_count: nat,
    /// Entities the buffers were allocated for.
    pub capacity: nat,
    pub entity_data: Seq<u8>,
    pub vertex_data: Seq<u8>,
    pub index_data: Seq<u16>,
}

impl LayerView {
    pub open spec fn inv(self) -> bool {
        &&& layout_valid(self.textures)
        &&& self.entity_count <= self.capacity
        &&& self.entity_data.len() == self.capacity * RAW_TRANSFORM_SIZE
        &&& self.vertex_data.len() == self.capacity * QUAD_SIZE
        &&& self.index_data == if self.capacity > 0 { quad_indices() } else { Seq::<u16>::empty() }
    }

    pub open spec fn index_count(self) -> nat {
        6 * self.entity_count
    }

    pub open spec fn has_texture(self, id: TextureID) -> bool {
        contains_id(self.textures, id)
    }

    /// The layer after its buffers were rebuilt for exactly `es`.
    pub open spec fn after_set(self, es: Seq<&Entity2D>) -> LayerView {
        LayerView {
            entity_count: es.len(),
            capacity: es.len(),
            entity_data: transforms_of(es),
            vertex_data: quads_of(es),
            index_data: if es.len() > 0 { quad_indices() } else { Seq::<u16>::empty() },
            ..self
        }
    }

    /// Why an in-place update with `es` is refused, if it is.
    pub open spec fn update_error(self, es: Seq<&Entity2D>) -> Option<LayerError> {
        if es.len() > self.capacity {
            Some(LayerError::CapacityExceeded)
        } else if self.capacity == 0 {
            Some(LayerError::Uninitialized)
        } else {
            None
        }
    }

    /// The layer after the transforms of `es` were written over the first
    /// slots of the entity buffer.
    pub open spec fn after_transform_update(self, es: Seq<&Entity2D>) -> LayerView {
        if self.update_error(es) is Some {
            self
        } else {
            LayerView {
                entity_count: es.len(),
                entity_data: transforms_of(es) + self.entity_data.skip(es.len() * RAW_TRANSFORM_SIZE),
                ..self
            }
        }
    }

    /// The layer after the transforms and quads of `es` were written over
    /// the first slots of the entity and vertex buffers.
    pub open spec fn after_fast_update(self, es: Seq<&Entity2D>) -> LayerView {
        if self.update_error(es) is Some {
            self
        } else {
            LayerView {
                entity_count: es.len(),
                entity_data: transforms_of(es) + self.entity_data.skip(es.len() * RAW_TRANSFORM_SIZE),
                vertex_data: quads_of(es) + self.vertex_data.skip(es.len() * QUAD_SIZE),
                ..self
            }
        }
    }
}

/// The update result that matches `update_error`.
pub open spec fn update_result(e: Option<LayerError>) -> Result<(), LayerError> {
    match e {
        Some(err) => Err(err),
        None => Ok(()),
    }
}

/// Rebuilding the buffers for N entities leaves a well-formed layer that
/// draws N entities with 6N indices.
pub proof fn lemma_set_entities_counts(v: LayerView, es: Seq<&Entity2D>)
    requires
        v.inv(),
    ensures
        v.after_set(es).inv(),
        v.after_set(es).entity_count == es.len(),
        v.after_set(es).index_count() == 6 * es.len(),
{
    lemma_transforms_len(es);
    lemma_quads_len(es);
}

/// After the buffers were built for N1 > 0 entities, an in-place update with
/// N2 <= N1 entities succeeds on both paths: it rewrites the first N2 slots,
/// keeps the bytes past them and the capacity, and draws N2 entities.
pub proof fn lemma_update_within_capacity(v: LayerView, es1: Seq<&Entity2D>, es2: Seq<&Entity2D>)
    requires
        v.inv(),
        0 < es1.len(),
        es2.len() <= es1.len(),
    ensures
        ({
            let w = v.after_set(es1);
            let t = w.after_transform_update(es2);
            let f = w.after_fast_update(es2);
            &&& w.update_error(es2) is None
            &&& t.inv() && f.inv()
            &&& t.capacity == es1.len() && f.capacity == es1.len()
            &&& t.entity_count == es2.len() && f.entity_count == es2.len()
            &&& t.index_count() == 6 * es2.len() && f.index_count() == 6 * es2.len()
            &&& t.entity_data.take(es2.len() * RAW_TRANSFORM_SIZE) == transforms_of(es2)
            &&& t.entity_data.skip(es2.len() * RAW_TRANSFORM_SIZE) == w.entity_data.skip(es2.len() * RAW_TRANSFORM_SIZE)
            &&& t.vertex_data == w.vertex_data
            &&& f.entity_data.take(es2.len() * RAW_TRANSFORM_SIZE) == transforms_of(es2)
            &&& f.entity_data.skip(es2.len() * RAW_TRANSFORM_SIZE) == w.entity_data.skip(es2.len() * RAW_TRANSFORM_SIZE)
            &&& f.vertex_data.take(es2.len() * QUAD_SIZE) == quads_of(es2)
            &&& f.vertex_data.skip(es2.len() * QUAD_SIZE) == w.vertex_data.skip(es2.len() * QUAD_SIZE)
        }),
{
    lemma_set_entities_counts(v, es1);
    lemma_transforms_len(es1);
    lemma_quads_len(es1);
    lemma_transforms_len(es2);
    lemma_quads_len(es2);
    let w = v.after_set(es1);
    let t = w.after_transform_update(es2);
    let f = w.after_fast_update(es2);
    assert(es2.len() * 64 <= es1.len() * 64) by (nonlinear_arith)
        requires es2.len() <= es1.len();
    assert(es2.len() * 80 <= es1.len() * 80) by (nonlinear_arith)
        requires es2.len() <= es1.len();
    assert(t.entity_data.take((es2.len() * 64) as int) =~= transforms_of(es2));
    assert(t.entity_data.skip((es2.len() * 64) as int) =~= w.entity_data.skip((es2.len() * 64) as int));
    assert(f.vertex_data.take((es2.len() * 80) as int) =~= quads_of(es2));
    assert(f.vertex_data.skip((es2.len() * 80) as int) =~= w.vertex_data.skip((es2.len() * 80) as int));
}

/// After the buffers were built for N1 entities, an in-place update with more
/// than N1 entities is refused as over capacity on both paths, and changes
/// nothing.
pub proof fn lemma_update_over_capacity(v: LayerView, es1: Seq<&Entity2D>, es2: Seq<&Entity2D>)
    requires
        v.inv(),
        es2.len() > es1.len(),
    ensures
        v.after_set(es1).update_error(es2) == Some(LayerError::CapacityExceeded),
        v.after_set(es1).after_transform_update(es2) == v.after_set(es1),
        v.after_set(es1).after_fast_update(es2) == v.after_set(es1),
{
}

/// Reading back the buffers built for two entities gives exactly their
/// transforms and their quads, in order.
pub proof fn lemma_round_trip_two(v: LayerView, e1: &Entity2D, e2: &Entity2D)
    ensures
        v.after_set(seq![e1, e2]).entity_data == e1.transform@ + e2.transform@,
        v.after_set(seq![e1, e2]).vertex_data == e1.vertices@ + e2.vertices@,
        v.after_set(seq![e1, e2]).entity_count == 2,
{
    let es = seq![e1, e2];
    assert(es.drop_last() == seq![e1]);
    assert(seq![e1].drop_last() =~= Seq::<&Entity2D>::empty());
    assert(seq![e1].last() == e1);
    assert(transforms_of(Seq::<&Entity2D>::empty()) == Seq::<u8>::empty());
    assert(quads_of(Seq::<&Entity2D>::empty()) == Seq::<u8>::empty());
    assert(transforms_of(seq![e1]) =~= e1.transform@);
    assert(quads_of(seq![e1]) =~= e1.vertices@);
}

/// A draw layer: its textures and the CPU copies of its GPU buffers.
pub struct Layer2D {
    id: LayerID,
    atlas: TextureAtlas2D,
    entity_count: usize,
    capacity: usize,
    entity_buffer: Vec<u8>,
    vertex_buffer: Vec<u8>,
    index_buffer: Vec<u16>,
}

impl View for Layer2D {
    type V = LayerView;

    closed spec fn view(&self) -> LayerView {
        LayerView {
            id: self.id,
            textures: self.atlas@,
            entity_count: self.entity_count as nat,
            capacity: self.capacity as nat,
            entity_data: self.entity_buffer@,
            vertex_data: self.vertex_buffer@,
            index_data: self.index_buffer@,
        }
    }
}

impl Layer2D {
    pub closed spec fn wf(&self) -> bool {
        &&& self.atlas.wf()
        &&& self@.inv()
    }

    pub fn new(id: LayerID) -> (r: Layer2D)
        ensures
            r.wf(),
            r@.id == id,
            r@.textures.len() == 0,
            r@.entity_count == 0,
            r@.capacity == 0,
    {
        let r = Layer2D {
            id,
            atlas: TextureAtlas2D::new(),
            entity_count: 0,
            capacity: 0,
            entity_buffer: Vec::new(),
            vertex_buffer: Vec::new(),
            index_buffer: Vec::new(),
        };
        proof {
            assert(r@.index_data =~= Seq::<u16>::empty());
        }
        r
    }

    pub fn id(&self) -> (r: LayerID)
        ensures
            r == self@.id,
    {
        self.id
    }

    pub fn contains_texture(&self, texture_id: &TextureID) -> (r: bool)
        ensures
            r == self@.has_texture(*texture_id),
    {
        self.atlas.contains(*texture_id)
    }

    /// The names of the layer's textures, in the order they were added.
    pub fn texture_ids(&self) -> (r: Vec<TextureID>)
        ensures
            r@.len() == self@.textures.len(),
            forall|i: int| 0 <= i < r@.len() ==> r@[i] == #[trigger] self@.textures[i].id,
    {
        self.atlas.ids()
    }

    pub fn get_texture(&self, id: TextureID) -> (r: Option<&Texture2D>)
        requires
            self.wf(),
        ensures
            match r {
                Some(t) => t.id == id && exists|i: int| 0 <= i < self@.textures.len() && self@.textures[i] == *t,
                None => !self@.has_texture(id),
            },
    {
        self.atlas.get(id)
    }

    /// Where the texture named `id` sits in the layer's atlas image.
    pub fn texture_region(&self, id: TextureID) -> (r: Option<AtlasRegion>)
        requires
            self.wf(),
        ensures
            match r {
                Some(g) => exists|i: int| 0 <= i < self@.textures.len()
                    && self@.textures[i].id == id && g == region_at(self@.textures, i),
                None => !self@.has_texture(id),
            },
    {
        self.atlas.region(id)
    }

    /// Adds `texture` to the atlas, after the textures already there.
    pub fn add_texture(&mut self, texture: Texture2D) -> (r: Result<(), LayerError>)
        requires
            old(self).wf(),
        ensures
            final(self).wf(),
            old(self)@.has_texture(texture.id) ==> r == Err::<(), LayerError>(LayerError::TextureConflict),
            !old(self)@.has_texture(texture.id) && !fits(cursor_after(old(self)@.textures), texture)
                ==> r == Err::<(), LayerError>(LayerError::AtlasCapacityExceeded),
            !old(self)@.has_texture(texture.id) && fits(cursor_after(old(self)@.textures), texture)
                ==> r is Ok,
            r is Ok ==> final(self)@ == (LayerView { textures: old(self)@.textures.push(texture), ..old(self)@ }),
            r is Err ==> final(self)@ == old(self)@,
    {
        if self.atlas.contains(texture.id) {
            return Err(LayerError::TextureConflict);
        }
        let placed = self.atlas.try_insert(texture);
        proof {
            self.atlas.lemma_layout_valid();
        }
        if placed {
            Ok(())
        } else {
            Err(LayerError::AtlasCapacityExceeded)
        }
    }

    /// The vertex buffer contents; absent while nothing is drawn.
    pub fn vertex_buffer(&self) -> (r: Option<&Vec<u8>>)
        ensures
            match r {
                Some(b) => self@.entity_count > 0 && b@ == self@.vertex_data,
                None => self@.entity_count == 0,
            },
    {
        if self.entity_count == 0 {
            None
        } else {
            Some(&self.vertex_buffer)
        }
    }

    /// The index buffer contents; absent while nothing is drawn.
    pub fn index_buffer(&self) -> (r: Option<&Vec<u16>>)
        ensures
            match r {
                Some(b) => self@.entity_count > 0 && b@ == self@.index_data,
                None => self@.entity_count == 0,
            },
    {
        if self.entity_count == 0 {
            None
        } else {
            Some(&self.index_buffer)
        }
    }

    /// The per-entity transform buffer contents; absent while nothing is drawn.
    pub fn entity_buffer(&self) -> (r: Option<&Vec<u8>>)
        ensures
            match r {
                Some(b) => self@.entity_count > 0 && b@ == self@.entity_data,
                None => self@.entity_count == 0,
            },
    {
        if self.entity_count == 0 {
            None
        } else {
            Some(&self.entity_buffer)
        }
    }

    pub fn index_count(&self) -> (r: usize)
        requires
            self.wf(),
        ensures
            r == self@.index_count(),
    {
        // The entity buffer holds 64 bytes per slot, so six per drawn entity fit too.
        let bytes = self.entity_buffer.len();
        proof {
            assert(self.entity_count * 6 <= self.capacity * 64) by (nonlinear_arith)
                requires
                    self.entity_count <= self.capacity,
            ;
        }
        self.entity_count * 6
    }

    pub fn entity_count(&self) -> (r: usize)
        ensures
            r == self@.entity_count,
    {
        self.entity_count
    }

    /// How many entities the buffers hold room for.
    pub fn capacity(&self) -> (r: usize)
        ensures
            r == self@.capacity,
    {
        self.capacity
    }
}

/// Writes `data` over the start of `buf`, keeping the rest.
fn overwrite_prefix(buf: &mut Vec<u8>, data: &Vec<u8>)
    requires
        data@.len() <= old(buf)@.len(),
    ensures
        final(buf)@ == data@ + old(buf)@.skip(data@.len() as int),
{
    let mut i: usize = 0;
    while i < data.len()
        invariant
            data@.len() <= buf@.len() == old(buf)@.len(),
            i <= data@.len(),
            forall|k: int| 0 <= k < i ==> buf@[k] == data@[k],
            forall|k: int| i <= k < buf@.len() ==> buf@[k] == old(buf)@[k],
        decreases data@.len() - i,
    {
        buf[i] = data[i];
        i += 1;
    }
    assert(buf@ =~= data@ + old(buf)@.skip(data@.len() as int));
}

fn index_buffer_contents(count: usize) -> (r: Vec<u16>)
    ensures
        r@ == if count > 0 { quad_indices() } else { Seq::<u16>::empty() },
{
    if count > 0 {
        let r: Vec<u16> = vec![0, 1, 2, 0, 2, 3];
        assert(r@ =~= quad_indices());
        r
    } else {
        let r: Vec<u16> = Vec::new();
        assert(r@ =~= Seq::<u16>::empty());
        r
    }
}

/// Builds and updates the buffers of a layer.
pub struct Layer2DSystem;

impl Layer2DSystem {
    /// Replaces the layer's buffers with new ones sized for exactly
    /// `entities`. Use this when entities are added or removed.
    pub fn set_entities(layer: &mut Layer2D, entities: Vec<&Entity2D>)
        requires
            old(layer).wf(),
        ensures
            final(layer).wf(),
            final(layer)@ == old(layer)@.after_set(entities@),
    {
        let n = entities.len();
        let transforms = transform_bytes(&entities);
        let quads = quad_bytes(&entities);
        proof {
            lemma_transforms_len(entities@);
            lemma_quads_len(entities@);
        }
        layer.entity_buffer = transforms;
        layer.vertex_buffer = quads;
        layer.index_buffer = index_buffer_contents(n);
        layer.capacity = n;
        layer.entity_count = n;
    }

    /// Writes the transforms of `entities` over the first slots of the
    /// entity buffer, leaving the vertex buffer as it is.
    pub fn update_entities(layer: &mut Layer2D, entities: Vec<&Entity2D>) -> (r: Result<(), LayerError>)
        requires
            old(layer).wf(),
        ensures
            final(layer).wf(),
            r == update_result(old(layer)@.update_error(entities@)),
            final(layer)@ == old(layer)@.after_transform_update(entities@),
    {
        if entities.len() > layer.capacity {
            return Err(LayerError::CapacityExceeded);
        }
        if layer.capacity == 0 {
            return Err(LayerError::Uninitialized);
        }
        let transforms = transform_bytes(&entities);
        proof {
            lemma_transforms_len(entities@);
        }
        overwrite_prefix(&mut layer.entity_buffer, &transforms);
        layer.entity_count = entities.len();
        Ok(())
    }

    /// Writes the transforms and quads of `entities` over the first slots
    /// of the existing buffers, for when the entities have not grown past
    /// what the buffers were allocated for.
    pub fn set_entities_fast(layer: &mut Layer2D, entities: Vec<&Entity2D>) -> (r: Result<(), LayerError>)
        requires
            old(layer).wf(),
        ensures
            final(layer).wf(),
            r == update_result(old(layer)@.update_error(entities@)),
            final(layer)@ == old(layer)@.after_fast_update(entities@),
    {
        if entities.len() > layer.capacity {
            return Err(LayerError::CapacityExceeded);
        }
        if layer.capacity == 0 {
            return Err(LayerError::Uninitialized);
        }
        let transforms = transform_bytes(&entities);
        let quads = quad_bytes(&entities);
        proof {
            lemma_transforms_len(entities@);
            lemma_quads_len(entities@);
        }
        overwrite_prefix(&mut layer.entity_buffer, &transforms);
        overwrite_prefix(&mut layer.vertex_buffer, &quads);
        layer.entity_count = entities.len();
        Ok(())
    }
}

} // verus!
