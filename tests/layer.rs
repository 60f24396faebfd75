use layer2d::{
    AtlasRegion, Entity2D, Layer2D, Layer2DSystem, LayerError, LayerID, Texture2D, TextureID,
    ATLAS_HEIGHT, ATLAS_WIDTH, QUAD_SIZE, RAW_TRANSFORM_SIZE,
};

fn entity(k: u8) -> Entity2D {
    let mut transform = [0u8; RAW_TRANSFORM_SIZE];
    for (i, b) in transform.iter_mut().enumerate() {
        *b = k.wrapping_add(i as u8);
    }
    let mut vertices = [0u8; QUAD_SIZE];
    for (i, b) in vertices.iter_mut().enumerate() {
        *b = k.wrapping_mul(3).wrapping_add(i as u8).wrapping_add(100);
    }
    Entity2D::new(transform, vertices)
}

fn concat_transforms(es: &[&Entity2D]) -> Vec<u8> {
    es.iter().flat_map(|e| e.to_raw()).collect()
}

fn concat_quads(es: &[&Entity2D]) -> Vec<u8> {
    es.iter().flat_map(|e| *e.vertices()).collect()
}

#[test]
fn new_layer_is_empty() {
    let layer = Layer2D::new(LayerID(7));
    assert_eq!(layer.id(), LayerID(7));
    assert_eq!(layer.entity_count(), 0);
    assert_eq!(layer.index_count(), 0);
    assert_eq!(layer.capacity(), 0);
    assert!(layer.vertex_buffer().is_none());
    assert!(layer.index_buffer().is_none());
    assert!(layer.entity_buffer().is_none());
    assert!(layer.texture_ids().is_empty());
}

#[test]
fn set_entities_counts() {
    for n in [0usize, 1, 3, 10] {
        let es: Vec<Entity2D> = (0..n).map(|k| entity(k as u8)).collect();
        let mut layer = Layer2D::new(LayerID(1));
        Layer2DSystem::set_entities(&mut layer, es.iter().collect());
        assert_eq!(layer.entity_count(), n);
        assert_eq!(layer.index_count(), 6 * n);
        assert_eq!(layer.capacity(), n);
    }
}

#[test]
fn set_entities_round_trip() {
    let e1 = entity(1);
    let e2 = entity(2);
    let mut layer = Layer2D::new(LayerID(1));
    Layer2DSystem::set_entities(&mut layer, vec![&e1, &e2]);
    let transforms = layer.entity_buffer().unwrap();
    assert_eq!(transforms.len(), 2 * RAW_TRANSFORM_SIZE);
    assert_eq!(&transforms[..RAW_TRANSFORM_SIZE], &e1.transform[..]);
    assert_eq!(&transforms[RAW_TRANSFORM_SIZE..], &e2.transform[..]);
    let quads = layer.vertex_buffer().unwrap();
    assert_eq!(quads.len(), 2 * QUAD_SIZE);
    assert_eq!(&quads[..QUAD_SIZE], &e1.vertices[..]);
    assert_eq!(&quads[QUAD_SIZE..], &e2.vertices[..]);
    assert_eq!(layer.index_buffer().unwrap(), &vec![0u16, 1, 2, 0, 2, 3]);
}

#[test]
fn set_entities_replaces_and_shrinks() {
    let es: Vec<Entity2D> = (0..4).map(entity).collect();
    let mut layer = Layer2D::new(LayerID(1));
    Layer2DSystem::set_entities(&mut layer, es.iter().collect());
    let e9 = entity(9);
    Layer2DSystem::set_entities(&mut layer, vec![&e9]);
    assert_eq!(layer.entity_count(), 1);
    assert_eq!(layer.capacity(), 1);
    assert_eq!(layer.entity_buffer().unwrap(), &e9.transform.to_vec());
    assert_eq!(layer.vertex_buffer().unwrap(), &e9.vertices.to_vec());
}

#[test]
fn set_entities_with_none_empties_the_layer() {
    let e1 = entity(1);
    let mut layer = Layer2D::new(LayerID(1));
    Layer2DSystem::set_entities(&mut layer, vec![&e1]);
    Layer2DSystem::set_entities(&mut layer, vec![]);
    assert_eq!(layer.entity_count(), 0);
    assert_eq!(layer.capacity(), 0);
    assert!(layer.vertex_buffer().is_none());
    assert!(layer.index_buffer().is_none());
    assert!(layer.entity_buffer().is_none());
    assert_eq!(
        Layer2DSystem::update_entities(&mut layer, vec![]),
        Err(LayerError::Uninitialized)
    );
}

#[test]
fn update_entities_rewrites_only_leading_transforms() {
    let old: Vec<Entity2D> = (0..3).map(entity).collect();
    let mut layer = Layer2D::new(LayerID(1));
    Layer2DSystem::set_entities(&mut layer, old.iter().collect());
    let quads_before = layer.vertex_buffer().unwrap().clone();
    let a = entity(50);
    let b = entity(60);
    assert_eq!(Layer2DSystem::update_entities(&mut layer, vec![&a, &b]), Ok(()));
    assert_eq!(layer.entity_count(), 2);
    assert_eq!(layer.index_count(), 12);
    assert_eq!(layer.capacity(), 3);
    let mut expected = concat_transforms(&[&a, &b]);
    expected.extend_from_slice(&old[2].transform);
    assert_eq!(layer.entity_buffer().unwrap(), &expected);
    assert_eq!(layer.vertex_buffer().unwrap(), &quads_before);
}

#[test]
fn set_entities_fast_rewrites_leading_slots() {
    let old: Vec<Entity2D> = (0..3).map(entity).collect();
    let mut layer = Layer2D::new(LayerID(1));
    Layer2DSystem::set_entities(&mut layer, old.iter().collect());
    let a = entity(70);
    assert_eq!(Layer2DSystem::set_entities_fast(&mut layer, vec![&a]), Ok(()));
    assert_eq!(layer.entity_count(), 1);
    assert_eq!(layer.index_count(), 6);
    let mut transforms = concat_transforms(&[&a]);
    transforms.extend(concat_transforms(&[&old[1], &old[2]]));
    assert_eq!(layer.entity_buffer().unwrap(), &transforms);
    let mut quads = concat_quads(&[&a]);
    quads.extend(concat_quads(&[&old[1], &old[2]]));
    assert_eq!(layer.vertex_buffer().unwrap(), &quads);

    // The capacity stays that of the last rebuild, so growing back fits.
    let es: Vec<Entity2D> = (20..23).map(entity).collect();
    assert_eq!(Layer2DSystem::set_entities_fast(&mut layer, es.iter().collect()), Ok(()));
    assert_eq!(layer.entity_count(), 3);
    let refs: Vec<&Entity2D> = es.iter().collect();
    assert_eq!(layer.entity_buffer().unwrap(), &concat_transforms(&refs));
    assert_eq!(layer.vertex_buffer().unwrap(), &concat_quads(&refs));
}

#[test]
fn update_to_zero_entities_hides_buffers() {
    let e1 = entity(1);
    let mut layer = Layer2D::new(LayerID(1));
    Layer2DSystem::set_entities(&mut layer, vec![&e1]);
    assert_eq!(Layer2DSystem::set_entities_fast(&mut layer, vec![]), Ok(()));
    assert_eq!(layer.entity_count(), 0);
    assert_eq!(layer.index_count(), 0);
    assert_eq!(layer.capacity(), 1);
    assert!(layer.vertex_buffer().is_none());
    assert!(layer.index_buffer().is_none());
    assert!(layer.entity_buffer().is_none());
}

#[test]
fn update_over_capacity_fails() {
    let old: Vec<Entity2D> = (0..2).map(entity).collect();
    let new: Vec<Entity2D> = (10..13).map(entity).collect();
    let mut layer = Layer2D::new(LayerID(1));
    Layer2DSystem::set_entities(&mut layer, old.iter().collect());
    let before = layer.entity_buffer().unwrap().clone();
    let quads = layer.vertex_buffer().unwrap().clone();
    assert_eq!(
        Layer2DSystem::update_entities(&mut layer, new.iter().collect()),
        Err(LayerError::CapacityExceeded)
    );
    assert_eq!(
        Layer2DSystem::set_entities_fast(&mut layer, new.iter().collect()),
        Err(LayerError::CapacityExceeded)
    );
    assert_eq!(layer.entity_count(), 2);
    assert_eq!(layer.entity_buffer().unwrap(), &before);
    assert_eq!(layer.vertex_buffer().unwrap(), &quads);
}

#[test]
fn update_on_empty_layer_fails() {
    let e1 = entity(1);
    let mut layer = Layer2D::new(LayerID(1));
    assert_eq!(
        Layer2DSystem::update_entities(&mut layer, vec![&e1]),
        Err(LayerError::CapacityExceeded)
    );
    assert_eq!(
        Layer2DSystem::set_entities_fast(&mut layer, vec![]),
        Err(LayerError::Uninitialized)
    );
    assert_eq!(layer.entity_count(), 0);
}

#[test]
fn add_texture_places_on_shelves() {
    let mut layer = Layer2D::new(LayerID(1));
    assert_eq!(layer.add_texture(Texture2D::new(TextureID(1), 3000, 100)), Ok(()));
    assert_eq!(layer.add_texture(Texture2D::new(TextureID(2), 2000, 50)), Ok(()));
    assert_eq!(layer.add_texture(Texture2D::new(TextureID(3), 1000, 10)), Ok(()));
    assert_eq!(
        layer.texture_region(TextureID(1)),
        Some(AtlasRegion { x: 0, y: 0, width: 3000, height: 100 })
    );
    assert_eq!(
        layer.texture_region(TextureID(2)),
        Some(AtlasRegion { x: 0, y: 100, width: 2000, height: 50 })
    );
    assert_eq!(
        layer.texture_region(TextureID(3)),
        Some(AtlasRegion { x: 2000, y: 100, width: 1000, height: 10 })
    );
    assert_eq!(layer.texture_region(TextureID(4)), None);
    assert_eq!(layer.texture_ids(), vec![TextureID(1), TextureID(2), TextureID(3)]);
    assert!(layer.contains_texture(&TextureID(2)));
    assert!(!layer.contains_texture(&TextureID(9)));
    assert_eq!(layer.get_texture(TextureID(2)), Some(&Texture2D::new(TextureID(2), 2000, 50)));
    assert_eq!(layer.get_texture(TextureID(9)), None);
}

#[test]
fn add_texture_duplicate_conflicts() {
    let mut layer = Layer2D::new(LayerID(1));
    assert_eq!(layer.add_texture(Texture2D::new(TextureID(5), 16, 16)), Ok(()));
    assert_eq!(
        layer.add_texture(Texture2D::new(TextureID(5), 32, 8)),
        Err(LayerError::TextureConflict)
    );
    assert_eq!(layer.texture_ids(), vec![TextureID(5)]);
    assert_eq!(layer.get_texture(TextureID(5)), Some(&Texture2D::new(TextureID(5), 16, 16)));
    assert_eq!(
        layer.texture_region(TextureID(5)),
        Some(AtlasRegion { x: 0, y: 0, width: 16, height: 16 })
    );
}

#[test]
fn add_texture_too_large_for_atlas() {
    let mut layer = Layer2D::new(LayerID(1));
    assert_eq!(
        layer.add_texture(Texture2D::new(TextureID(1), ATLAS_WIDTH + 1, 1)),
        Err(LayerError::AtlasCapacityExceeded)
    );
    assert_eq!(
        layer.add_texture(Texture2D::new(TextureID(2), 1, ATLAS_HEIGHT + 1)),
        Err(LayerError::AtlasCapacityExceeded)
    );
    assert_eq!(layer.add_texture(Texture2D::new(TextureID(3), ATLAS_WIDTH, ATLAS_HEIGHT)), Ok(()));
    assert_eq!(
        layer.add_texture(Texture2D::new(TextureID(4), 1, 1)),
        Err(LayerError::AtlasCapacityExceeded)
    );
    assert_eq!(layer.texture_ids(), vec![TextureID(3)]);
}

#[test]
fn layer_ids_order() {
    assert!(LayerID(1) < LayerID(2));
    assert_eq!(LayerID(3), LayerID(3));
}

#[test]
fn atlas_regions_never_overlap() {
    let mut layer = Layer2D::new(LayerID(2));
    let mut added = Vec::new();
    for k in 0..60u32 {
        let w = 200 + (k * 137) % 900;
        let h = 50 + (k * 71) % 400;
        if layer.add_texture(Texture2D::new(TextureID(k), w, h)).is_ok() {
            added.push(k);
        }
    }
    assert!(added.len() > 10);
    let regions: Vec<AtlasRegion> =
        added.iter().map(|k| layer.texture_region(TextureID(*k)).unwrap()).collect();
    for r in &regions {
        assert!(r.x + r.width <= ATLAS_WIDTH && r.y + r.height <= ATLAS_HEIGHT);
    }
    for i in 0..regions.len() {
        for j in (i + 1)..regions.len() {
            let (a, b) = (regions[i], regions[j]);
            let apart = a.x + a.width <= b.x
                || b.x + b.width <= a.x
                || a.y + a.height <= b.y
                || b.y + b.height <= a.y;
            assert!(apart, "{:?} overlaps {:?}", a, b);
        }
    }
}
