use orangu_server::kv_cache::{KvBlobError, KvCache, LayerCache, MirrorLayout, RecurrentLayerState};
use orangu_server::vulkan_shaders::attention::KvStorage;

fn bits(values: &[f32]) -> Vec<u32> {
    values.iter().map(|v| v.to_bits()).collect()
}

/// One step of a causal convolution of each channel, added up.
fn conv_step(state: &mut RecurrentLayerState, input: &[f32], kernel: &[f32]) -> Vec<f32> {
    state
        .conv_step(&bits(input), &bits(kernel))
        .iter()
        .map(|taps| taps.iter().map(|t| f32::from_bits(t.0) * f32::from_bits(t.1)).sum())
        .collect()
}

#[test]
fn push_then_read_back_key_and_value() {
    let mut cache = LayerCache::new(4, 6);
    cache.push(
        &bits(&[1.0, 2.0, 3.0, 4.0, 5.0, 6.0]),
        &bits(&[6.0, 5.0, 4.0, 3.0, 2.0, 1.0]),
    );
    assert_eq!(cache.len, 1);
    assert_eq!(cache.key_at(0, 1, 3), bits(&[4.0, 5.0, 6.0]));
    assert_eq!(cache.value_at(0, 0, 3), bits(&[6.0, 5.0, 4.0]));
}

#[test]
fn conv_step_uses_zeroed_history_for_the_first_tokens() {
    let mut state = RecurrentLayerState::new(1, 3, 1, 1);
    let kernel = [1.0, 10.0, 100.0];
    let out = conv_step(&mut state, &[5.0], &kernel);
    assert_eq!(out, vec![500.0]);
}

#[test]
fn conv_step_slides_the_window_across_tokens() {
    let mut state = RecurrentLayerState::new(1, 3, 1, 1);
    let kernel = [1.0, 10.0, 100.0];
    let _ = conv_step(&mut state, &[5.0], &kernel);
    let out = conv_step(&mut state, &[7.0], &kernel);
    assert_eq!(out, vec![750.0]);
    let out = conv_step(&mut state, &[9.0], &kernel);
    assert_eq!(out, vec![975.0]);
}

#[test]
fn delta_state_mut_is_independent_per_head() {
    let mut state = RecurrentLayerState::new(1, 2, 2, 2);
    state.set_delta_state(0, &bits(&[1.0, 2.0, 3.0, 4.0]));
    state.set_delta_state(1, &bits(&[5.0, 6.0, 7.0, 8.0]));
    assert_eq!(state.delta_state(0), bits(&[1.0, 2.0, 3.0, 4.0]));
    assert_eq!(state.delta_state(1), bits(&[5.0, 6.0, 7.0, 8.0]));
}

#[test]
fn a_window_slides_each_channel_by_itself() {
    let mut state = RecurrentLayerState::new(2, 3, 1, 1);
    let kernel = [10, 11, 12, 20, 21, 22];
    state.conv_step(&[1, 2], &kernel);
    state.conv_step(&[3, 4], &kernel);
    assert_eq!(state.conv_history, vec![1, 3, 2, 4]);
    let taps = state.conv_step(&[5, 6], &kernel);
    assert_eq!(taps, vec![vec![(1, 10), (3, 11), (5, 12)], vec![(2, 20), (4, 21), (6, 22)]]);
    assert_eq!(state.conv_history, vec![3, 5, 4, 6]);
    assert_eq!(state.num_heads(), 1);
}

fn filled(len: usize) -> KvCache {
    let mut c = KvCache::new_mixed(8, &[4, 2], &[(2, 3, 1, 2)]);
    for layer in &mut c.layers {
        for p in 0..len {
            let row: Vec<u32> = (0..layer.kv_dim as u32).map(|i| 100 * p as u32 + i).collect();
            layer.push(&row, &row);
        }
    }
    c.recurrent[0].conv_step(&[7, 8], &[0; 6]);
    c.recurrent[0].set_delta_state(0, &[1, 2, 3, 4]);
    c
}

#[test]
fn a_blob_reads_back() {
    let c = filled(3);
    let blob = c.to_bytes();
    let d = KvCache::from_bytes(&blob).unwrap();
    assert_eq!(d.layers.len(), 2);
    for (a, b) in c.layers.iter().zip(d.layers.iter()) {
        assert_eq!(a.len, b.len);
        assert_eq!(a.kv_dim, b.kv_dim);
        let n = a.len * a.kv_dim;
        assert_eq!(a.k[..n], b.k[..n]);
        assert_eq!(a.v[..n], b.v[..n]);
    }
    assert_eq!(c.recurrent[0].conv_history, d.recurrent[0].conv_history);
    assert_eq!(c.recurrent[0].delta_state, d.recurrent[0].delta_state);
    assert_eq!(d.to_bytes(), blob);
}

#[test]
fn damaged_blobs_are_refused() {
    let blob = filled(2).to_bytes();
    for n in 0..blob.len() {
        assert!(KvCache::from_bytes(&blob[..n]).is_err(), "cut after {n}");
    }
    let mut longer = blob.clone();
    longer.push(0);
    assert_eq!(KvCache::from_bytes(&longer).err(), Some(KvBlobError::TrailingBytes));
    let mut other = blob.clone();
    other[0] ^= 1;
    assert_eq!(KvCache::from_bytes(&other).err(), Some(KvBlobError::BadMagic));
    assert_eq!(KvCache::from_bytes(&[]).err(), Some(KvBlobError::UnexpectedEnd));
    assert_eq!(KvBlobError::BadMagic.message(), "not an orangu KV-cache blob (bad magic)");
    assert_eq!(KvBlobError::DimensionsOverflow.message(), "KV layer dimensions overflow");
    assert_eq!(KvBlobError::CountOverflow.message(), "KV-cache float count overflows");
}

#[test]
fn the_structure_tag_tells_structures_apart() {
    let a = KvCache::new_with_dims(8, &[4, 4]);
    let b = KvCache::new_with_dims(16, &[4, 4]);
    let c = KvCache::new_with_dims(8, &[4, 8]);
    assert_eq!(a.structure_tag(), b.structure_tag());
    assert_ne!(a.structure_tag(), c.structure_tag());
    let d = KvCache::new_mixed(8, &[4, 4], &[(3, 4, 2, 2)]);
    let e = KvCache::new_mixed(9, &[4, 4], &[(3, 4, 2, 2)]);
    assert_eq!(d.structure_tag(), e.structure_tag());
    assert_ne!(a.structure_tag(), d.structure_tag());
    for other in [(2, 4, 2, 2), (3, 5, 2, 2), (3, 4, 1, 2), (3, 4, 2, 3)] {
        let f = KvCache::new_mixed(8, &[4, 4], &[other]);
        assert_ne!(d.structure_tag(), f.structure_tag());
    }
}

#[test]
fn a_prefix_is_taken_over() {
    let src = filled(5);
    let mut dst = KvCache::new_mixed(6, &[4, 2], &[(2, 3, 1, 2)]);
    assert!(dst.can_take_prefix(&src, 3));
    assert!(!dst.can_take_prefix(&src, 6));
    dst.copy_prefix_from(&src, 3);
    assert_eq!(dst.committed_len(), 3);
    assert_eq!(dst.layers[0].key_at(2, 0, 4), src.layers[0].key_at(2, 0, 4));
    assert_eq!(dst.recurrent[0].delta_state, src.recurrent[0].delta_state);
}

#[test]
fn rolling_back_forgets_positions() {
    let mut c = KvCache::new(1, 4, 2);
    c.layers[0].push(&[1, 2], &[3, 4]);
    c.layers[0].push(&[5, 6], &[7, 8]);
    c.truncate(1);
    assert_eq!(c.layers[0].len, 1);
    c.truncate(9);
    assert_eq!(c.layers[0].len, 1);
    assert_eq!(c.duplicate().layers[0].k, c.layers[0].k);
}

#[test]
fn a_mirror_is_laid_out_and_filled() {
    let layout = MirrorLayout::new(4, 8, 2, KvStorage::F32, 256);
    assert_eq!((layout.k_off, layout.k_size), (0, 128));
    assert_eq!((layout.v_off, layout.v_size), (256, 128));

    let mut l = LayerCache::new(4, 8);
    l.push(&[1; 8], &[2; 8]);
    let plan = l.sync_gpu(256, 2, KvStorage::F32);
    assert!(plan.create);
    let up = plan.upload.unwrap();
    assert_eq!((up.start, up.end), (0, 8));
    l.push(&[3; 8], &[4; 8]);
    let plan = l.sync_gpu(256, 2, KvStorage::F32);
    assert!(!plan.create);
    let up = plan.upload.unwrap();
    assert_eq!((up.start, up.end, up.k_at, up.v_at), (8, 16, 32, 288));
    assert!(l.sync_gpu(256, 2, KvStorage::F32).upload.is_none());
    l.advance_gpu_only();
    assert_eq!(l.len, 3);
}

#[test]
fn a_changed_state_reads_back() {
    let mut c = KvCache::new_mixed(4, &[2], &[(3, 3, 2, 2)]);
    c.layers[0].push(&[1, 2], &[3, 4]);
    c.recurrent[0].conv_step(&[5, 6, 7], &[1; 9]);
    c.recurrent[0].set_delta_state(1, &[8, 9, 10, 11]);
    let d = KvCache::from_bytes(&c.to_bytes()).unwrap();
    assert_eq!(d.recurrent[0].num_heads(), 2);
    assert_eq!(d.recurrent[0].delta_state(1), [8, 9, 10, 11]);
    assert_eq!(d.recurrent[0].delta_state, c.recurrent[0].delta_state);
    assert_eq!(d.recurrent[0].conv_history, c.recurrent[0].conv_history);
    assert_eq!(d.layers[0].key_at(0, 0, 2), [1, 2]);
    assert_eq!(d.layers[0].value_at(0, 0, 2), [3, 4]);
}

#[test]
fn unsound_caches_are_noticed() {
    assert!(filled(3).is_sound());
    let mut c = filled(3);
    c.layers[1].len = c.layers[1].capacity + 1;
    assert!(!c.is_sound() && c.layers[0].is_sound());
    let mut c = filled(3);
    c.layers[0].k.pop();
    assert!(!c.layers[0].is_sound() && !c.is_sound());
    let mut c = filled(3);
    c.layers[0].capacity = usize::MAX;
    assert!(!c.is_sound());
    let mut c = filled(3);
    c.recurrent[0].delta_state.push(0);
    assert!(!c.recurrent[0].is_sound() && !c.is_sound());
    let mut c = filled(3);
    c.recurrent[0].conv_history.pop();
    assert!(!c.recurrent[0].is_sound());
    let mut c = filled(3);
    c.recurrent[0].head_dim = usize::MAX;
    assert!(!c.recurrent[0].is_sound());
    let mut s = RecurrentLayerState::new(1, 2, 0, 0);
    assert!(s.is_sound());
    s.delta_state.push(1);
    assert!(!s.is_sound());
    let mut l = LayerCache::new(4, 32);
    l.push(&[1; 32], &[2; 32]);
    let plan = l.sync_gpu(4, 1, KvStorage::F32);
    assert!(plan.mirror.has_room(128) && !plan.mirror.has_room(129));
    assert!(l.is_sound());
    l.len = 0;
    assert!(!l.is_sound());
}
