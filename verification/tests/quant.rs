use half::f16;
use orangu_server::quant::{
    block_layout, dequantize, get_scale_min_k4, tensor_byte_size, Element, QuantError,
    GGML_TYPE_BF16, GGML_TYPE_F16, GGML_TYPE_F32, GGML_TYPE_Q4_0, GGML_TYPE_Q4_K, GGML_TYPE_Q5_0, GGML_TYPE_Q5_K, GGML_TYPE_Q6_K,
    GGML_TYPE_Q8_0,
};

const QK_K: usize = 256;

fn value(e: &Element) -> f32 {
    match *e {
        Element::Single(bits) => f32::from_bits(bits),
        Element::Half(bits) => f16::from_bits(bits).to_f32(),
        Element::Scaled { d, q } => f16::from_bits(d).to_f32() * q as f32,
        Element::ScaledMin { d, dmin, scale, min, q } => {
            f16::from_bits(d).to_f32() * scale as f32 * q as f32
                - f16::from_bits(dmin).to_f32() * min as f32
        }
        Element::ScaledTwice { d, signed_scale, q } => {
            f16::from_bits(d).to_f32() * signed_scale as f32 * q as f32
        }
    }
}

fn values(ggml_type: u32, bytes: &[u8], n: usize) -> Vec<f32> {
    dequantize(ggml_type, bytes, n).unwrap().iter().map(value).collect()
}

#[test]
fn tensor_byte_size_matches_known_block_layouts() {
    assert_eq!(tensor_byte_size(GGML_TYPE_F32, 8).unwrap(), 32);
    assert_eq!(tensor_byte_size(GGML_TYPE_F16, 8).unwrap(), 16);
    assert_eq!(tensor_byte_size(GGML_TYPE_Q8_0, 32).unwrap(), 34);
    assert_eq!(tensor_byte_size(GGML_TYPE_Q4_0, 32).unwrap(), 18);
    assert_eq!(tensor_byte_size(GGML_TYPE_Q4_K, 256).unwrap(), 144);
    assert_eq!(tensor_byte_size(GGML_TYPE_Q5_K, 256).unwrap(), 176);
    assert_eq!(tensor_byte_size(GGML_TYPE_Q6_K, 256).unwrap(), 210);
}

#[test]
fn tensor_byte_size_rejects_unsupported_types() {
    let err = tensor_byte_size(99, 8).unwrap_err();
    assert!(err.message("type 99").contains("not yet supported"));
}

#[test]
fn dequantize_f32_round_trips() {
    let expected = [1.5f32, -2.0, 0.0, 42.25];
    let mut bytes = Vec::new();
    for v in expected {
        bytes.extend_from_slice(&v.to_le_bytes());
    }
    assert_eq!(values(GGML_TYPE_F32, &bytes, 4), expected);
}

#[test]
fn dequantize_f16_round_trips() {
    let expected = [1.5f32, -2.0, 0.5];
    let mut bytes = Vec::new();
    for v in expected {
        bytes.extend_from_slice(&f16::from_f32(v).to_le_bytes());
    }
    let out = values(GGML_TYPE_F16, &bytes, 3);
    assert_eq!(out.len(), 3);
    for (a, b) in out.iter().zip(expected.iter()) {
        assert!((a - b).abs() < 1e-3, "{a} vs {b}");
    }
}

#[test]
fn dequantize_bf16_takes_the_top_16_bits_of_an_f32() {
    let expected = [1.5f32, -2.0, 0.5];
    let mut bytes = Vec::new();
    for v in expected {
        let bits = (v.to_bits() >> 16) as u16;
        bytes.extend_from_slice(&bits.to_le_bytes());
    }
    assert_eq!(values(GGML_TYPE_BF16, &bytes, 3), expected);
}

#[test]
fn dequantize_q4_0_applies_the_fixed_offset() {
    let mut block = Vec::new();
    block.extend_from_slice(&f16::from_f32(1.0).to_le_bytes());
    block.extend_from_slice(&[0u8; 16]);
    let out = values(GGML_TYPE_Q4_0, &block, 32);
    assert_eq!(out.len(), 32);
    assert!(out.iter().all(|&v| v == -8.0));
}

#[test]
fn dequantize_q5_0_applies_the_fixed_offset() {
    let mut block = Vec::new();
    block.extend_from_slice(&f16::from_f32(1.0).to_le_bytes());
    block.extend_from_slice(&[0u8; 4]);
    block.extend_from_slice(&[0u8; 16]);
    let out = values(GGML_TYPE_Q5_0, &block, 32);
    assert_eq!(out.len(), 32);
    assert!(out.iter().all(|&v| v == -16.0));
}

#[test]
fn dequantize_q8_0_scales_signed_bytes() {
    let mut block = Vec::new();
    block.extend_from_slice(&f16::from_f32(2.0).to_le_bytes());
    let mut qs = [0i8; 32];
    qs[0] = 1;
    qs[1] = -1;
    block.extend_from_slice(&qs.map(|v| v as u8));
    let out = values(GGML_TYPE_Q8_0, &block, 32);
    assert_eq!(out[0], 2.0);
    assert_eq!(out[1], -2.0);
}

#[test]
fn dequantize_q4_k_matches_the_reference_scale_unpacking() {
    let mut block = Vec::new();
    block.extend_from_slice(&f16::from_f32(1.0).to_le_bytes());
    block.extend_from_slice(&f16::from_f32(0.0).to_le_bytes());
    let scales = [1u8, 1, 1, 1, 0, 0, 0, 0, 1, 1, 1, 1];
    block.extend_from_slice(&scales);
    block.extend_from_slice(&[0x55u8; 128]);

    let out = values(GGML_TYPE_Q4_K, &block, 256);
    assert_eq!(out.len(), 256);
    assert!(
        out.iter().all(|&v| (v - 5.0).abs() < 1e-5),
        "expected every element to be 5.0, got {:?}",
        &out[..8]
    );
}

#[test]
fn dequantize_q5_k_applies_the_high_bit_from_qh() {
    let mut block = Vec::new();
    block.extend_from_slice(&f16::from_f32(1.0).to_le_bytes());
    block.extend_from_slice(&f16::from_f32(0.0).to_le_bytes());
    let scales = [1u8, 1, 1, 1, 0, 0, 0, 0, 1, 1, 1, 1];
    block.extend_from_slice(&scales);
    block.extend_from_slice(&[0xFFu8; QK_K / 8]);
    block.extend_from_slice(&[0x00u8; QK_K / 2]);

    let out = values(GGML_TYPE_Q5_K, &block, 256);
    assert_eq!(out.len(), 256);
    assert!(
        out.iter().all(|&v| (v - 16.0).abs() < 1e-5),
        "expected every element to be 16.0, got {:?}",
        &out[..8]
    );
}

#[test]
fn dequantize_q6_k_zero_quant_gives_the_offset_scaled_value() {
    let mut block = Vec::new();
    block.extend_from_slice(&[0u8; QK_K / 2]);
    block.extend_from_slice(&[0u8; QK_K / 4]);
    block.extend_from_slice(&[2i8 as u8; QK_K / 16]);
    block.extend_from_slice(&f16::from_f32(1.0).to_le_bytes());

    let out = values(GGML_TYPE_Q6_K, &block, 256);
    assert_eq!(out.len(), 256);
    assert!(out.iter().all(|&v| v == -64.0), "got {:?}", &out[..8]);
}

#[test]
fn dequantize_q6_k_treats_scales_as_signed() {
    let mut block = Vec::new();
    block.extend_from_slice(&[0u8; QK_K / 2]);
    block.extend_from_slice(&[0u8; QK_K / 4]);
    block.extend_from_slice(&[0xFEu8; QK_K / 16]);
    block.extend_from_slice(&f16::from_f32(1.0).to_le_bytes());

    let out = values(GGML_TYPE_Q6_K, &block, 256);
    assert!(out.iter().all(|&v| v == 64.0), "got {:?}", &out[..8]);
}

#[test]
fn dequantize_rejects_unsupported_types() {
    let err = dequantize(99, &[], 0).unwrap_err();
    assert!(err.message("type 99").contains("not yet supported"));
}

#[test]
fn sizes_that_are_no_whole_blocks_are_refused() {
    let err = tensor_byte_size(GGML_TYPE_Q4_0, 33).unwrap_err();
    assert_eq!(
        err,
        QuantError::NotWholeBlocks { ggml_type: GGML_TYPE_Q4_0, element_count: 33, block_elems: 32 }
    );
    assert_eq!(
        err.message("Q4_0"),
        "tensor element count 33 is not a multiple of the 32 block size for Q4_0"
    );
}

#[test]
fn layouts_are_known_for_nine_types() {
    assert_eq!(block_layout(GGML_TYPE_Q5_0), Some((22, 32)));
    assert_eq!(block_layout(GGML_TYPE_BF16), Some((2, 1)));
    assert_eq!(block_layout(99), None);
}

#[test]
fn only_whole_blocks_are_read() {
    assert_eq!(values(GGML_TYPE_F32, &[0, 0, 128, 63, 1, 2, 3], 4), vec![1.0]);
    let mut block = Vec::new();
    block.extend_from_slice(&f16::from_f32(1.0).to_le_bytes());
    block.extend_from_slice(&[0u8; 16]);
    assert_eq!(values(GGML_TYPE_Q4_0, &block, 5).len(), 5);
    assert!(values(GGML_TYPE_Q4_0, &block[..17], 5).is_empty());
}

#[test]
fn nibbles_come_low_half_first() {
    let mut block = Vec::new();
    block.extend_from_slice(&f16::from_f32(1.0).to_le_bytes());
    let mut qs = [0u8; 16];
    qs[3] = 0xa1;
    block.extend_from_slice(&qs);
    let out = values(GGML_TYPE_Q4_0, &block, 32);
    assert_eq!(out[3], -7.0);
    assert_eq!(out[19], 2.0);
}

#[test]
fn q5_0_takes_each_high_bit() {
    let mut block = Vec::new();
    block.extend_from_slice(&f16::from_f32(1.0).to_le_bytes());
    block.extend_from_slice(&((1u32 << 5) | (1 << 20)).to_le_bytes());
    block.extend_from_slice(&[0u8; 16]);
    let out = values(GGML_TYPE_Q5_0, &block, 32);
    for (i, v) in out.iter().enumerate() {
        let expected = if i == 5 || i == 20 { 0.0 } else { -16.0 };
        assert_eq!(*v, expected, "element {i}");
    }
}

#[test]
fn q6_k_puts_a_quant_together_from_both_parts() {
    let mut block = vec![0u8; 210];
    block[128] = 0b11_10_01_00;
    block[0] = 0x5a;
    for s in block.iter_mut().skip(192).take(16) {
        *s = 1;
    }
    block[208..210].copy_from_slice(&f16::from_f32(1.0).to_le_bytes());
    let out = values(GGML_TYPE_Q6_K, &block, 256);
    assert_eq!(out[0], (0x0a - 32) as f32);
    assert_eq!(out[32], (16 - 32) as f32);
    assert_eq!(out[64], (0x05 + 32 - 32) as f32);
    assert_eq!(out[96], (48 - 32) as f32);
}

#[test]
fn scales_and_minimums_come_out_as_they_were_packed() {
    let scales = [1u8, 20, 37, 63, 18, 0, 45, 62];
    let mins = [2u8, 33, 0, 5, 63, 17, 46, 1];
    let mut block = Vec::new();
    block.extend_from_slice(&f16::from_f32(1.0).to_le_bytes());
    block.extend_from_slice(&f16::from_f32(1.0).to_le_bytes());
    for j in 0..4 {
        block.push(scales[j] | ((scales[j + 4] >> 4) << 6));
    }
    for j in 0..4 {
        block.push(mins[j] | ((mins[j + 4] >> 4) << 6));
    }
    for j in 4..8 {
        block.push((scales[j] & 0xF) | ((mins[j] & 0xF) << 4));
    }
    for j in 0..8 {
        assert_eq!(get_scale_min_k4(j, &block[4..]), (scales[j], mins[j]));
    }
    block.extend_from_slice(&[0x11u8; 128]);
    let out = values(GGML_TYPE_Q4_K, &block, 256);
    for (i, v) in out.iter().enumerate() {
        assert_eq!(*v, scales[i / 32] as f32 - mins[i / 32] as f32, "element {i}");
    }
}
