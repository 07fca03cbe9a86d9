use sytra::dense::{
    append_rows, check_shape_pair, check_transpose_batch, check_transpose_columns, gather_tile_input,
    packed_tensor_names, place_tile, plan_bf16_matmul, plan_bf16_matmul_rows, plan_bf16_matvec,
    plan_bf16_matvec_rows, plan_bf16_transpose_matmul_rows, plan_bf16_transpose_matvec_rows, plan_f32_matmul,
    plan_packed_int4_matmul, DenseExecutionError, MatrixPlan,
};
use sytra::manifest::TensorSegment;

fn segment(name: &str, dtype: &str, shape: Vec<u64>, offset: u64, length: u64) -> TensorSegment {
    TensorSegment {
        tensor: name.to_string(),
        dtype: Some(dtype.to_string()),
        shape,
        shard: "weights.bin".to_string(),
        offset,
        length,
    }
}

fn bf16_bytes(values: &[f32]) -> Vec<u8> {
    values.iter().flat_map(|v| ((v.to_bits() >> 16) as u16).to_le_bytes()).collect()
}

fn bf16_values(bytes: &[u8]) -> Vec<f32> {
    bytes.chunks_exact(2).map(|b| f32::from_bits((u16::from_le_bytes([b[0], b[1]]) as u32) << 16)).collect()
}

fn bits(values: &[f32]) -> Vec<u32> {
    values.iter().map(|v| v.to_bits()).collect()
}

fn floats(values: &[u32]) -> Vec<f32> {
    values.iter().map(|v| f32::from_bits(*v)).collect()
}

/// Row-major `rows x cols` weights times each position's activations.
fn matmul(weights: &[f32], rows: usize, cols: usize, positions: usize, input: &[f32]) -> Vec<f32> {
    let mut out = vec![0.0f32; positions * rows];
    for p in 0..positions {
        for r in 0..rows {
            out[p * rows + r] = (0..cols).map(|c| weights[r * cols + c] * input[p * cols + c]).sum();
        }
    }
    out
}

/// Transposed product: `rows x cols` weights, `[positions, rows]` input.
fn transpose_matmul(weights: &[f32], rows: usize, cols: usize, positions: usize, input: &[f32]) -> Vec<f32> {
    let mut out = vec![0.0f32; positions * cols];
    for p in 0..positions {
        for r in 0..rows {
            for c in 0..cols {
                out[p * cols + c] += weights[r * cols + c] * input[p * rows + r];
            }
        }
    }
    out
}

/// Runs a batched row-tiled product over an in-memory BF16 matrix.
fn run_rows(plan: &mut MatrixPlan, data: &[u8], positions: usize, input: &[f32]) -> Vec<f32> {
    let selected = plan.tiles.selected_rows();
    let mut output = vec![0u32; positions * selected];
    let row_bytes = (plan.cols * 2) as u64;
    while let Some(w) = plan.tiles.next_tile() {
        let (offset, length) = plan.tiles.window_bytes(w, row_bytes);
        let weights = bf16_values(&data[offset as usize..(offset + length) as usize]);
        let tile = matmul(&weights, w.rows, plan.cols, positions, input);
        place_tile(&mut output, &bits(&tile), positions, selected, w.relative_row, w.rows, false).ok().unwrap();
    }
    floats(&output)
}

#[test]
fn bf16_matrix_streams_by_rows_under_the_tile_cap() {
    let data = bf16_bytes(&[1.0, 2.0, 3.0, 4.0, 5.0, 6.0]);
    let seg = segment("linear.weight", "BF16", vec![3, 2], 0, 12);

    let mut plan = plan_bf16_matvec("linear.weight", &seg, 4, 2).ok().unwrap();
    let mut out: Vec<u32> = Vec::new();
    while let Some(w) = plan.tiles.next_tile() {
        let (offset, length) = plan.tiles.window_bytes(w, 4);
        let weights = bf16_values(&data[offset as usize..(offset + length) as usize]);
        let values = matmul(&weights, w.rows, 2, 1, &[2.0, 1.0]);
        append_rows(&mut out, &bits(&values), w.rows).ok().unwrap();
    }
    assert_eq!(floats(&out), [4.0, 10.0, 16.0]);
    assert_eq!(plan.tiles.metrics().tiles, 3);
    assert_eq!(plan.tiles.metrics().peak_tile_bytes, 4);

    let mut plan = plan_bf16_transpose_matvec_rows("linear.weight", &seg, 1, 2, 4, 2).ok().unwrap();
    let input = [2.0f32, 3.0];
    let mut sums = vec![0.0f32; 2];
    while let Some(w) = plan.tiles.next_tile() {
        let (offset, length) = plan.tiles.window_bytes(w, 4);
        let weights = bf16_values(&data[offset as usize..(offset + length) as usize]);
        let partial = transpose_matmul(&weights, w.rows, 2, 1, &input[w.relative_row..w.relative_row + w.rows]);
        check_transpose_columns(partial.len(), 2).ok().unwrap();
        for (s, v) in sums.iter_mut().zip(partial) {
            *s += v;
        }
    }
    assert_eq!(sums, [21.0, 26.0]);
    assert_eq!(plan.tiles.metrics().peak_tile_bytes, 4);

    let mut plan = plan_bf16_matmul("linear.weight", &seg, 4, 2, 4).ok().unwrap();
    let batch = run_rows(&mut plan, &data, 2, &[2.0, 1.0, 1.0, 3.0]);
    assert_eq!(batch, [4.0, 10.0, 16.0, 7.0, 15.0, 23.0]);
    assert_eq!(plan.tiles.metrics().storage_bytes, 12);
    assert_eq!(plan.tiles.metrics().peak_tile_bytes, 4);

    let mut plan = plan_bf16_transpose_matmul_rows("linear.weight", &seg, 1, 2, 4, 2, 4).ok().unwrap();
    let input = bits(&[2.0, 3.0, 1.0, 4.0]);
    let mut sums = vec![0.0f32; 4];
    while let Some(w) = plan.tiles.next_tile() {
        let (offset, length) = plan.tiles.window_bytes(w, 4);
        let weights = bf16_values(&data[offset as usize..(offset + length) as usize]);
        let tile_input = floats(&gather_tile_input(&input, 2, 2, w.relative_row, w.rows));
        let partial = transpose_matmul(&weights, w.rows, 2, 2, &tile_input);
        check_transpose_batch(partial.len(), 2, 2).ok().unwrap();
        for (s, v) in sums.iter_mut().zip(partial) {
            *s += v;
        }
    }
    assert_eq!(sums, [21.0, 26.0, 23.0, 28.0]);
    assert_eq!(plan.tiles.metrics().storage_bytes, 8);
}

#[test]
fn f32_reference_matrix_streams_without_a_full_weight_copy() {
    let values = [1.0f32, 2.0, 3.0, 4.0, 5.0, 6.0];
    let data: Vec<u8> = values.iter().flat_map(|v| v.to_le_bytes()).collect();
    let seg = segment("linear.weight", "F32", vec![3, 2], 0, 24);
    let mut plan = plan_f32_matmul("linear.weight", &seg, 8, 2, 4).ok().unwrap();
    let input = [2.0f32, 1.0, 1.0, 3.0];
    let mut output = vec![0u32; 6];
    while let Some(w) = plan.tiles.next_tile() {
        let (offset, length) = plan.tiles.window_bytes(w, 8);
        let weights: Vec<f32> = data[offset as usize..(offset + length) as usize]
            .chunks_exact(4)
            .map(|b| f32::from_le_bytes([b[0], b[1], b[2], b[3]]))
            .collect();
        let tile = matmul(&weights, w.rows, 2, 2, &input);
        place_tile(&mut output, &bits(&tile), 2, 3, w.relative_row, w.rows, false).ok().unwrap();
    }
    assert_eq!(floats(&output), [4.0, 10.0, 16.0, 7.0, 15.0, 23.0]);
    assert_eq!(plan.tiles.metrics().tiles, 3);
    assert_eq!(plan.tiles.metrics().storage_bytes, 24);
    assert_eq!(plan.tiles.metrics().peak_tile_bytes, 8);
}

#[test]
fn packed_int4_matrix_streams_weights_and_scales_under_one_tile_cap() {
    let rows = 3usize;
    let cols = 32usize;
    let quantized: Vec<i8> = (0..rows * cols).map(|i| (i % 15) as i8 - 7).collect();
    let mut packed = vec![0u8; rows * (cols / 8) * 4];
    for row in 0..rows {
        for column in 0..cols {
            let offset = (row * (cols / 8) + column / 8) * 4;
            let mut word = u32::from_le_bytes(packed[offset..offset + 4].try_into().unwrap());
            word |= u32::from((quantized[row * cols + column] + 8) as u8) << ((column % 8) * 4);
            packed[offset..offset + 4].copy_from_slice(&word.to_le_bytes());
        }
    }
    let scale = (0.0625f32.to_bits() >> 16) as u16;
    let scales: Vec<u8> = (0..rows).flat_map(|_| scale.to_le_bytes()).collect();
    let mut logical = Vec::new();
    logical.extend_from_slice(&(rows as i32).to_le_bytes());
    logical.extend_from_slice(&(cols as i32).to_le_bytes());

    let (packed_name, scale_name, shape_name) = packed_tensor_names("linear.weight").ok().unwrap();
    assert_eq!(packed_name, "linear.weight_packed");
    let packed_seg = segment(&packed_name, "I32", vec![rows as u64, (cols / 8) as u64], 0, packed.len() as u64);
    let scale_seg = segment(&scale_name, "BF16", vec![rows as u64, 1], 0, scales.len() as u64);
    let shape_seg = segment(&shape_name, "I32", vec![2], 0, 8);
    check_shape_pair(&shape_name, &shape_seg).ok().unwrap();

    let positions = 2usize;
    let input: Vec<f32> = (0..positions * cols).map(|i| (i as f32 - 11.0) / 13.0).collect();
    let dequantized: Vec<f32> = quantized.iter().map(|q| *q as f32 * 0.0625).collect();
    let reference = matmul(&dequantized, rows, cols, positions, &input);

    let mut plan = plan_packed_int4_matmul(
        "linear.weight", &shape_name, &packed_seg, &scale_seg, &logical, 36, positions, positions * cols,
    )
    .ok()
    .unwrap();
    let mut output = vec![0u32; positions * rows];
    while let Some(w) = plan.plan.tiles.next_tile() {
        let (packed_offset, packed_length) = plan.plan.tiles.window_bytes(w, plan.packed_row_bytes);
        let (scale_offset, scale_length) = plan.plan.tiles.window_bytes(w, plan.scale_row_bytes);
        let words = &packed[packed_offset as usize..(packed_offset + packed_length) as usize];
        let tile_scales = bf16_values(&scales[scale_offset as usize..(scale_offset + scale_length) as usize]);
        let mut weights = vec![0.0f32; w.rows * cols];
        for r in 0..w.rows {
            for c in 0..cols {
                let o = (r * (cols / 8) + c / 8) * 4;
                let word = u32::from_le_bytes(words[o..o + 4].try_into().unwrap());
                let q = ((word >> ((c % 8) * 4)) & 0xf) as i32 - 8;
                weights[r * cols + c] = q as f32 * tile_scales[r * (cols / 32) + c / 32];
            }
        }
        let tile = matmul(&weights, w.rows, cols, positions, &input);
        place_tile(&mut output, &bits(&tile), positions, rows, w.relative_row, w.rows, true).ok().unwrap();
    }
    assert_eq!(floats(&output), reference);
    assert_eq!(plan.plan.tiles.metrics().tiles, 2);
    assert_eq!(plan.plan.tiles.metrics().storage_bytes, 62);
    assert_eq!(plan.plan.tiles.metrics().peak_tile_bytes, 36);
}

#[test]
fn dense_plans_refuse_inconsistent_contracts() {
    let seg = segment("w", "BF16", vec![3, 2], 0, 12);
    match plan_bf16_matvec_rows("w", &seg, 0, 3, 3, 2) {
        Err(DenseExecutionError::Contract(m)) => assert_eq!(m, "tile budget 3 is smaller than one 4-byte matrix row"),
        _ => panic!("expected a contract error"),
    }
    match plan_bf16_matvec_rows("w", &segment("w", "BF16", vec![3, 2], 0, 10), 0, 3, 8, 2) {
        Err(DenseExecutionError::Contract(m)) => assert_eq!(m, "w stores 10 bytes, expected 12"),
        _ => panic!("expected a contract error"),
    }
    match plan_bf16_matvec_rows("w", &seg, 2, 2, 8, 2) {
        Err(DenseExecutionError::Contract(m)) => assert_eq!(m, "matrix row range and input dimensions are incompatible"),
        _ => panic!("expected a contract error"),
    }
    match plan_bf16_matmul_rows("w", &seg, 0, 3, 3, 1, 2) {
        Err(DenseExecutionError::Contract(m)) => assert_eq!(m, "w cannot execute under the 3-byte tile contract"),
        _ => panic!("expected a contract error"),
    }
    match plan_bf16_matvec("w", &segment("w", "F16", vec![3, 2], 0, 12), 8, 2) {
        Err(DenseExecutionError::Contract(m)) => assert_eq!(m, "w must be a rank-2 BF16 matrix"),
        _ => panic!("expected a contract error"),
    }
    match plan_f32_matmul("w", &segment("w", "F32", vec![3, 2], 0, 24), 8, 2, 3) {
        Err(DenseExecutionError::Contract(m)) => assert_eq!(m, "F32 matrix and input dimensions are incompatible"),
        _ => panic!("expected a contract error"),
    }
    match packed_tensor_names("w.bias") {
        Err(DenseExecutionError::Contract(m)) => assert_eq!(m, "packed dense tensor w.bias must use a .weight logical name"),
        _ => panic!("expected a contract error"),
    }
    let mut output = vec![0u32; 4];
    match place_tile(&mut output, &vec![1, 2, 3], 2, 2, 0, 2, false) {
        Err(DenseExecutionError::Backend(m)) => assert_eq!(m, "backend returned 3 values for a 2x2 output tile"),
        _ => panic!("expected a backend error"),
    }
    assert_eq!(output, vec![0; 4]);
    let mut rows = vec![7u32];
    assert!(append_rows(&mut rows, &vec![1], 2).is_err());
    assert_eq!(rows, vec![7]);
}
