use vs1::cua_s1::attention::{
    apply_rotary, attend_causally, causal_mask, query_and_gate, repeat_kv, FullAttention, KvCache,
};
use vs1::cua_s1::config::{LayerType, TextConfig};
use vs1::cua_s1::delta_net::{
    apply_delta_rule, convolve_causally, output_offset, tap_source, GatedDeltaNet,
};
use vs1::cua_s1::model::{layer_weights, TextModel};
use vs1::cua_s1::prompt::CuaS1Input;
use vs1::device::{DType, Device};
use vs1::score::Double;
use vs1::tensor::TensorInfo;
use vs1::SystemOneError;

fn double(x: f64) -> Double {
    Double { bits: x.to_bits() }
}

fn info(dims: &[usize], dtype: DType) -> TensorInfo {
    let mut strides = vec![1; dims.len()];
    for i in (0..dims.len().saturating_sub(1)).rev() {
        strides[i] = strides[i + 1] * dims[i + 1];
    }
    TensorInfo {
        dims: dims.to_vec(),
        strides,
        contiguous: true,
        dtype,
        device: Device::Cpu,
        gpu: 0,
        device_id: 0,
        offset: 0,
    }
}

fn sample_config() -> TextConfig {
    TextConfig {
        hidden_size: 16,
        intermediate_size: 32,
        num_hidden_layers: 4,
        layer_types: vec![
            LayerType::LinearAttention,
            LayerType::FullAttention,
            LayerType::LinearAttention,
            LayerType::FullAttention,
        ],
        num_attention_heads: 4,
        num_key_value_heads: 2,
        head_dim: 8,
        rms_norm_eps: double(1e-6),
        vocab_size: 32,
        tie_word_embeddings: true,
        attn_output_gate: true,
        linear_num_key_heads: 2,
        linear_num_value_heads: 4,
        linear_key_head_dim: 4,
        linear_value_head_dim: 4,
        linear_conv_kernel_dim: 4,
        rope_theta: double(10_000_000.),
        partial_rotary_factor: double(0.25),
    }
}

fn sample_model() -> TextModel {
    match TextModel::load(&sample_config(), &vec![32, 16]) {
        Ok(model) => model,
        Err(e) => panic!("{}", e.message()),
    }
}

fn sample_attention() -> FullAttention {
    FullAttention { num_heads: 4, num_kv_heads: 2, head_dim: 16 }
}

#[test]
fn rejects_mismatched_full_attention_cache() {
    let attention = sample_attention();
    let query = info(&[2, 128], DType::F32);
    let whole = || info(&[2, 2, 16], DType::F32);
    let step = attention.forward_with_cache(&query, 2, Some(&KvCache { key: whole(), value: whole() })).unwrap();
    assert_eq!((step.first_position, step.end_position, step.key_len), (2, 4, 4));
    for invalid in [
        KvCache { key: info(&[1, 2, 16], DType::F32), value: whole() },
        KvCache { key: info(&[2, 2, 8], DType::F32), value: whole() },
        KvCache { key: info(&[2, 2, 16], DType::BF16), value: whole() },
        KvCache { key: whole(), value: info(&[2, 1, 16], DType::F32) },
        KvCache { key: whole(), value: info(&[2, 2, 16], DType::BF16) },
    ] {
        let Err(SystemOneError::Candle(m)) = attention.forward_with_cache(&query, 2, Some(&invalid)) else {
            panic!("accepted {invalid:?}")
        };
        assert_eq!(m, "full attention cache has incompatible shape, dtype or device");
    }
    assert!(attention.forward_with_cache(&query, 0, Some(&KvCache { key: whole(), value: whole() })).is_err());
    let flat = KvCache { key: info(&[2, 16], DType::F32), value: whole() };
    let Err(SystemOneError::Candle(m)) = attention.forward_with_cache(&query, 2, Some(&flat)) else {
        panic!("accepted")
    };
    assert_eq!(m, "unexpected rank, expected: 3, got: 2 ([2, 16])");
}

#[test]
fn steps_have_the_positions_of_the_whole() {
    let attention = sample_attention();
    let query = info(&[5, 128], DType::F32);
    let first = attention.forward_with_cache(&query, 3, None).unwrap();
    assert_eq!((first.first_position, first.end_position, first.groups), (0, 3, 2));
    let left = || info(&[2, first.key_len, 16], DType::F32);
    let cache = KvCache { key: left(), value: left() };
    let next = attention.forward_with_cache(&query, 2, Some(&cache)).unwrap();
    let whole = attention.forward_with_cache(&query, 5, None).unwrap();
    assert_eq!(next.first_position, first.end_position);
    assert_eq!((next.end_position, next.key_len), (whole.end_position, whole.key_len));
}

#[test]
fn rotates_halves_of_only_the_rotary_dimensions() {
    let x = [[1f32, 2., 3., 4., 5., 6.], [7., 8., 9., 10., 11., 12.]];
    let cos = [[1f32; 4], [0.; 4]];
    let sin = [[0f32; 4], [1.; 4]];
    let expected = [[1f32, 2., 3., 4., 5., 6.], [-9., -10., 7., 8., 11., 12.]];
    for t in 0..2 {
        for j in 0..6 {
            let rotated = match apply_rotary(j, 4) {
                Some((partner, minus)) => {
                    let mixed = if minus { -x[t][partner] } else { x[t][partner] };
                    x[t][j] * cos[t][j] + mixed * sin[t][j]
                }
                None => x[t][j],
            };
            assert_eq!(rotated, expected[t][j]);
        }
    }
}

#[test]
fn continued_masks_are_the_last_rows_of_the_whole() {
    let whole = causal_mask(5, 5);
    for cached in 0..5 {
        let part = causal_mask(5 - cached, 5);
        assert_eq!(part, whole[cached * 5..]);
    }
    assert_eq!(causal_mask(2, 3), [false, false, true, false, false, false]);
    assert_eq!(repeat_kv(2, 2), [0, 0, 1, 1]);
    assert_eq!(query_and_gate(1, 16), (32, 48));
    let mut query = info(&[4, 2, 16], DType::BF16);
    assert!(!attend_causally(&query, true));
    query.device = Device::Cuda;
    assert!(attend_causally(&query, true));
    assert!(!attend_causally(&query, false));
}

#[test]
fn convolves_each_channel_with_left_padding_and_no_future_tokens() {
    let x = [[1f32, 10.], [2., 20.], [3., 30.], [4., 40.], [5., 50.]];
    let weight = [[1f32, 2., 3., 4.], [2., 4., 6., 8.]];
    let expected = [[4f32, 80.], [11., 220.], [20., 400.], [30., 600.], [40., 800.]];
    for seq in [1, 3, 5] {
        let padding =
            convolve_causally(&info(&[seq, 2], DType::F32), &info(&[2, 1, 4], DType::F32)).unwrap();
        assert_eq!(padding, 3);
        for t in 0..seq {
            for c in 0..2 {
                let mut sum = 0f32;
                for tap in 0..4 {
                    if let Some(s) = tap_source(t, tap, 4) {
                        sum += x[s][c] * weight[c][tap];
                    }
                }
                assert_eq!(sum, expected[t][c]);
            }
        }
    }
    let Err(SystemOneError::Candle(m)) =
        convolve_causally(&info(&[5, 2], DType::F32), &info(&[3, 1, 4], DType::F32))
    else {
        panic!("accepted")
    };
    assert_eq!(m, "causal depthwise convolution requires [channels, 1, kernel] weights");
}

#[test]
fn repeats_key_heads_consecutively_for_each_token() {
    let x = [[[1f32, 2.], [3., 4.]], [[5., 6.], [7., 8.]]];
    let expected =
        [[[1f32, 2.], [1., 2.], [3., 4.], [3., 4.]], [[5., 6.], [5., 6.], [7., 8.], [7., 8.]]];
    let sources = repeat_kv(2, 2);
    for t in 0..2 {
        for h in 0..4 {
            assert_eq!(x[t][sources[h]], expected[t][h]);
        }
    }
}

#[test]
fn recurrent_outputs_lie_by_step_and_head() {
    let query = [[[1f32, 0.], [0., 1.]], [[0., 1.], [1., 0.]], [[1., 1.], [1., 1.]]];
    let key = [[[1f32, 0.], [0., 1.]], [[1., 1.], [1., 0.]], [[0., 1.], [1., 0.]]];
    let value = [
        [[2f32, 4., 6.], [8., 6., 4.]],
        [[6., 8., 10.], [4., 6., 8.]],
        [[10., 12., 14.], [0., 0., 0.]],
    ];
    let beta = [[0.5f32, 1.], [0.5, 0.25], [0., 1.]];
    let decay = [[1f32, 1.], [0.5, 1.], [0.25, 1.]];
    let expected = [
        [[1f32, 2., 3.], [8., 6., 4.]],
        [[2.75, 3.5, 4.25], [1., 1.5, 2.]],
        [[1.5, 2., 2.5], [8., 6., 4.]],
    ];
    let f = |dims: &[usize]| info(dims, DType::F32);
    for seq in [1, 2, 3] {
        let count = apply_delta_rule(
            &f(&[seq, 2, 2]),
            &f(&[seq, 2, 2]),
            &f(&[seq, 2, 3]),
            &f(&[seq, 2]),
            &f(&[seq, 2]),
        )
        .unwrap();
        let mut output = vec![0f32; count];
        for head in 0..2 {
            let mut state = [[0f32; 3]; 2];
            for t in 0..seq {
                let mut delta = [0f32; 3];
                for row in 0..2 {
                    for v in 0..3 {
                        state[row][v] *= decay[t][head];
                        delta[v] += key[t][head][row] * state[row][v];
                    }
                }
                let offset = output_offset(t, head, 2, 3);
                for row in 0..2 {
                    for v in 0..3 {
                        let step = (value[t][head][v] - delta[v]) * beta[t][head];
                        state[row][v] += key[t][head][row] * step;
                        output[offset + v] += query[t][head][row] * state[row][v];
                    }
                }
            }
        }
        for t in 0..seq {
            for head in 0..2 {
                for v in 0..3 {
                    let made = output[output_offset(t, head, 2, 3) + v];
                    assert!((made - expected[t][head][v]).abs() <= 1e-6);
                }
            }
        }
    }
}

#[test]
fn recurrences_need_matching_inputs() {
    let f = |dims: &[usize]| info(dims, DType::F32);
    let count = apply_delta_rule(
        &f(&[3, 2, 4]),
        &f(&[3, 2, 4]),
        &f(&[3, 2, 5]),
        &f(&[3, 2]),
        &f(&[3, 2]),
    );
    assert_eq!(count.unwrap(), 30);
    assert!(apply_delta_rule(
        &f(&[3, 2, 4]),
        &f(&[3, 2, 4]),
        &f(&[3, 1, 5]),
        &f(&[3, 2]),
        &f(&[3, 2])
    )
    .is_err());
    assert_eq!(output_offset(2, 1, 2, 5), 25);
}

#[test]
fn layers_are_loaded_by_their_kind() {
    let config = sample_config();
    assert!(FullAttention::load(&config, 1, 2).is_ok());
    let Err(SystemOneError::Config(m)) = FullAttention::load(&config, 0, 2) else { panic!("kind") };
    assert_eq!(m, "layer 0 is not a full-attention layer");
    for rotary_dim in [0, 3, 10] {
        assert!(FullAttention::load(&config, 1, rotary_dim).is_err());
    }
    let net = GatedDeltaNet::load(&config, 0, &vec![32, 1, 4]).unwrap();
    let plan = net.plan();
    assert_eq!((plan.key_start, plan.value_start, plan.channels, plan.groups), (8, 16, 32, 2));
    let Err(SystemOneError::Config(m)) = GatedDeltaNet::load(&config, 0, &vec![31, 1, 4]) else {
        panic!("shape")
    };
    assert_eq!(m, "DeltaNet convolution dimensions do not match the text config");
    let Err(SystemOneError::Config(m)) = GatedDeltaNet::load(&config, 7, &vec![32, 1, 4]) else {
        panic!("kind")
    };
    assert_eq!(m, "layer 7 is not a linear-attention layer");
    let uses = layer_weights(1, LayerType::FullAttention);
    assert_eq!(uses[0].name, "model.language_model.layers.1.self_attn.q_proj.weight");
    assert!(uses[0].linear);
    assert_eq!(uses.len(), 11);
}

fn input(ids: &[u32], letters: &[char], letter_ids: &[u32]) -> CuaS1Input {
    CuaS1Input {
        chat_text: String::new(),
        input_ids: ids.to_vec(),
        letters: letters.to_vec(),
        letter_ids: letter_ids.to_vec(),
    }
}

#[test]
fn inputs_are_checked_before_they_are_run() {
    let config = TextConfig { vocab_size: 3, hidden_size: 2, ..sample_config() };
    let Ok(model) = TextModel::load(&config, &vec![3, 2]) else { panic!("loaded") };
    let readout = model.forward(&input(&[0, 1], &['B', 'A'], &[2, 1])).unwrap();
    assert_eq!((readout.ids, readout.row, readout.letter_ids), (vec![0, 1], 1, vec![2, 1]));
    assert!(model.forward(&input(&[0, 1], &['B'], &[2])).is_ok());
    for invalid in [
        input(&[], &['B', 'A'], &[2, 1]),
        input(&[3], &['B', 'A'], &[2, 1]),
        input(&[0, 1], &[], &[2, 1]),
        input(&[0, 1], &['B', 'A'], &[]),
        input(&[0, 1], &['B', 'A'], &[2, 3]),
        input(&[0, 1], &['A'; 27], &[1; 27]),
    ] {
        assert!(model.forward(&invalid).is_err());
    }
}

#[test]
fn a_prefix_serves_different_suffixes() {
    let model = sample_model();
    let ids = [1u32, 5, 9, 2, 14, 7, 3, 18, 6, 21, 12, 4];
    let letter_ids = [8u32, 2, 19, 5];
    for split in [1, 2, 3, 4, 7, 11] {
        let prefix = model.encode_prefix(&ids[..split]).unwrap();
        assert_eq!(prefix.token_count(), split);
        assert_eq!(prefix.layer_states, model.layers);
        for suffix in [&ids[split..], &[23, 17, 6][..], &ids[split..]] {
            let whole = [&ids[..split], suffix].concat();
            let once = model.forward(&input(&whole, &['A', 'B', 'C', 'D'], &letter_ids)).unwrap();
            let rest = model.score_suffix(&prefix, suffix, &letter_ids).unwrap();
            assert_eq!(once.ids, whole);
            assert_eq!(rest.ids, suffix);
            assert_eq!(once.row, split + rest.row);
            assert_eq!(once.letter_ids, rest.letter_ids);
        }
    }
}

#[test]
fn rejects_invalid_prefix_and_suffix_inputs() {
    let model = sample_model();
    assert!(model.encode_prefix(&[]).is_err());
    assert!(model.encode_prefix(&[32]).is_err());
    let prefix = model.encode_prefix(&[1, 2]).unwrap();
    for (suffix, letters) in [
        (&[][..], &[1][..]),
        (&[32][..], &[1][..]),
        (&[3][..], &[][..]),
        (&[3][..], &[32][..]),
        (&[3][..], &[1; 27][..]),
    ] {
        assert!(model.score_suffix(&prefix, suffix, letters).is_err());
    }
    assert!(model.score_suffix(&prefix, &[3], &[1]).is_ok());
    let mut incomplete = model.encode_prefix(&[1, 2]).unwrap();
    incomplete.layer_states.pop();
    let Err(SystemOneError::Config(m)) = model.score_suffix(&incomplete, &[3], &[1]) else {
        panic!("accepted")
    };
    assert_eq!(m, "prefix state must contain one state per decoder layer");
    let mut mismatched = model.encode_prefix(&[1, 2]).unwrap();
    mismatched.layer_states.swap(0, 1);
    let Err(SystemOneError::Candle(m)) = model.score_suffix(&mismatched, &[3], &[1]) else {
        panic!("accepted")
    };
    assert_eq!(m, "expected DeltaNet prefix state");
}

#[test]
fn decoders_need_tied_embeddings_of_their_size() {
    assert!(TextModel::load(&sample_config(), &vec![31, 16]).is_err());
    let untied = TextConfig { tie_word_embeddings: false, ..sample_config() };
    assert!(TextModel::check_config(&untied).is_err());
    let config = TextConfig { num_hidden_layers: 0, ..sample_config() };
    assert!(TextModel::load(&config, &vec![32, 16]).is_err());
}
