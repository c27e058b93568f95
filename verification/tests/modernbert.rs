use vs1::device::{DType, Device};
use vs1::head::{
    mask_unused, measured_options, pack_batch, read_outputs, ActionHead, HeadLayer, Scorer,
};
use vs1::modernbert::cache::LastUsedCache;
use vs1::modernbert::config::{
    split_rows, ClassifierConfig, ClassifierPooling, Config, ModernBert, ModernBertForMaskedLM,
    ModernBertForSequenceClassification,
};
use vs1::modernbert::forward::{
    apply_rotary_emb_packed, defer_sums, enter_layer, forward_varlen_fully_packed, forward_with_output,
    fuse_norm, layer_norm_no_bias_fused, LastNorm, LayerEntry, MlpPlan,
};
use vs1::modernbert::packing::{
    cumulative_seqlens, pack_varlen, packed_position_ids, unpack_varlen_bsd,
};
use vs1::modernbert::window::{
    effective_window, flash_compat_dtype, get_local_attention_mask, mask_value,
};
use vs1::score::{find_top_two, Double, Float};
use vs1::table::Table;
use vs1::tensor::{Span, TensorInfo};
use vs1::SystemOneError;

fn double(x: f64) -> Double {
    Double { bits: x.to_bits() }
}

fn config() -> Config {
    Config {
        vocab_size: 100,
        hidden_size: 16,
        num_hidden_layers: 4,
        num_attention_heads: 2,
        intermediate_size: 24,
        max_position_embeddings: 64,
        layer_norm_eps: double(1e-5),
        pad_token_id: 0,
        global_attn_every_n_layers: 3,
        global_rope_theta: double(160000.),
        local_attention: 8,
        local_rope_theta: double(10000.),
        classifier_config: None,
    }
}

fn tensor(device: Device, dims: &[usize], dtype: DType) -> TensorInfo {
    TensorInfo {
        dims: dims.to_vec(),
        strides: vec![1; dims.len()],
        contiguous: true,
        dtype,
        device,
        gpu: 0,
        device_id: 0,
        offset: 0,
    }
}

#[test]
fn encoders_fetch_their_weights_in_order() {
    let model = ModernBert::load(&config());
    assert_eq!(model.head_size, 8);
    assert_eq!(model.local, [false, true, true, false]);
    assert_eq!(model.weights.len(), 2 + 4 * 6 + 1);
    assert_eq!(model.weights[0].name, "embeddings.tok_embeddings.weight");
    assert_eq!(model.weights[0].dims, [100, 16]);
    assert_eq!(model.weights[2].name, "layers.0.attn.Wqkv.weight");
    assert_eq!(model.weights[2].dims, [48, 16]);
    assert_eq!(model.weights[4].dims, [48, 16]);
    assert!(model.weights[6].optional);
    assert_eq!(model.weights[26].name, "final_norm.weight");
    let names = |weights: Vec<vs1::modernbert::config::WeightShape>| -> Vec<String> {
        weights.into_iter().map(|w| w.name).collect()
    };
    assert_eq!(
        names(ModernBertForMaskedLM::load(&config()).weights),
        ["embeddings.tok_embeddings.weight", "decoder.bias", "head.dense.weight", "head.norm.weight"]
    );
    assert_eq!(
        names(ModernBertForSequenceClassification::load(&config()).weights),
        ["classifier.weight", "classifier.bias", "head.dense.weight", "head.norm.weight"]
    );
    assert_eq!(
        split_rows(16, 3),
        [
            Span { start: 0, end: 16 },
            Span { start: 16, end: 32 },
            Span { start: 32, end: 48 }
        ]
    );
}

#[test]
fn classifiers_pool_the_first_state_unless_told_otherwise() {
    assert_eq!(ClassifierPooling::default(), ClassifierPooling::CLS);
    assert_eq!(config().pooling(), ClassifierPooling::CLS);
    assert_eq!(config().classes(), 0);
    let mut id2label: Table<String> = Table::new();
    id2label.insert("0".to_string(), "no".to_string());
    id2label.insert("1".to_string(), "yes".to_string());
    let with = Config {
        classifier_config: Some(ClassifierConfig {
            id2label,
            label2id: Table::new(),
            classifier_pooling: ClassifierPooling::MEAN,
        }),
        ..config()
    };
    assert_eq!(with.pooling(), ClassifierPooling::MEAN);
    assert_eq!(with.classes(), 2);
    let whole = ModernBertForSequenceClassification::load(&with);
    assert_eq!(whole.weights[0].dims, [2, 16]);
    assert_eq!(whole.classifier_pooling, ClassifierPooling::MEAN);
    assert_eq!(whole.model.local, [false, true, true, false]);
}

#[test]
fn one_slot_keeps_what_was_used_last() {
    let mut cache: LastUsedCache<Vec<usize>, u32> = LastUsedCache::new();
    assert_eq!(cache.get_or_try_insert(&vec![1, 2], || Ok(7)).unwrap(), 7);
    assert_eq!(cache.get_or_try_insert(&vec![1, 2], || panic!("kept")).unwrap(), 7);
    let refused = cache.get_or_try_insert(&vec![3], || Err(SystemOneError::Io("no".to_string())));
    assert!(refused.is_err());
    assert_eq!(cache.get_or_try_insert(&vec![1, 2], || panic!("kept")).unwrap(), 7);
    assert_eq!(cache.get_or_try_insert(&vec![3], || Ok(8)).unwrap(), 8);
    assert_eq!(cache.get_or_try_insert(&vec![1, 2], || Ok(9)).unwrap(), 9);
    let mut by_length: LastUsedCache<usize, u32> = LastUsedCache::new();
    assert_eq!(by_length.get_or_try_insert(&5, || Ok(1)).unwrap(), 1);
    assert_eq!(by_length.get_or_try_insert(&5, || Ok(2)).unwrap(), 1);
}

#[test]
fn windows_and_masks_hide_the_same_pairs() {
    assert_eq!(effective_window(true, 5, 8), None);
    assert_eq!(effective_window(true, 6, 8), Some(4));
    assert_eq!(effective_window(false, 600, 8), None);
    for len in 1..12 {
        let mask = get_local_attention_mask(len, 4);
        let window = effective_window(true, len, 8);
        for i in 0..len {
            for j in 0..len {
                let hidden = window.is_some_and(|w| i.abs_diff(j) > w);
                assert_eq!(mask[i * len + j], hidden, "{len} {i} {j}");
            }
        }
    }
}

#[test]
fn masks_stay_finite_in_every_type() {
    assert_eq!(f64::from_bits(mask_value(DType::F16).bits), -65504.0);
    assert_eq!(f64::from_bits(mask_value(DType::BF16).bits), -1e38);
    assert_eq!(f64::from_bits(mask_value(DType::F32).bits), f32::MIN as f64);
    assert_eq!(flash_compat_dtype(DType::BF16), DType::BF16);
    assert_eq!(flash_compat_dtype(DType::F32), DType::F16);
    assert!(layer_norm_no_bias_fused(Device::Cuda));
    assert!(!layer_norm_no_bias_fused(Device::Cpu));
}

#[test]
fn packed_sequences_are_found_again() {
    let lens = vec![2, 3, 1];
    let sums = cumulative_seqlens(&lens);
    assert_eq!(sums.starts, [0, 2, 5, 6]);
    assert_eq!(sums.longest, 3);
    assert_eq!(cumulative_seqlens(&vec![]).longest, 1);
    assert_eq!(packed_position_ids(&lens), [0, 1, 0, 1, 2, 0]);
    let rows = pack_varlen(&lens, 3, 4).unwrap();
    assert_eq!(rows[1], Span { start: 4, end: 7 });
    let back = unpack_varlen_bsd(&lens, 3);
    assert_eq!(back[0].rows, Span { start: 0, end: 2 });
    assert_eq!(back[0].padding, 1);
    assert_eq!(back[2].rows, Span { start: 5, end: 6 });
    assert_eq!(back[1].padding, 0);
    assert!(pack_varlen(&lens, 3, 2).is_none());
    assert!(pack_varlen(&lens, 2, 4).is_none());
    assert!(pack_varlen(&vec![], 2, 4).is_none());
    assert_eq!(pack_varlen(&vec![0], 1, 4).unwrap(), [Span { start: 0, end: 1 }]);
}

#[test]
fn passes_over_packed_sequences_have_a_window_per_layer() {
    let model = ModernBert::load(&config());
    let pass = model.forward_varlen_packed(&vec![9, 2], 2, 9).unwrap();
    assert_eq!(pass.windows, [None, Some(4), Some(4), None]);
    assert_eq!(pass.lens.starts, [0, 9, 11]);
    assert_eq!(pass.positions.len(), 11);
    let short = model.forward_varlen_packed(&vec![5, 2], 2, 9).unwrap();
    assert_eq!(short.windows, [None; 4]);
    assert!(model.forward_varlen_packed(&vec![10], 1, 9).is_none());
    assert_eq!(model.forward_unmasked(6), [None, Some(4), Some(4), None]);
    assert_eq!(model.forward_varlen_padded(&vec![3, 1])[1].padding, 2);
}

#[test]
fn long_padded_queries_are_refused() {
    let model = ModernBert::load(&config());
    let pass = model.forward_query_varlen(&vec![2, 5], &vec![3, 5]).unwrap().unwrap();
    assert_eq!(pass.queries.starts, [0, 5, 10]);
    assert_eq!(pass.keys.starts, [0, 3, 8]);
    assert_eq!(pass.key_rows[1], Span { start: 5, end: 10 });
    let Err(SystemOneError::Candle(m)) = model.forward_query_varlen(&vec![2, 6], &vec![3, 6]) else {
        panic!("refused")
    };
    assert_eq!(
        m,
        "queries longer than 5 tokens with expansion padding must use the masked path"
    );
    let full = model.forward_query_varlen(&vec![2, 6], &vec![6, 6]).unwrap().unwrap();
    assert_eq!(full.windows[1], Some(4));
    assert!(model.forward_query_varlen(&vec![2], &vec![1]).is_err());
    assert!(model.forward_query_varlen(&vec![1, 2], &vec![3]).unwrap().is_none());
    let bare = ModernBert::load(&Config { num_hidden_layers: 0, ..config() });
    let pass = bare.forward_query_varlen(&vec![1, 2], &vec![3]).unwrap().unwrap();
    assert!(pass.key_rows.is_empty() && pass.windows.is_empty());
    assert_eq!(pass.keys.starts, [0, 3]);
}

#[test]
fn sums_wait_for_the_next_norm_on_cuda() {
    let packed = tensor(Device::Cuda, &[7, 1024], DType::BF16);
    assert_eq!(defer_sums(&packed, 2), (true, LastNorm::Fused));
    assert_eq!(defer_sums(&packed, 0), (true, LastNorm::Plain));
    let cpu = tensor(Device::Cpu, &[7, 1024], DType::BF16);
    assert_eq!(defer_sums(&cpu, 2), (false, LastNorm::Plain));
    assert_eq!(enter_layer(true, true), LayerEntry::Fused);
    assert_eq!(enter_layer(true, false), LayerEntry::Summed { norm: false });
    assert_eq!(enter_layer(false, true), LayerEntry::Taken { norm: true });
    assert!(fuse_norm(&packed, &packed).unwrap());
    assert!(!fuse_norm(&cpu, &cpu).unwrap());
    assert!(fuse_norm(&tensor(Device::Cuda, &[7], DType::BF16), &packed).is_err());
}

#[test]
fn kernels_are_chosen_by_device_type_and_size() {
    let large = tensor(Device::Cuda, &[2048, 1024], DType::BF16);
    let small = tensor(Device::Cuda, &[12, 1024], DType::BF16);
    let cpu = tensor(Device::Cpu, &[2048, 1024], DType::F32);
    assert_eq!(forward_with_output(&large, false, true), MlpPlan::Parallel);
    assert_eq!(forward_with_output(&large, false, false), MlpPlan::Gated);
    assert_eq!(forward_with_output(&small, false, true), MlpPlan::Gated);
    assert_eq!(forward_with_output(&cpu, false, true), MlpPlan::Plain);
    let plan = forward_varlen_fully_packed(&large, 16, 64, false, true).unwrap();
    assert!(plan.parallel);
    assert_eq!((plan.tokens, plan.heads, plan.head_size, plan.dtype), (2048, 16, 64, DType::BF16));
    assert!(!forward_varlen_fully_packed(&small, 16, 64, false, true).unwrap().parallel);
    let q = tensor(Device::Cuda, &[7, 3, 80], DType::BF16);
    assert!(apply_rotary_emb_packed(&q, &q));
    assert!(!apply_rotary_emb_packed(&tensor(Device::Cuda, &[7, 3, 81], DType::BF16), &q));
}

#[test]
fn decision_heads_have_one_head_for_every_64() {
    let layer = HeadLayer::load(1024);
    assert_eq!((layer.num_heads, layer.head_dim), (16, 64));
    assert_eq!(layer.weights[0].name, "self_attn.in_proj_weight");
    assert_eq!(layer.weights[0].dims, [3072, 1024]);
    assert_eq!(layer.weights.len(), 12);
    let narrow = HeadLayer::load(32);
    assert_eq!((narrow.num_heads, narrow.head_dim), (1, 32));
    assert_eq!(
        narrow.parts,
        [Span { start: 0, end: 32 }, Span { start: 32, end: 64 }, Span { start: 64, end: 96 }]
    );
    let states = tensor(Device::Cuda, &[7, 1024], DType::F32);
    let pass = layer.forward_packed(&states).unwrap();
    assert_eq!((pass.heads, pass.joined), ((7, 16, 64), (7, 1024)));
    assert_eq!(pass.dtype, DType::F16);
    assert!(layer.forward_packed(&tensor(Device::Cuda, &[1, 7, 1024], DType::BF16)).is_err());
    assert_eq!(Scorer::load(8).weights[4].dims, [1, 8]);
    assert_eq!(ActionHead::load(8, 2).weights[0].dims, [256, 12]);
}

#[test]
fn slots_without_an_option_weigh_nothing() {
    let bits = |x: f32| Float { bits: x.to_bits() };
    let masked = mask_unused(&vec![bits(2.), bits(0.), bits(5.), bits(5.)], 2);
    assert_eq!(masked, [bits(2.), bits(0.), bits(-1e4), bits(-1e4)]);
    let values = vec![bits(0.25), bits(-0.), bits(0.5), bits(0.5), bits(0.)];
    assert_eq!(find_top_two(&values), (bits(0.5), bits(0.5)));
    assert_eq!(find_top_two(&vec![bits(-0.), bits(0.)]), (bits(0.), bits(-0.)));
    assert_eq!(find_top_two(&vec![bits(-2.), bits(-1.), bits(-3.)]), (bits(-1.), bits(-2.)));
    assert_eq!(find_top_two(&vec![bits(0.75)]), (bits(0.75), bits(0.)));
    assert_eq!(find_top_two(&vec![]), (bits(0.), bits(0.)));
    assert_eq!(measured_options(1), 2);
    assert_eq!(measured_options(7), 7);
}

#[test]
fn batches_know_where_their_markers_are() {
    let batch = pack_batch(&vec![0, 2], &vec![3, 4], &vec![1, 2, 0, 3], 2);
    assert_eq!(batch.kinds, [0, 0, 0, 2, 2, 2, 2]);
    assert_eq!(batch.offsets, [0, 3]);
    assert_eq!(batch.markers, [1, 2, 3, 6]);
    let none = pack_batch(&vec![1], &vec![2], &vec![], 0);
    assert!(none.markers.is_empty());
    let bits = |x: f32| Float { bits: x.to_bits() };
    let outputs = read_outputs(
        &vec![vec![bits(1.), bits(2.), bits(3.)], vec![bits(4.), bits(5.), bits(6.)]],
        &vec![2, 3],
        &vec![vec![bits(0.25), bits(0.75)], vec![]],
    );
    assert_eq!(outputs[0].logits, [bits(1.), bits(2.)]);
    assert_eq!(outputs[0].act_probability, bits(0.25));
    assert_eq!(outputs[1].logits.len(), 3);
    assert_eq!(outputs[1].act_probability, bits(0.));
}
