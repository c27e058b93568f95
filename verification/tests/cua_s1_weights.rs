use candle_core::{Device, Tensor};
use vs1::cua_s1::config::{LayerType, TextConfig};
use vs1::cua_s1::lora::{read_part, LoraAdapter, LoraConfig, LoraTensor};
use vs1::cua_s1::weights::{TextWeights, WeightPlace};
use vs1::device::DType;
use vs1::score::Double;
use vs1::SystemOneError;

const MODULE: &str = "base_model.model.model.layers.3.self_attn.q_proj";
const BASE: &str = "model.language_model.layers.3.self_attn.q_proj.weight";

fn double(x: f64) -> Double {
    Double { bits: x.to_bits() }
}

fn lora_config() -> LoraConfig {
    LoraConfig {
        peft_type: "LORA".to_string(),
        r: 2,
        lora_alpha: double(3.),
        bias: "none".to_string(),
        use_dora: false,
        use_rslora: false,
        lora_bias: false,
        fan_in_fan_out: false,
        use_qalora: false,
        rank_pattern: false,
        alpha_pattern: false,
        modules_to_save: false,
        layer_replication: false,
        alora_invocation_tokens: false,
        target_parameters: false,
        trainable_token_indices: false,
    }
}

fn tensor(name: String, dims: &[usize]) -> LoraTensor {
    LoraTensor { name, dims: dims.to_vec(), is_float: true }
}

fn adapter(a: &[usize], b: &[usize]) -> Result<LoraAdapter, SystemOneError> {
    LoraAdapter::from_tensors(
        &lora_config(),
        &vec![
            tensor(format!("{MODULE}.lora_A.weight"), a),
            tensor(format!("{MODULE}.lora_B.weight"), b),
        ],
    )
}

fn refused<T>(result: Result<T, SystemOneError>) -> String {
    match result {
        Ok(_) => panic!("expected a refusal"),
        Err(e) => e.message(),
    }
}

#[test]
fn unused_modules_and_base_shape_mismatch() {
    let Ok(mut adapter) = adapter(&[2, 3], &[4, 2]) else { panic!("an adapter") };
    let error = refused(adapter.check_all_used());
    assert!(error.contains("unused LoRA modules (1)"), "{error}");
    assert!(error.contains(BASE), "{error}");
    for shape in [vec![3, 4], vec![1, 4, 3]] {
        let error = refused(adapter.merge(BASE, &shape, true));
        assert!(error.contains("shape mismatch"), "{error}");
        assert!(adapter.check_all_used().is_err());
    }
    assert!(adapter.merge(BASE, &vec![4, 3], true).is_ok());
    assert!(adapter.check_all_used().is_err());
    adapter.merged(BASE);
    assert!(adapter.check_all_used().is_ok());
}

#[test]
fn merge_matches_naive_f32() {
    let a = [[1f32, -2., 0.5], [3., 0.25, -1.]];
    let b = [[2f32, 1.], [-1., 4.], [0.5, -2.], [3., 0.25]];
    let w = [[0.5f32, 1., -1.], [2., -3., 4.], [1., 0., 2.], [-2., 1., 0.]];
    for dtype in [candle_core::DType::F32, candle_core::DType::BF16] {
        let tensors = [
            Tensor::new(&a, &Device::Cpu).unwrap().to_dtype(dtype).unwrap(),
            Tensor::new(&b, &Device::Cpu).unwrap().to_dtype(dtype).unwrap(),
        ];
        let base = Tensor::new(&w, &Device::Cpu).unwrap().to_dtype(dtype).unwrap();
        let Ok(mut adapter) = adapter(tensors[0].dims(), tensors[1].dims()) else {
            panic!("an adapter")
        };
        assert_eq!(adapter.module_count(), 1);
        let dims = base.dims().to_vec();
        let unchanged = adapter.merge("model.language_model.embed_tokens.weight", &dims, true);
        assert!(matches!(unchanged, Ok(None)));
        let Ok(Some(module)) = adapter.merge(BASE, &dims, true) else { panic!("a change") };
        assert_eq!((module.rows, module.columns), (4, 3));
        let widen = |t: &Tensor| t.to_dtype(candle_core::DType::F32).unwrap();
        let delta = widen(&tensors[module.b]).matmul(&widen(&tensors[module.a])).unwrap();
        let scale = f64::from_bits(lora_config().lora_alpha.bits) / lora_config().r as f64;
        let merged = (widen(&base) + (delta * scale).unwrap()).unwrap();
        adapter.merged(BASE);
        assert_eq!(merged.dtype(), candle_core::DType::F32);
        let actual = merged.to_vec2::<f32>().unwrap();
        for i in 0..4 {
            for j in 0..3 {
                let delta: f32 = (0..2).map(|k| b[i][k] * a[k][j]).sum();
                assert_eq!(actual[i][j], w[i][j] + 1.5 * delta);
            }
        }
        assert_eq!(widen(&base).to_vec2::<f32>().unwrap(), w);
        assert!(adapter.check_all_used().is_ok());
    }
}

#[test]
fn rejects_malformed_tensors() {
    for (a, b) in [
        (vec![1, 3], vec![4, 2]),
        (vec![2, 3], vec![4, 1]),
        (vec![2, 3], vec![4, 2, 1]),
        (vec![2], vec![4, 2]),
    ] {
        let error = refused(adapter(&a, &b));
        assert!(error.contains("shape mismatch"), "{error}");
    }
    for suffix in ["lora_A.weight", "lora_B.weight", "lora_A.bias"] {
        let tensors = vec![tensor(format!("{MODULE}.{suffix}"), &[2, 3])];
        assert!(LoraAdapter::from_tensors(&lora_config(), &tensors).is_err());
    }
    assert!(LoraAdapter::from_tensors(&lora_config(), &vec![]).is_err());
}

#[test]
fn rejects_unsupported_config() {
    assert!(lora_config().check().is_ok());
    let settings: Vec<(&str, LoraConfig)> = vec![
        ("peft_type", LoraConfig { peft_type: "IA3".to_string(), ..lora_config() }),
        ("bias", LoraConfig { bias: "all".to_string(), ..lora_config() }),
        ("bias", LoraConfig { bias: "lora_only".to_string(), ..lora_config() }),
        ("use_dora", LoraConfig { use_dora: true, ..lora_config() }),
        ("use_rslora", LoraConfig { use_rslora: true, ..lora_config() }),
        ("lora_bias", LoraConfig { lora_bias: true, ..lora_config() }),
        ("fan_in_fan_out", LoraConfig { fan_in_fan_out: true, ..lora_config() }),
        ("use_qalora", LoraConfig { use_qalora: true, ..lora_config() }),
        ("rank_pattern", LoraConfig { rank_pattern: true, ..lora_config() }),
        ("alpha_pattern", LoraConfig { alpha_pattern: true, ..lora_config() }),
        ("modules_to_save", LoraConfig { modules_to_save: true, ..lora_config() }),
        ("layer_replication", LoraConfig { layer_replication: true, ..lora_config() }),
        ("alora_invocation_tokens", LoraConfig { alora_invocation_tokens: true, ..lora_config() }),
        ("target_parameters", LoraConfig { target_parameters: true, ..lora_config() }),
        ("trainable_token_indices", LoraConfig { trainable_token_indices: true, ..lora_config() }),
        ("r", LoraConfig { r: 0, ..lora_config() }),
    ];
    for (setting, config) in settings {
        let Err(SystemOneError::Config(error)) = config.check() else { panic!("{setting}") };
        assert!(error.contains(setting), "{setting}: {error}");
    }
}

#[test]
fn names_of_adapter_tensors_lead_to_base_weights() {
    let (name, first) = read_part(&format!("{MODULE}.lora_A.weight")).unwrap();
    assert_eq!(name, BASE);
    assert!(first);
    let (name, first) = read_part(&format!("{MODULE}.lora_B.weight")).unwrap();
    assert_eq!(name, BASE);
    assert!(!first);
    assert!(read_part("other.lora_A.weight").is_none());
}

fn text_config() -> TextConfig {
    TextConfig {
        hidden_size: 2560,
        intermediate_size: 9216,
        num_hidden_layers: 32,
        layer_types: (0..32)
            .map(|layer| {
                if layer % 4 == 3 {
                    LayerType::FullAttention
                } else {
                    LayerType::LinearAttention
                }
            })
            .collect(),
        num_attention_heads: 16,
        num_key_value_heads: 4,
        head_dim: 256,
        rms_norm_eps: double(1e-6),
        vocab_size: 248320,
        tie_word_embeddings: true,
        attn_output_gate: true,
        linear_num_key_heads: 16,
        linear_num_value_heads: 32,
        linear_key_head_dim: 128,
        linear_value_head_dim: 128,
        linear_conv_kernel_dim: 4,
        rope_theta: double(10_000_000.),
        partial_rotary_factor: double(0.25),
    }
}

#[test]
fn pinned_text_config() {
    let Ok(config) = text_config().check(true) else { panic!("accepted") };
    assert_eq!(config.num_hidden_layers, 32);
    assert_eq!(config.layer_types.len(), 32);
    assert_eq!(config.hidden_size, 2560);
    assert_eq!(config.intermediate_size, 9216);
    assert_eq!(config.num_attention_heads, 16);
    assert_eq!(config.num_key_value_heads, 4);
    assert_eq!(config.head_dim, 256);
    assert_eq!(f64::from_bits(config.rms_norm_eps.bits), 1e-6);
    assert_eq!(config.vocab_size, 248320);
    assert!(config.tie_word_embeddings);
    assert!(config.attn_output_gate);
    assert_eq!(config.linear_num_key_heads, 16);
    assert_eq!(config.linear_num_value_heads, 32);
    assert_eq!(config.linear_key_head_dim, 128);
    assert_eq!(config.linear_value_head_dim, 128);
    assert_eq!(config.linear_conv_kernel_dim, 4);
    assert_eq!(f64::from_bits(config.rope_theta().bits), 10_000_000.0);
    assert_eq!(f64::from_bits(config.partial_rotary_factor().bits), 0.25);
    for (layer, kind) in config.layer_types.iter().enumerate() {
        let expected =
            if layer % 4 == 3 { LayerType::FullAttention } else { LayerType::LinearAttention };
        assert_eq!(*kind, expected, "layer {layer}");
    }
}

#[test]
fn rejects_unsupported_text_config() {
    let cases: Vec<(TextConfig, bool, &str)> = vec![
        (TextConfig { num_hidden_layers: 31, ..text_config() }, true, "layer_types"),
        (TextConfig { attn_output_gate: false, ..text_config() }, true, "attn_output_gate"),
        (TextConfig { tie_word_embeddings: false, ..text_config() }, true, "tie_word_embeddings"),
        (text_config(), false, "tie_word_embeddings"),
        (TextConfig { num_attention_heads: 15, ..text_config() }, true, "num_attention_heads"),
        (TextConfig { num_attention_heads: 0, ..text_config() }, true, "num_attention_heads"),
        (TextConfig { num_key_value_heads: 0, ..text_config() }, true, "num_key_value_heads"),
        (TextConfig { linear_num_value_heads: 31, ..text_config() }, true, "linear_num_value_heads"),
        (TextConfig { linear_num_value_heads: 0, ..text_config() }, true, "linear_num_value_heads"),
        (TextConfig { linear_num_key_heads: 0, ..text_config() }, true, "linear_num_key_heads"),
    ];
    for (config, tied, message) in cases {
        let Err(SystemOneError::Config(error)) = config.check(tied) else { panic!("{message}") };
        assert!(error.contains(message), "{message}: {error}");
    }
}

const NORM: &str = "model.language_model.norm.weight";
const IN_PROJ_QKV: &str = "model.language_model.layers.0.linear_attn.in_proj_qkv.weight";

#[test]
fn only_indexed_text_weights_are_loaded() {
    let place = |name: &str, file: &str| WeightPlace {
        name: name.to_string(),
        file: file.to_string(),
    };
    let map = vec![
        place(NORM, "first.safetensors"),
        place(BASE, "second.safetensors"),
        place(IN_PROJ_QKV, "second.safetensors"),
        place("model.visual.norm.weight", "first.safetensors"),
        place("mtp.norm.weight", "first.safetensors"),
        place("model.visual.other.weight", "absent.safetensors"),
        place("mtp.other.weight", "absent.safetensors"),
    ];
    for dtype in [DType::F32, DType::BF16] {
        for adapted in [false, true] {
            let changes = if adapted {
                let config = LoraConfig { r: 1, lora_alpha: double(2.), ..lora_config() };
                let tensors = vec![
                    tensor(format!("{MODULE}.lora_A.weight"), &[1, 2]),
                    tensor(format!("{MODULE}.lora_B.weight"), &[2, 1]),
                ];
                LoraAdapter::from_tensors(&config, &tensors).ok()
            } else {
                None
            };
            assert_eq!(changes.is_some(), adapted);
            let Ok(mut weights) = TextWeights::load(&map, changes, dtype) else { panic!("loaded") };
            assert_eq!(weights.index.shards.len(), 2);
            assert_eq!(weights.index.shards.key(0), "first.safetensors");
            assert_eq!(weights.dtype, dtype);
            assert!(weights.tensor(NORM).is_ok());
            for name in [
                "model.visual.norm.weight",
                "mtp.norm.weight",
                "model.language_model.unindexed.weight",
                "model.language_model.missing.weight",
            ] {
                assert!(weights.tensor(name).is_err(), "{name}");
                assert!(weights.linear_weight(name, &vec![2, 2], true).is_err(), "{name}");
            }
            assert!(weights.tensor(BASE).is_ok());
            assert!(matches!(weights.linear_weight(IN_PROJ_QKV, &vec![2, 2], true), Ok(None)));
            if adapted {
                assert!(refused(weights.check_all_used()).contains(BASE));
            } else {
                assert!(weights.check_all_used().is_ok());
            }
            let merged = weights.linear_weight(BASE, &vec![2, 2], true);
            assert!(matches!(merged, Ok(change) if change.is_some() == adapted));
            assert_eq!(weights.check_all_used().is_err(), adapted);
            weights.merged(NORM);
            assert_eq!(weights.check_all_used().is_err(), adapted);
            weights.merged(BASE);
            assert!(weights.check_all_used().is_ok());
        }
    }
    assert!(TextWeights::load(&map, None, DType::U32).is_err());
    assert!(TextWeights::load(&vec![], None, DType::F32).is_err());
}
