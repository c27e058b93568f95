use vs1::backend::{Fit, SystemOne, Work};
use vs1::cli::{choose_model, device, parse_arguments, Arguments, Built, Wanted};
use vs1::device::{DType, Device};
use vs1::{DecisionModel, JevStats, SystemOneRequest};

const PLAIN: Built = Built { cuda: false, metal: false };

fn said(args: &[&str]) -> Result<Arguments, String> {
    parse_arguments(&args.iter().map(|a| a.to_string()).collect())
}

fn wanted(args: &[&str], built: Built) -> Result<Wanted, String> {
    choose_model(&said(args).unwrap(), built)
}

#[test]
fn arguments_are_taken_in_any_order() {
    let a = said(&[
        "--device", "cuda", "request.json", "--dump-ids", "--model", "m", "--dtype", "bf16",
        "--batch-size", "+7", "--backend", "openjev", "--subfolder", "x",
    ])
    .unwrap();
    assert_eq!(a.path.as_deref(), Some("request.json"));
    assert!(a.dump_ids);
    assert_eq!(a.model_id.as_deref(), Some("m"));
    assert_eq!(a.backend, "openjev");
    assert_eq!(a.subfolder, "x");
    assert_eq!(a.device_name, "cuda");
    assert_eq!(a.dtype, Some(DType::BF16));
    assert_eq!(a.batch_size, Some(7));
    assert_eq!(a.max_len, None);
    let a = said(&["r.json"]).unwrap();
    assert_eq!((a.backend.as_str(), a.device_name.as_str(), a.dump_ids), ("laya", "cpu", false));
}

#[test]
fn arguments_that_make_no_sense_are_refused() {
    let refused = |args: &[&str]| said(args).unwrap_err();
    assert_eq!(
        refused(&["--backend"]),
        "--backend needs laya, openjev, gliner-decide, cua-s1 or jev"
    );
    for flag in ["--model", "--subfolder", "--device", "--batch-size", "--max-len"] {
        assert_eq!(refused(&["r", flag]), format!("{flag} needs a value"));
    }
    assert_eq!(refused(&["--dtype"]), "unknown dtype None");
    assert_eq!(refused(&["--dtype", "f64"]), "unknown dtype Some(\"f64\")");
    assert_eq!(refused(&["--batch-size", "many"]), "invalid digit found in string");
    assert_eq!(refused(&["--max-len", ""]), "cannot parse integer from empty string");
    assert_eq!(
        refused(&["--max-len", "99999999999999999999"]),
        "number too large to fit in target type"
    );
    assert_eq!(refused(&["--max-len", ""]), "cannot parse integer from empty string");
    assert_eq!(refused(&["a", "b\"c"]), "unexpected argument \"b\\\"c\"");
    assert!(refused(&[]).starts_with("usage: vs1 "));
    assert_eq!(
        refused(&["r", "--max-len", "5"]),
        "--max-len is supported only for --backend cua-s1 and gliner-decide"
    );
    assert_eq!(said(&["r", "--backend", "cua-s1", "--max-len", "5"]).unwrap().max_len, Some(5));
}

#[test]
fn devices_depend_on_what_was_built() {
    assert_eq!(device("cpu", PLAIN), Ok(Device::Cpu));
    assert_eq!(device("cuda", Built { cuda: true, metal: false }), Ok(Device::Cuda));
    assert_eq!(device("metal", Built { cuda: false, metal: true }), Ok(Device::Metal));
    assert_eq!(device("cuda", PLAIN).unwrap_err(), "unknown or unsupported device \"cuda\"");
    assert_eq!(device("tpu", PLAIN).unwrap_err(), "unknown or unsupported device \"tpu\"");
}

#[test]
fn jev_cli_requires_credentials_and_rejects_local_token_dump() {
    for dump in [false, true] {
        let mut args = vec!["--backend", "jev", "--model", "jev-1.13.0"];
        if dump {
            args.push("--dump-ids");
        }
        args.push("request.json");
        match wanted(&args, PLAIN) {
            Ok(Wanted::Jev { model, concurrency }) => {
                assert!(!dump);
                assert_eq!((model.as_str(), concurrency), ("jev-1.13.0", 16));
            }
            Err(error) => {
                assert!(dump);
                assert!(error.contains("local-only"), "{error}");
            }
            _ => panic!("hosted"),
        }
    }
}

#[test]
fn every_backend_is_set_up_as_it_was_asked_for() {
    let Ok(Wanted::OpenJev(b)) = wanted(&["r", "--backend", "openjev", "--dtype", "f32"], PLAIN) else {
        panic!("openjev")
    };
    assert_eq!(b.repo, "heman10x/rlcd-modernbert-151m");
    assert_eq!((b.dtype, b.batch_size, b.max_len), (Some(DType::F32), 16, 512));
    let Ok(Wanted::GlinerDecide(b)) =
        wanted(&["r", "--backend", "gliner-decide", "--max-len", "99", "--batch-size", "3"], PLAIN)
    else {
        panic!("gliner")
    };
    assert_eq!((b.batch_size, b.max_len, b.device), (3, 99, Device::Cpu));
    let Ok(Wanted::CuaS1(b)) =
        wanted(&["r", "--backend", "cua-s1", "--max-len", "99", "--model", "x/y"], PLAIN)
    else {
        panic!("cua")
    };
    assert_eq!((b.adapter_repo.as_str(), b.max_len), ("x/y", Some(99)));
    let Ok(Wanted::Laya { repo, subfolder, batch_size, .. }) =
        wanted(&["r", "--subfolder", "s", "--batch-size", "4"], PLAIN)
    else {
        panic!("laya")
    };
    assert_eq!(
        (repo.as_str(), subfolder.as_str(), batch_size),
        ("convaiinnovations/laya", "s", Some(4))
    );
}

#[test]
fn settings_that_a_backend_has_no_use_for_are_refused() {
    let refused = |args: &[&str]| wanted(args, PLAIN).unwrap_err();
    assert_eq!(
        refused(&["r", "--backend", "openjev", "--subfolder", "s"]),
        "OpenJev does not use --subfolder"
    );
    assert_eq!(
        refused(&["r", "--backend", "gliner-decide", "--subfolder", "s"]),
        "GLiNER2.5-Decide does not use --subfolder"
    );
    for extra in [&["--dump-ids"][..], &["--subfolder", "s"], &["--batch-size", "2"]] {
        let args = [&["r", "--backend", "cua-s1"][..], extra].concat();
        assert_eq!(
            refused(&args),
            "Cua-S1 does not use --dump-ids, --subfolder or --batch-size"
        );
    }
    assert_eq!(
        refused(&["r", "--backend", "other"]),
        "--backend must be laya, openjev, gliner-decide, cua-s1 or jev"
    );
    assert_eq!(refused(&["r", "--device", "tpu"]), "unknown or unsupported device \"tpu\"");
}

#[test]
fn a_local_model_is_handed_out() {
    let laya = SystemOne { name: "laya".to_string(), max_len: 512 };
    let model: DecisionModel = laya.into();
    assert_eq!(model.model_name(), "laya");
    assert_eq!(model.context_tokens(), 512);
    assert_eq!(model.local().unwrap().name, "laya");
    let request = SystemOneRequest::new("s");
    assert_eq!(model.request_fits(&request).unwrap(), Fit::AskModel);
    let mut stats = JevStats::zero();
    assert!(matches!(model.system_one(&request, &mut stats), Ok(Work::Laya)));
    assert_eq!(stats, JevStats::zero());
}
