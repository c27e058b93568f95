//! What a command line comes to.
use crate::cli::{
    complaint, count_of, device_of, dtype_of, meets, refusal, said_by, unsaid, with_value,
    ArgumentsView, Built, Wanted,
};
use crate::device::{DType, Device};
use crate::jev_laws::{digits_of, is_whole, whole_numbers_are_read_as_written};
use crate::text_laws::value_of;
use vstd::prelude::*;

verus! {

/// Before anything is said, the local model is asked for, on the CPU, with its
/// own settings.
pub proof fn nothing_said_asks_for_the_local_model()
    ensures
        unsaid().path is None,
        !unsaid().dump_ids,
        unsaid().model_id is None,
        unsaid().backend == "laya"@,
        unsaid().subfolder.len() == 0,
        unsaid().device_name == "cpu"@,
        unsaid().dtype is None,
        unsaid().batch_size is None,
        unsaid().max_len is None,
{
    reveal_strlit("");
}

/// An argument sets what it is called for to its value, and nothing else.
pub proof fn arguments_set_what_they_are_called_for(said: ArgumentsView, value: Seq<char>)
    ensures
        with_value(said, "--backend"@, value) == Ok::<ArgumentsView, Seq<char>>(
            ArgumentsView { backend: value, ..said },
        ),
        with_value(said, "--model"@, value) == Ok::<ArgumentsView, Seq<char>>(
            ArgumentsView { model_id: Some(value), ..said },
        ),
        with_value(said, "--subfolder"@, value) == Ok::<ArgumentsView, Seq<char>>(
            ArgumentsView { subfolder: value, ..said },
        ),
        with_value(said, "--device"@, value) == Ok::<ArgumentsView, Seq<char>>(
            ArgumentsView { device_name: value, ..said },
        ),
        with_value(said, "--dtype"@, "f32"@) == Ok::<ArgumentsView, Seq<char>>(
            ArgumentsView { dtype: Some(DType::F32), ..said },
        ),
        with_value(said, "--dtype"@, "bf16"@) == Ok::<ArgumentsView, Seq<char>>(
            ArgumentsView { dtype: Some(DType::BF16), ..said },
        ),
        with_value(said, "--dtype"@, "f16"@) == Ok::<ArgumentsView, Seq<char>>(
            ArgumentsView { dtype: Some(DType::F16), ..said },
        ),
        value != "f32"@ && value != "bf16"@ && value != "f16"@ ==> with_value(
            said,
            "--dtype"@,
            value,
        ) is Err,
        is_whole(value) && value_of(digits_of(value)) <= usize::MAX ==> with_value(
            said,
            "--batch-size"@,
            value,
        ) == Ok::<ArgumentsView, Seq<char>>(
            ArgumentsView { batch_size: Some(value_of(digits_of(value)) as usize), ..said },
        ) && with_value(said, "--max-len"@, value) == Ok::<ArgumentsView, Seq<char>>(
            ArgumentsView { max_len: Some(value_of(digits_of(value)) as usize), ..said },
        ),
        !is_whole(value) || value_of(digits_of(value)) > usize::MAX ==> with_value(
            said,
            "--batch-size"@,
            value,
        ) is Err && with_value(said, "--max-len"@, value) is Err,
{
    names_differ();
    whole_numbers_are_read_as_written(value);
}

proof fn names_differ()
    ensures
        "--backend"@ != "--model"@,
        "--backend"@ != "--subfolder"@,
        "--backend"@ != "--device"@,
        "--backend"@ != "--dtype"@,
        "--backend"@ != "--batch-size"@,
        "--backend"@ != "--max-len"@,
        "--model"@ != "--subfolder"@,
        "--model"@ != "--device"@,
        "--model"@ != "--dtype"@,
        "--model"@ != "--batch-size"@,
        "--model"@ != "--max-len"@,
        "--subfolder"@ != "--device"@,
        "--subfolder"@ != "--dtype"@,
        "--subfolder"@ != "--batch-size"@,
        "--subfolder"@ != "--max-len"@,
        "--device"@ != "--dtype"@,
        "--device"@ != "--batch-size"@,
        "--device"@ != "--max-len"@,
        "--dtype"@ != "--batch-size"@,
        "--dtype"@ != "--max-len"@,
        "--batch-size"@ != "--max-len"@,
        "--dump-ids"@ != "--backend"@,
        "--dump-ids"@ != "--model"@,
        "--dump-ids"@ != "--subfolder"@,
        "--dump-ids"@ != "--device"@,
        "--dump-ids"@ != "--dtype"@,
        "--dump-ids"@ != "--batch-size"@,
        "--dump-ids"@ != "--max-len"@,
        "f32"@ != "bf16"@,
        "f32"@ != "f16"@,
        "bf16"@ != "f16"@,
{
    reveal_strlit("--dump-ids");
    reveal_strlit("--backend");
    reveal_strlit("--model");
    reveal_strlit("--subfolder");
    reveal_strlit("--device");
    reveal_strlit("--dtype");
    reveal_strlit("--batch-size");
    reveal_strlit("--max-len");
    reveal_strlit("f32");
    reveal_strlit("bf16");
    reveal_strlit("f16");
    assert("--backend"@[2] == 'b' && "--model"@[2] == 'm' && "--subfolder"@[2] == 's');
    assert("--device"@[2] == 'd' && "--dtype"@[2] == 'd' && "--device"@[3] == 'e' && "--dtype"@[3]
        == 't');
    assert("--batch-size"@[2] == 'b' && "--batch-size"@[4] == 't' && "--backend"@[4] == 'c');
    assert("--max-len"@[2] == 'm' && "--max-len"@[3] == 'a' && "--model"@[3] == 'o');
    assert("--dump-ids"@[2] == 'd' && "--dump-ids"@[3] == 'u');
    assert("f32"@[1] == '3' && "f16"@[1] == '1');
}

/// A flag, an argument with its value, and the path of the request are read
/// one after the other; only one path may be named, and an argument needs its
/// value.
pub proof fn command_lines_are_read_in_order(
    rest: Seq<Seq<char>>,
    said: ArgumentsView,
    path: Seq<char>,
    value: Seq<char>,
)
    requires
        path != "--dump-ids"@,
        path != "--backend"@,
        path != "--model"@,
        path != "--subfolder"@,
        path != "--device"@,
        path != "--dtype"@,
        path != "--batch-size"@,
        path != "--max-len"@,
    ensures
        said_by(seq!["--dump-ids"@] + rest, said) == said_by(
            rest,
            ArgumentsView { dump_ids: true, ..said },
        ),
        said.path is None ==> said_by(seq![path] + rest, said) == said_by(
            rest,
            ArgumentsView { path: Some(path), ..said },
        ),
        said.path is Some ==> said_by(seq![path] + rest, said) is Err,
        said_by(seq!["--model"@, value] + rest, said) == said_by(
            rest,
            ArgumentsView { model_id: Some(value), ..said },
        ),
        said_by(seq!["--backend"@, value] + rest, said) == said_by(
            rest,
            ArgumentsView { backend: value, ..said },
        ),
        said_by(seq!["--subfolder"@, value] + rest, said) == said_by(
            rest,
            ArgumentsView { subfolder: value, ..said },
        ),
        said_by(seq!["--device"@, value] + rest, said) == said_by(
            rest,
            ArgumentsView { device_name: value, ..said },
        ),
        said_by(seq!["--model"@], said) == Err::<ArgumentsView, Seq<char>>(
            "--model"@ + " needs a value"@,
        ),
        said_by(Seq::empty(), said) == Ok::<ArgumentsView, Seq<char>>(said),
{
    names_differ();
    arguments_set_what_they_are_called_for(said, value);
    assert((seq!["--dump-ids"@] + rest).skip(1) =~= rest);
    assert((seq![path] + rest).skip(1) =~= rest);
    assert((seq!["--model"@, value] + rest).skip(2) =~= rest);
    assert((seq!["--backend"@, value] + rest).skip(2) =~= rest);
    assert((seq!["--subfolder"@, value] + rest).skip(2) =~= rest);
    assert((seq!["--device"@, value] + rest).skip(2) =~= rest);
}

/// A request has to be named, and only two models take a length.
pub proof fn command_lines_that_are_complete(said: ArgumentsView)
    ensures
        complaint(said) is None <==> said.path is Some && (said.max_len is None || said.backend
            == "cua-s1"@ || said.backend == "gliner-decide"@),
        said.path is Some && complaint(said) is Some ==> complaint(said) == Some(
            "--max-len is supported only for --backend cua-s1 and gliner-decide"@,
        ),
{
}

/// A device is one that the program was built for; the CPU always is.
pub proof fn devices_are_known_by_name(name: Seq<char>, built: Built)
    ensures
        device_of("cpu"@, built) == Some(Device::Cpu),
        device_of("cuda"@, built) == if built.cuda {
            Some(Device::Cuda)
        } else {
            None
        },
        device_of("metal"@, built) == if built.metal {
            Some(Device::Metal)
        } else {
            None
        },
        name != "cpu"@ && name != "cuda"@ && name != "metal"@ ==> device_of(name, built) is None,
{
    reveal_strlit("cpu");
    reveal_strlit("cuda");
    reveal_strlit("metal");
    assert("cpu"@.len() == 3 && "cuda"@.len() == 4 && "metal"@.len() == 5);
}

/// A model is asked for by its name; settings that it does not have are
/// refused, and so is a device that is not there.
pub proof fn models_are_asked_for_by_name(said: ArgumentsView, built: Built)
    ensures
        refusal(said, built) is None <==> {
            ||| said.backend == "jev"@ && !said.dump_ids && said.subfolder.len() == 0
                && said.device_name == "cpu"@ && said.dtype is None
            ||| (said.backend == "openjev"@ || said.backend == "gliner-decide"@)
                && said.subfolder.len() == 0 && device_of(said.device_name, built) is Some
            ||| said.backend == "cua-s1"@ && !said.dump_ids && said.subfolder.len() == 0
                && said.batch_size is None && device_of(said.device_name, built) is Some
            ||| said.backend == "laya"@ && device_of(said.device_name, built) is Some
        },
{
    backends_differ();
}

proof fn backends_differ()
    ensures
        "jev"@ != "openjev"@,
        "jev"@ != "gliner-decide"@,
        "jev"@ != "cua-s1"@,
        "jev"@ != "laya"@,
        "openjev"@ != "gliner-decide"@,
        "openjev"@ != "cua-s1"@,
        "openjev"@ != "laya"@,
        "gliner-decide"@ != "cua-s1"@,
        "gliner-decide"@ != "laya"@,
        "cua-s1"@ != "laya"@,
{
    reveal_strlit("jev");
    reveal_strlit("openjev");
    reveal_strlit("gliner-decide");
    reveal_strlit("cua-s1");
    reveal_strlit("laya");
    assert("jev"@.len() == 3 && "openjev"@.len() == 7 && "gliner-decide"@.len() == 13
        && "cua-s1"@.len() == 6 && "laya"@.len() == 4);
}

/// The model that is had is the one that was named, from the repository that
/// was named or its own, on the device that was named, with what was said of
/// its settings and its own for the rest.
pub proof fn wishes_are_met(said: ArgumentsView, built: Built, wanted: Wanted)
    requires
        meets(said, built, wanted),
    ensures
        wanted is Jev <==> said.backend == "jev"@,
        wanted is OpenJev <==> said.backend == "openjev"@,
        wanted is GlinerDecide <==> said.backend == "gliner-decide"@,
        wanted is CuaS1 <==> said.backend == "cua-s1"@,
        wanted is Laya <==> said.backend == "laya"@,
        wanted matches Wanted::Jev { model, concurrency } ==> {
            &&& said.model_id matches Some(m) ==> model@ == m
            &&& said.model_id is None ==> model@ == "jev-latest"@
            &&& said.batch_size matches Some(n) ==> concurrency == n
            &&& said.batch_size is None ==> concurrency == 16
        },
        wanted matches Wanted::OpenJev(builder) ==> {
            &&& said.model_id matches Some(m) ==> builder.repo@ == m
            &&& said.model_id is None ==> builder.repo@ == "heman10x/rlcd-modernbert-151m"@
            &&& device_of(said.device_name, built) == Some(builder.device)
            &&& builder.dtype == said.dtype
            &&& said.batch_size matches Some(n) ==> builder.batch_size == n
            &&& said.batch_size is None ==> builder.batch_size == 16
            &&& builder.max_len == 512
        },
        wanted matches Wanted::GlinerDecide(builder) ==> {
            &&& said.model_id matches Some(m) ==> builder.repo@ == m
            &&& said.model_id is None ==> builder.repo@ == "fastino/GLiNER2.5-Decide"@
            &&& device_of(said.device_name, built) == Some(builder.device)
            &&& builder.dtype == said.dtype
            &&& said.batch_size matches Some(n) ==> builder.batch_size == n
            &&& said.batch_size is None ==> builder.batch_size == 8
            &&& said.max_len matches Some(n) ==> builder.max_len == n
            &&& said.max_len is None ==> builder.max_len == 512
        },
        wanted matches Wanted::CuaS1(builder) ==> {
            &&& said.model_id matches Some(m) ==> builder.adapter_repo@ == m
            &&& said.model_id is None ==> builder.adapter_repo@ == "cua-ai/cua-s1-4b-0.2"@
            &&& device_of(said.device_name, built) == Some(builder.device)
            &&& builder.dtype == said.dtype
            &&& builder.max_len == said.max_len
        },
        wanted matches Wanted::Laya { repo, subfolder, device, dtype, batch_size } ==> {
            &&& said.model_id matches Some(m) ==> repo@ == m
            &&& said.model_id is None ==> repo@ == "convaiinnovations/laya"@
            &&& subfolder@ == said.subfolder
            &&& device_of(said.device_name, built) == Some(device)
            &&& dtype == said.dtype
            &&& batch_size == said.batch_size
        },
{
    backends_differ();
}

/// An element type is known by its name, and a count is the number it stands
/// for.
pub proof fn names_and_counts_are_read(name: Seq<char>)
    ensures
        dtype_of(name) == Some(DType::F32) <==> name == "f32"@,
        dtype_of(name) == Some(DType::BF16) <==> name == "bf16"@,
        dtype_of(name) == Some(DType::F16) <==> name == "f16"@,
        dtype_of(name) is Some <==> name == "f32"@ || name == "bf16"@ || name == "f16"@,
        count_of(name) is Some <==> is_whole(name) && value_of(digits_of(name)) <= usize::MAX,
        count_of(name) matches Some(n) ==> n == value_of(digits_of(name)),
{
    names_differ();
    whole_numbers_are_read_as_written(name);
}

} // verus!
