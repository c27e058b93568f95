//! The command line: what it may say, and which model it asks for.
use crate::cua_s1::api::{CuaS1, CuaS1Builder};
use crate::device::{DType, Device};
use crate::error::{quoted, quoted_text};
use crate::gliner_decide::input::GlinerDecide;
use crate::gliner_decide::settings::GlinerDecideBuilder;
use crate::jev::{parse_whole, whole_number};
use crate::openjev::model::{OpenJev, OpenJevBuilder};
use crate::text::{option_view, same};
use vstd::prelude::*;
use vstd::string::{StrSliceExecFns, StringExecFns};

verus! {

/// The repository of the local model that is used where none is named.
pub const LAYA_REPO_ID: &'static str = "convaiinnovations/laya";

/// What the command line says.
#[derive(Debug)]
pub struct Arguments {
    pub path: Option<String>,
    pub dump_ids: bool,
    pub model_id: Option<String>,
    pub backend: String,
    pub subfolder: String,
    pub device_name: String,
    pub dtype: Option<DType>,
    pub batch_size: Option<usize>,
    pub max_len: Option<usize>,
}

/// What the command line says, with texts as character sequences.
pub struct ArgumentsView {
    pub path: Option<Seq<char>>,
    pub dump_ids: bool,
    pub model_id: Option<Seq<char>>,
    pub backend: Seq<char>,
    pub subfolder: Seq<char>,
    pub device_name: Seq<char>,
    pub dtype: Option<DType>,
    pub batch_size: Option<usize>,
    pub max_len: Option<usize>,
}

impl View for Arguments {
    type V = ArgumentsView;

    open spec fn view(&self) -> ArgumentsView {
        ArgumentsView {
            path: option_view(self.path),
            dump_ids: self.dump_ids,
            model_id: option_view(self.model_id),
            backend: self.backend@,
            subfolder: self.subfolder@,
            device_name: self.device_name@,
            dtype: self.dtype,
            batch_size: self.batch_size,
            max_len: self.max_len,
        }
    }
}

/// What is said of a text that is not a count.
pub uninterp spec fn count_message(s: Seq<char>) -> Seq<char>;

/// The count that a text is.
pub open spec fn count_of(s: Seq<char>) -> Option<usize> {
    match whole_number(s) {
        Some(n) => if n <= usize::MAX {
            Some(n as usize)
        } else {
            None
        },
        None => None,
    }
}

/// `str::parse::<usize>`: the message of its error for a text that is not a
/// count. It depends on the text alone.
#[verifier::external_body]
fn count_refusal(s: &str) -> (message: String)
    requires
        count_of(s@) is None,
    ensures
        message@ == count_message(s@),
{
    match s.parse::<usize>() {
        Ok(_) => String::new(),
        Err(e) => e.to_string(),
    }
}

/// Reads a count.
fn parse_count(s: &str) -> (result: Result<usize, String>)
    ensures
        match result {
            Ok(n) => count_of(s@) == Some(n),
            Err(message) => count_of(s@) is None && message@ == count_message(s@),
        },
{
    match parse_whole(s) {
        Some(n) => if n <= usize::MAX as u64 {
            Ok(n as usize)
        } else {
            Err(count_refusal(s))
        },
        None => Err(count_refusal(s)),
    }
}

/// What the command line says before it says anything.
pub open spec fn unsaid() -> ArgumentsView {
    ArgumentsView {
        path: None,
        dump_ids: false,
        model_id: None,
        backend: "laya"@,
        subfolder: ""@,
        device_name: "cpu"@,
        dtype: None,
        batch_size: None,
        max_len: None,
    }
}

/// The element type of this name.
pub open spec fn dtype_of(name: Seq<char>) -> Option<DType> {
    if name == "f32"@ {
        Some(DType::F32)
    } else if name == "bf16"@ {
        Some(DType::BF16)
    } else if name == "f16"@ {
        Some(DType::F16)
    } else {
        None
    }
}

/// The argument takes the next one as its value.
pub open spec fn takes_value(arg: Seq<char>) -> bool {
    arg == "--backend"@ || arg == "--model"@ || arg == "--subfolder"@ || arg == "--device"@ || arg
        == "--dtype"@ || arg == "--batch-size"@ || arg == "--max-len"@
}

/// What is said where the value of an argument is missing.
pub open spec fn missing_value(arg: Seq<char>) -> Seq<char> {
    if arg == "--backend"@ {
        "--backend needs laya, openjev, gliner-decide, cua-s1 or jev"@
    } else if arg == "--dtype"@ {
        "unknown dtype None"@
    } else {
        arg + " needs a value"@
    }
}

/// Takes in an argument with its value.
pub open spec fn with_value(said: ArgumentsView, arg: Seq<char>, value: Seq<char>) -> Result<
    ArgumentsView,
    Seq<char>,
> {
    if arg == "--backend"@ {
        Ok(ArgumentsView { backend: value, ..said })
    } else if arg == "--model"@ {
        Ok(ArgumentsView { model_id: Some(value), ..said })
    } else if arg == "--subfolder"@ {
        Ok(ArgumentsView { subfolder: value, ..said })
    } else if arg == "--device"@ {
        Ok(ArgumentsView { device_name: value, ..said })
    } else if arg == "--dtype"@ {
        match dtype_of(value) {
            Some(dtype) => Ok(ArgumentsView { dtype: Some(dtype), ..said }),
            None => Err("unknown dtype Some("@ + quoted_text(value) + ")"@),
        }
    } else if arg == "--batch-size"@ {
        match count_of(value) {
            Some(n) => Ok(ArgumentsView { batch_size: Some(n), ..said }),
            None => Err(count_message(value)),
        }
    } else {
        match count_of(value) {
            Some(n) => Ok(ArgumentsView { max_len: Some(n), ..said }),
            None => Err(count_message(value)),
        }
    }
}

/// What a command line says, or why it cannot be understood. The first
/// argument that cannot be understood decides.
pub open spec fn said_by(args: Seq<Seq<char>>, said: ArgumentsView) -> Result<
    ArgumentsView,
    Seq<char>,
>
    decreases args.len(),
{
    if args.len() == 0 {
        Ok(said)
    } else if args[0] == "--dump-ids"@ {
        said_by(args.skip(1), ArgumentsView { dump_ids: true, ..said })
    } else if takes_value(args[0]) {
        if args.len() == 1 {
            Err(missing_value(args[0]))
        } else {
            match with_value(said, args[0], args[1]) {
                Ok(next) => said_by(args.skip(2), next),
                Err(message) => Err(message),
            }
        }
    } else if said.path is None {
        said_by(args.skip(1), ArgumentsView { path: Some(args[0]), ..said })
    } else {
        Err("unexpected argument "@ + quoted_text(args[0]))
    }
}

/// What is wrong with what a command line says.
pub open spec fn complaint(said: ArgumentsView) -> Option<Seq<char>> {
    if said.path is None {
        Some(
            "usage: vs1 [--backend laya|openjev|gliner-decide|cua-s1|jev] [--model MODEL] [--dump-ids] [--device cpu|cuda] [--max-len TOKENS] request.json"@,
        )
    } else if said.max_len is Some && said.backend != "cua-s1"@ && said.backend
        != "gliner-decide"@ {
        Some("--max-len is supported only for --backend cua-s1 and gliner-decide"@)
    } else {
        None
    }
}

/// The arguments as character sequences.
pub open spec fn words(args: Seq<String>) -> Seq<Seq<char>> {
    args.map_values(|s: String| s@)
}

/// The message of a refusal, and what was said otherwise.
pub open spec fn outcome(result: Result<Arguments, String>) -> Result<ArgumentsView, Seq<char>> {
    match result {
        Ok(a) => Ok(a@),
        Err(m) => Err(m@),
    }
}

fn find_dtype(name: &str) -> (dtype: Option<DType>)
    ensures
        dtype == dtype_of(name@),
{
    if same(name, "f32") {
        Some(DType::F32)
    } else if same(name, "bf16") {
        Some(DType::BF16)
    } else if same(name, "f16") {
        Some(DType::F16)
    } else {
        None
    }
}

fn does_take_value(arg: &str) -> (yes: bool)
    ensures
        yes == takes_value(arg@),
{
    same(arg, "--backend") || same(arg, "--model") || same(arg, "--subfolder") || same(
        arg,
        "--device",
    ) || same(arg, "--dtype") || same(arg, "--batch-size") || same(arg, "--max-len")
}

fn without_value(arg: &str) -> (message: String)
    ensures
        message@ == missing_value(arg@),
{
    if same(arg, "--backend") {
        "--backend needs laya, openjev, gliner-decide, cua-s1 or jev".to_owned()
    } else if same(arg, "--dtype") {
        "unknown dtype None".to_owned()
    } else {
        let mut message = arg.to_owned();
        message.append(" needs a value");
        message
    }
}

fn take_value(said: Arguments, arg: &str, value: &str) -> (result: Result<Arguments, String>)
    requires
        takes_value(arg@),
    ensures
        outcome(result) == with_value(said@, arg@, value@),
{
    if same(arg, "--backend") {
        Ok(Arguments { backend: value.to_owned(), ..said })
    } else if same(arg, "--model") {
        Ok(Arguments { model_id: Some(value.to_owned()), ..said })
    } else if same(arg, "--subfolder") {
        Ok(Arguments { subfolder: value.to_owned(), ..said })
    } else if same(arg, "--device") {
        Ok(Arguments { device_name: value.to_owned(), ..said })
    } else if same(arg, "--dtype") {
        match find_dtype(value) {
            Some(dtype) => Ok(Arguments { dtype: Some(dtype), ..said }),
            None => {
                let mut message = "unknown dtype Some(".to_owned();
                message.append(quoted(value).as_str());
                message.append(")");
                Err(message)
            },
        }
    } else if same(arg, "--batch-size") {
        match parse_count(value) {
            Ok(n) => Ok(Arguments { batch_size: Some(n), ..said }),
            Err(message) => Err(message),
        }
    } else {
        match parse_count(value) {
            Ok(n) => Ok(Arguments { max_len: Some(n), ..said }),
            Err(message) => Err(message),
        }
    }
}

/// Understands a command line, the program's name left out.
pub fn parse_arguments(args: &Vec<String>) -> (result: Result<Arguments, String>)
    ensures
        outcome(result) == match said_by(words(args@), unsaid()) {
            Ok(said) => match complaint(said) {
                None => Ok(said),
                Some(message) => Err(message),
            },
            Err(message) => Err(message),
        },
{
    let ghost all = words(args@);
    let mut said = Arguments {
        path: None,
        dump_ids: false,
        model_id: None,
        backend: "laya".to_owned(),
        subfolder: "".to_owned(),
        device_name: "cpu".to_owned(),
        dtype: None,
        batch_size: None,
        max_len: None,
    };
    let mut i: usize = 0;
    assert(all.skip(0) =~= all);
    while i < args.len()
        invariant
            i <= args.len(),
            all == words(args@),
            said_by(all, unsaid()) == said_by(all.skip(i as int), said@),
        decreases args.len() - i,
    {
        let ghost rest = all.skip(i as int);
        let arg = args[i].as_str();
        assert(rest[0] == arg@);
        if same(arg, "--dump-ids") {
            said = Arguments { dump_ids: true, ..said };
            i += 1;
            assert(rest.skip(1) =~= all.skip(i as int));
        } else if does_take_value(arg) {
            if i + 1 >= args.len() {
                return Err(without_value(arg));
            }
            let value = args[i + 1].as_str();
            assert(rest[1] == value@);
            match take_value(said, arg, value) {
                Ok(next) => {
                    said = next;
                },
                Err(message) => {
                    return Err(message);
                },
            }
            i += 2;
            assert(rest.skip(2) =~= all.skip(i as int));
        } else if said.path.is_none() {
            said = Arguments { path: Some(arg.to_owned()), ..said };
            i += 1;
            assert(rest.skip(1) =~= all.skip(i as int));
        } else {
            let mut message = "unexpected argument ".to_owned();
            message.append(quoted(arg).as_str());
            return Err(message);
        }
    }
    if said.path.is_none() {
        return Err(
            "usage: vs1 [--backend laya|openjev|gliner-decide|cua-s1|jev] [--model MODEL] [--dump-ids] [--device cpu|cuda] [--max-len TOKENS] request.json".to_owned(),
        );
    }
    if said.max_len.is_some() && !same(said.backend.as_str(), "cua-s1") && !same(
        said.backend.as_str(),
        "gliner-decide",
    ) {
        return Err(
            "--max-len is supported only for --backend cua-s1 and gliner-decide".to_owned(),
        );
    }
    Ok(said)
}

/// Which parts the program was built with.
#[derive(Clone, Copy, Debug, PartialEq, Eq, Structural)]
pub struct Built {
    pub cuda: bool,
    pub metal: bool,
}

/// The device of this name, where the program was built for it.
pub open spec fn device_of(name: Seq<char>, built: Built) -> Option<Device> {
    if name == "cpu"@ {
        Some(Device::Cpu)
    } else if name == "cuda"@ && built.cuda {
        Some(Device::Cuda)
    } else if name == "metal"@ && built.metal {
        Some(Device::Metal)
    } else {
        None
    }
}

/// Finds the device of a name.
pub fn device(name: &str, built: Built) -> (result: Result<Device, String>)
    ensures
        match result {
            Ok(device) => device_of(name@, built) == Some(device),
            Err(message) => device_of(name@, built) is None && message@
                == "unknown or unsupported device "@ + quoted_text(name@),
        },
{
    if same(name, "cpu") {
        return Ok(Device::Cpu);
    }
    if same(name, "cuda") && built.cuda {
        return Ok(Device::Cuda);
    }
    if same(name, "metal") && built.metal {
        return Ok(Device::Metal);
    }
    let mut message = "unknown or unsupported device ".to_owned();
    message.append(quoted(name).as_str());
    Err(message)
}

/// The model that a command line asks for.
#[derive(Debug)]
pub enum Wanted {
    Jev { model: String, concurrency: usize },
    OpenJev(OpenJevBuilder),
    GlinerDecide(GlinerDecideBuilder),
    CuaS1(CuaS1Builder),
    Laya {
        repo: String,
        subfolder: String,
        device: Device,
        dtype: Option<DType>,
        batch_size: Option<usize>,
    },
}

/// The value, or what stands in for it.
pub open spec fn or<T>(value: Option<T>, instead: T) -> T {
    match value {
        Some(v) => v,
        None => instead,
    }
}

/// Why the model that was asked for cannot be had as it was asked for.
pub open spec fn refusal(said: ArgumentsView, built: Built) -> Option<Seq<char>> {
    let unknown_device = "unknown or unsupported device "@ + quoted_text(said.device_name);
    let no_device = device_of(said.device_name, built) is None;
    if said.backend == "jev"@ {
        if said.dump_ids || said.subfolder.len() > 0 || said.device_name != "cpu"@ || said.dtype
            is Some {
            Some("--dump-ids, --subfolder, --device and --dtype are local-only"@)
        } else {
            None
        }
    } else if said.backend == "openjev"@ && said.subfolder.len() > 0 {
        Some("OpenJev does not use --subfolder"@)
    } else if said.backend == "gliner-decide"@ && said.subfolder.len() > 0 {
        Some("GLiNER2.5-Decide does not use --subfolder"@)
    } else if said.backend == "cua-s1"@ && (said.dump_ids || said.subfolder.len() > 0
        || said.batch_size is Some) {
        Some("Cua-S1 does not use --dump-ids, --subfolder or --batch-size"@)
    } else if said.backend == "openjev"@ || said.backend == "gliner-decide"@ || said.backend
        == "cua-s1"@ || said.backend == "laya"@ {
        if no_device {
            Some(unknown_device)
        } else {
            None
        }
    } else {
        Some("--backend must be laya, openjev, gliner-decide, cua-s1 or jev"@)
    }
}

/// The model is the one that was asked for, with the settings that were asked
/// for and its own for the rest.
pub open spec fn meets(said: ArgumentsView, built: Built, wanted: Wanted) -> bool {
    let device = device_of(said.device_name, built);
    match wanted {
        Wanted::Jev { model, concurrency } => {
            &&& said.backend == "jev"@
            &&& model@ == or(said.model_id, "jev-latest"@)
            &&& concurrency == or(said.batch_size, 16)
        },
        Wanted::OpenJev(builder) => {
            &&& said.backend == "openjev"@
            &&& builder.repo@ == or(said.model_id, crate::openjev::prompt::DEFAULT_REPO_ID@)
            &&& Some(builder.device) == device
            &&& builder.dtype == said.dtype
            &&& builder.batch_size == or(said.batch_size, 16)
            &&& builder.max_len == 512
        },
        Wanted::GlinerDecide(builder) => {
            &&& said.backend == "gliner-decide"@
            &&& builder.repo@ == or(said.model_id, crate::gliner_decide::settings::DEFAULT_REPO_ID@)
            &&& Some(builder.device) == device
            &&& builder.dtype == said.dtype
            &&& builder.batch_size == or(said.batch_size, 8)
            &&& builder.max_len == or(said.max_len, 512)
        },
        Wanted::CuaS1(builder) => {
            &&& said.backend == "cua-s1"@
            &&& builder.adapter_repo@ == or(said.model_id, crate::cua_s1::api::DEFAULT_REPO_ID@)
            &&& Some(builder.device) == device
            &&& builder.dtype == said.dtype
            &&& builder.local_directories is None
            &&& builder.max_len == said.max_len
        },
        Wanted::Laya { repo, subfolder, device: d, dtype, batch_size } => {
            &&& said.backend == "laya"@
            &&& repo@ == or(said.model_id, LAYA_REPO_ID@)
            &&& subfolder@ == said.subfolder
            &&& Some(d) == device
            &&& dtype == said.dtype
            &&& batch_size == said.batch_size
        },
    }
}

fn model_or<'a>(said: &'a Arguments, instead: &'a str) -> (model: &'a str)
    ensures
        model@ == or(said@.model_id, instead@),
{
    match &said.model_id {
        Some(model) => model.as_str(),
        None => instead,
    }
}

/// Works out which model a command line asks for.
pub fn choose_model(said: &Arguments, built: Built) -> (result: Result<Wanted, String>)
    ensures
        match result {
            Ok(wanted) => refusal(said@, built) is None && meets(said@, built, wanted),
            Err(message) => refusal(said@, built) == Some(message@),
        },
{
    let backend = said.backend.as_str();
    let nested = said.subfolder.as_str().unicode_len() > 0;
    if same(backend, "jev") {
        if said.dump_ids || nested || !same(said.device_name.as_str(), "cpu")
            || said.dtype.is_some() {
            return Err("--dump-ids, --subfolder, --device and --dtype are local-only".to_owned());
        }
        return Ok(
            Wanted::Jev {
                model: model_or(said, "jev-latest").to_owned(),
                concurrency: match said.batch_size {
                    Some(n) => n,
                    None => 16,
                },
            },
        );
    }
    let open_jev = same(backend, "openjev");
    let gliner = same(backend, "gliner-decide");
    let cua = same(backend, "cua-s1");
    if open_jev && nested {
        return Err("OpenJev does not use --subfolder".to_owned());
    }
    if gliner && nested {
        return Err("GLiNER2.5-Decide does not use --subfolder".to_owned());
    }
    if cua && (said.dump_ids || nested || said.batch_size.is_some()) {
        return Err("Cua-S1 does not use --dump-ids, --subfolder or --batch-size".to_owned());
    }
    if !open_jev && !gliner && !cua && !same(backend, "laya") {
        return Err("--backend must be laya, openjev, gliner-decide, cua-s1 or jev".to_owned());
    }
    let found = match device(said.device_name.as_str(), built) {
        Ok(found) => found,
        Err(message) => {
            return Err(message);
        },
    };
    if open_jev {
        let repo = model_or(said, crate::openjev::prompt::DEFAULT_REPO_ID);
        let mut builder = OpenJev::from(repo).with_device(found);
        if let Some(dtype) = said.dtype {
            builder = builder.with_dtype(dtype);
        }
        if let Some(n) = said.batch_size {
            builder = builder.with_batch_size(n);
        }
        return Ok(Wanted::OpenJev(builder));
    }
    if gliner {
        let repo = model_or(said, crate::gliner_decide::settings::DEFAULT_REPO_ID);
        let mut builder = GlinerDecide::from(repo).with_device(found);
        if let Some(dtype) = said.dtype {
            builder = builder.with_dtype(dtype);
        }
        if let Some(n) = said.batch_size {
            builder = builder.with_batch_size(n);
        }
        if let Some(n) = said.max_len {
            builder = builder.with_max_len(n);
        }
        return Ok(Wanted::GlinerDecide(builder));
    }
    if cua {
        let repo = model_or(said, crate::cua_s1::api::DEFAULT_REPO_ID);
        let mut builder = CuaS1::from(repo).with_device(found);
        if let Some(dtype) = said.dtype {
            builder = builder.with_dtype(dtype);
        }
        if let Some(n) = said.max_len {
            builder = builder.with_max_len(n);
        }
        return Ok(Wanted::CuaS1(builder));
    }
    Ok(
        Wanted::Laya {
            repo: model_or(said, LAYA_REPO_ID).to_owned(),
            subfolder: said.subfolder.as_str().to_owned(),
            device: found,
            dtype: said.dtype,
            batch_size: said.batch_size,
        },
    )
}

} // verus!
