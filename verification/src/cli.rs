use vstd::prelude::*;

use crate::text::{parse_usize, parse_usize_spec, str_eq};

verus! {

/// The settings file read when none is named.
pub open spec fn default_settings_path() -> Seq<char> {
    "settings.json"@
}

/// The models directory used when neither the command line, the settings nor the environment
/// name one.
pub open spec fn default_models_dir() -> Seq<char> {
    ".models"@
}

/// The options of the command line of the terminal tools.
#[derive(Debug, Clone)]
pub struct CliArgs {
    /// `--device <index>`: the audio input device.
    pub device_index: Option<usize>,
    /// `--settings <path>`: the settings file.
    pub settings_path: String,
    /// `--model <index>`: the model among those of the settings.
    pub model_index: Option<usize>,
    /// `--models-dir <path>`: the directory that holds the models' files.
    pub models_dir: Option<String>,
}

/// What the command line asks for.
#[derive(Debug, Clone)]
pub enum CliCommand {
    /// `--list-devices`: list the audio input devices and stop.
    ListDevices,
    /// Run with the given options.
    Run(CliArgs),
}

/// Why a command line is refused.
#[derive(Debug, Clone, Copy, PartialEq, Eq, Structural)]
pub enum CliError {
    /// An option that takes a value came last.
    MissingValue,
    /// The value of `--device` is not an unsigned number.
    InvalidDeviceIndex,
    /// The value of `--model` is not an unsigned number.
    InvalidModelIndex,
}

/// The options of a command line as plain values.
pub struct CliArgsView {
    pub device_index: Option<usize>,
    pub settings_path: Seq<char>,
    pub model_index: Option<usize>,
    pub models_dir: Option<Seq<char>>,
}

/// What reading a command line gives.
pub enum ParsedView {
    ListDevices,
    Run(CliArgsView),
    Failed(CliError),
}

impl CliArgs {
    /// The options as plain values.
    pub open spec fn view(&self) -> CliArgsView {
        CliArgsView {
            device_index: self.device_index,
            settings_path: self.settings_path@,
            model_index: self.model_index,
            models_dir: match self.models_dir {
                Some(d) => Some(d@),
                None => None,
            },
        }
    }
}

/// The reading of a command line as plain values.
pub open spec fn parsed_view(r: Result<CliCommand, CliError>) -> ParsedView {
    match r {
        Ok(CliCommand::ListDevices) => ParsedView::ListDevices,
        Ok(CliCommand::Run(a)) => ParsedView::Run(a.view()),
        Err(e) => ParsedView::Failed(e),
    }
}

/// The options before any argument is read.
pub open spec fn default_args() -> CliArgsView {
    CliArgsView {
        device_index: None,
        settings_path: default_settings_path(),
        model_index: None,
        models_dir: None,
    }
}

/// Reads the arguments from position `i` on, the options read so far being `acc`. Arguments
/// are read in order: `--list-devices` ends the reading; `--device`, `--settings`, `--model`
/// and (when accepted) `--models-dir` take the next argument as their value, the later of two
/// values winning; any other argument is passed over.
pub open spec fn parse_from(args: Seq<Seq<char>>, i: int, acc: CliArgsView, with_models_dir: bool) -> ParsedView
    decreases args.len() - i,
{
    if i >= args.len() || i < 0 {
        ParsedView::Run(acc)
    } else {
        let a = args[i];
        if a == "--list-devices"@ {
            ParsedView::ListDevices
        } else if a == "--device"@ {
            if i + 1 >= args.len() {
                ParsedView::Failed(CliError::MissingValue)
            } else {
                match parse_usize_spec(args[i + 1]) {
                    Some(v) => parse_from(args, i + 2, CliArgsView { device_index: Some(v), ..acc }, with_models_dir),
                    None => ParsedView::Failed(CliError::InvalidDeviceIndex),
                }
            }
        } else if a == "--settings"@ {
            if i + 1 >= args.len() {
                ParsedView::Failed(CliError::MissingValue)
            } else {
                parse_from(args, i + 2, CliArgsView { settings_path: args[i + 1], ..acc }, with_models_dir)
            }
        } else if a == "--model"@ {
            if i + 1 >= args.len() {
                ParsedView::Failed(CliError::MissingValue)
            } else {
                match parse_usize_spec(args[i + 1]) {
                    Some(v) => parse_from(args, i + 2, CliArgsView { model_index: Some(v), ..acc }, with_models_dir),
                    None => ParsedView::Failed(CliError::InvalidModelIndex),
                }
            }
        } else if with_models_dir && a == "--models-dir"@ {
            if i + 1 >= args.len() {
                ParsedView::Failed(CliError::MissingValue)
            } else {
                parse_from(args, i + 2, CliArgsView { models_dir: Some(args[i + 1]), ..acc }, with_models_dir)
            }
        } else {
            parse_from(args, i + 1, acc, with_models_dir)
        }
    }
}

/// The texts of the arguments.
pub open spec fn args_view(args: Seq<String>) -> Seq<Seq<char>> {
    args.map_values(|a: String| a@)
}

/// Reads the command line of a terminal tool (`args[0]` being the program's name). The
/// options are `--list-devices`, `--device <index>`, `--settings <path>`, `--model <index>`
/// and, when `with_models_dir` holds, `--models-dir <path>`; other arguments are passed over.
pub fn parse_args(args: &[String], with_models_dir: bool) -> (r: Result<CliCommand, CliError>)
    ensures
        parsed_view(r) == parse_from(args_view(args@), 1, default_args(), with_models_dir),
{
    proof {
        reveal_strlit("--list-devices");
        reveal_strlit("--device");
        reveal_strlit("--settings");
        reveal_strlit("--model");
        reveal_strlit("--models-dir");
        reveal_strlit("settings.json");
    }
    let ghost av = args_view(args@);
    let mut device_index: Option<usize> = None;
    let mut settings_path = String::from_str("settings.json");
    let mut model_index: Option<usize> = None;
    let mut models_dir: Option<String> = None;
    let mut i: usize = 1;
    while i < args.len()
        invariant
            1 <= i,
            av == args_view(args@),
            av.len() == args@.len(),
            parse_from(av, 1, default_args(), with_models_dir) == parse_from(
                av,
                i as int,
                (CliArgs { device_index, settings_path, model_index, models_dir }).view(),
                with_models_dir,
            ),
        decreases args.len() - i,
    {
        let ghost acc = (CliArgs { device_index, settings_path, model_index, models_dir }).view();
        let a = args[i].as_str();
        assert(a@ == av[i as int]);
        if str_eq(a, "--list-devices") {
            return Ok(CliCommand::ListDevices);
        } else if str_eq(a, "--device") {
            if i + 1 >= args.len() {
                return Err(CliError::MissingValue);
            }
            assert(args[i + 1]@ == av[i + 1]);
            match parse_usize(args[i + 1].as_str()) {
                Some(v) => {
                    device_index = Some(v);
                },
                None => {
                    return Err(CliError::InvalidDeviceIndex);
                },
            }
            i = i + 2;
        } else if str_eq(a, "--settings") {
            if i + 1 >= args.len() {
                return Err(CliError::MissingValue);
            }
            assert(args[i + 1]@ == av[i + 1]);
            settings_path = args[i + 1].clone();
            i = i + 2;
        } else if str_eq(a, "--model") {
            if i + 1 >= args.len() {
                return Err(CliError::MissingValue);
            }
            assert(args[i + 1]@ == av[i + 1]);
            match parse_usize(args[i + 1].as_str()) {
                Some(v) => {
                    model_index = Some(v);
                },
                None => {
                    return Err(CliError::InvalidModelIndex);
                },
            }
            i = i + 2;
        } else if with_models_dir && str_eq(a, "--models-dir") {
            if i + 1 >= args.len() {
                return Err(CliError::MissingValue);
            }
            assert(args[i + 1]@ == av[i + 1]);
            models_dir = Some(args[i + 1].clone());
            i = i + 2;
        } else {
            i = i + 1;
        }
    }
    Ok(CliCommand::Run(CliArgs { device_index, settings_path, model_index, models_dir }))
}

/// The model to use: the one named on the command line, else the active one of the settings,
/// else the first.
pub fn choose_model_index(cli: Option<usize>, active: Option<usize>) -> (i: usize)
    ensures
        i == match cli {
            Some(c) => c,
            None => match active {
                Some(a) => a,
                None => 0,
            },
        },
{
    match cli {
        Some(c) => c,
        None => match active {
            Some(a) => a,
            None => 0,
        },
    }
}

/// The directory of the models: the one named on the command line, else the one of the
/// settings, else the one of the environment, else `.models`.
pub fn resolve_models_dir(override_dir: Option<String>, configured: Option<String>, from_env: Option<String>) -> (d: String)
    ensures
        d@ == match override_dir {
            Some(o) => o@,
            None => match configured {
                Some(c) => c@,
                None => match from_env {
                    Some(e) => e@,
                    None => default_models_dir(),
                },
            },
        },
{
    proof {
        reveal_strlit(".models");
    }
    match override_dir {
        Some(o) => o,
        None => match configured {
            Some(c) => c,
            None => match from_env {
                Some(e) => e,
                None => String::from_str(".models"),
            },
        },
    }
}

/// Reading a command line that ends well, then more arguments after it, is reading the
/// further arguments with the options the first part set.
proof fn lemma_parse_continues(args: Seq<Seq<char>>, ext: Seq<Seq<char>>, i: int, acc: CliArgsView, with_models_dir: bool)
    requires
        0 <= i <= args.len(),
    ensures
        match parse_from(args, i, acc, with_models_dir) {
            ParsedView::Run(r) => parse_from(args + ext, i, acc, with_models_dir) == parse_from(
                args + ext,
                args.len() as int,
                r,
                with_models_dir,
            ),
            _ => true,
        },
    decreases args.len() - i,
{
    if i < args.len() {
        assert((args + ext)[i] == args[i]);
        if i + 1 < args.len() {
            assert((args + ext)[i + 1] == args[i + 1]);
        }
        let a = args[i];
        if a == "--list-devices"@ {
        } else if a == "--device"@ {
            if i + 1 < args.len() {
                match parse_usize_spec(args[i + 1]) {
                    Some(v) => lemma_parse_continues(
                        args,
                        ext,
                        i + 2,
                        CliArgsView { device_index: Some(v), ..acc },
                        with_models_dir,
                    ),
                    None => {},
                }
            }
        } else if a == "--settings"@ {
            if i + 1 < args.len() {
                lemma_parse_continues(args, ext, i + 2, CliArgsView { settings_path: args[i + 1], ..acc }, with_models_dir);
            }
        } else if a == "--model"@ {
            if i + 1 < args.len() {
                match parse_usize_spec(args[i + 1]) {
                    Some(v) => lemma_parse_continues(
                        args,
                        ext,
                        i + 2,
                        CliArgsView { model_index: Some(v), ..acc },
                        with_models_dir,
                    ),
                    None => {},
                }
            }
        } else if with_models_dir && a == "--models-dir"@ {
            if i + 1 < args.len() {
                lemma_parse_continues(args, ext, i + 2, CliArgsView { models_dir: Some(args[i + 1]), ..acc }, with_models_dir);
            }
        } else {
            lemma_parse_continues(args, ext, i + 1, acc, with_models_dir);
        }
    }
}

/// The option names differ from one another.
proof fn lemma_option_names_differ()
    ensures
        "--list-devices"@.len() == 14,
        "--device"@.len() == 8,
        "--settings"@.len() == 10,
        "--model"@.len() == 7,
        "--models-dir"@.len() == 12,
{
    reveal_strlit("--list-devices");
    reveal_strlit("--device");
    reveal_strlit("--settings");
    reveal_strlit("--model");
    reveal_strlit("--models-dir");
}

/// Reading an option and its value at the end of the arguments.
proof fn lemma_last_option(full: Seq<Seq<char>>, n: int, r: CliArgsView, with_models_dir: bool)
    requires
        0 <= n,
        full.len() == n + 2,
    ensures
        full[n] == "--list-devices"@ ==> parse_from(full, n, r, with_models_dir) == ParsedView::ListDevices,
        full[n] == "--settings"@ ==> parse_from(full, n, r, with_models_dir) == ParsedView::Run(
            CliArgsView { settings_path: full[n + 1], ..r },
        ),
        full[n] == "--device"@ && parse_usize_spec(full[n + 1]) is Some ==> parse_from(full, n, r, with_models_dir)
            == ParsedView::Run(CliArgsView { device_index: parse_usize_spec(full[n + 1]), ..r }),
        full[n] == "--model"@ && parse_usize_spec(full[n + 1]) is Some ==> parse_from(full, n, r, with_models_dir)
            == ParsedView::Run(CliArgsView { model_index: parse_usize_spec(full[n + 1]), ..r }),
        full[n] == "--models-dir"@ && with_models_dir ==> parse_from(full, n, r, with_models_dir) == ParsedView::Run(
            CliArgsView { models_dir: Some(full[n + 1]), ..r },
        ),
{
    lemma_option_names_differ();
    let a = full[n];
    if a == "--settings"@ {
        let r2 = CliArgsView { settings_path: full[n + 1], ..r };
        assert(parse_from(full, n + 2, r2, with_models_dir) == ParsedView::Run(r2));
    } else if a == "--device"@ {
        if let Some(v) = parse_usize_spec(full[n + 1]) {
            let r2 = CliArgsView { device_index: Some(v), ..r };
            assert(parse_from(full, n + 2, r2, with_models_dir) == ParsedView::Run(r2));
        }
    } else if a == "--model"@ {
        if let Some(v) = parse_usize_spec(full[n + 1]) {
            let r2 = CliArgsView { model_index: Some(v), ..r };
            assert(parse_from(full, n + 2, r2, with_models_dir) == ParsedView::Run(r2));
        }
    } else if a == "--models-dir"@ && with_models_dir {
        let r2 = CliArgsView { models_dir: Some(full[n + 1]), ..r };
        assert(parse_from(full, n + 2, r2, with_models_dir) == ParsedView::Run(r2));
    }
}

/// Options given after a command line that reads well change just what they name, the later
/// value winning, whether or not `--models-dir` is accepted: `--settings <s>` makes `s` the
/// settings file, `--device <n>` and `--model <n>` with a number `n` set the device or the
/// model, `--models-dir <d>` (where accepted) sets the models directory, and
/// `--list-devices` asks for the device list.
pub proof fn lemma_trailing_option(args: Seq<Seq<char>>, option: Seq<char>, value: Seq<char>, with_models_dir: bool)
    requires
        args.len() >= 1,
        parse_from(args, 1, default_args(), with_models_dir) is Run,
    ensures
        ({
            let before = parse_from(args, 1, default_args(), with_models_dir);
            let after = parse_from(args + seq![option, value], 1, default_args(), with_models_dir);
            match before {
                ParsedView::Run(r) => {
                    &&& option == "--settings"@ ==> after == ParsedView::Run(
                        CliArgsView { settings_path: value, ..r },
                    )
                    &&& option == "--device"@ && parse_usize_spec(value) is Some ==> after == ParsedView::Run(
                        CliArgsView { device_index: parse_usize_spec(value), ..r },
                    )
                    &&& option == "--model"@ && parse_usize_spec(value) is Some ==> after == ParsedView::Run(
                        CliArgsView { model_index: parse_usize_spec(value), ..r },
                    )
                    &&& option == "--models-dir"@ && with_models_dir ==> after == ParsedView::Run(
                        CliArgsView { models_dir: Some(value), ..r },
                    )
                    &&& option == "--list-devices"@ ==> after == ParsedView::ListDevices
                },
                _ => false,
            }
        }),
{
    let ext = seq![option, value];
    let full = args + ext;
    lemma_parse_continues(args, ext, 1, default_args(), with_models_dir);
    assert(full[args.len() as int] == option);
    assert(full[args.len() + 1int] == value);
    if let ParsedView::Run(r) = parse_from(args, 1, default_args(), with_models_dir) {
        lemma_last_option(full, args.len() as int, r, with_models_dir);
    }
}

} // verus!
