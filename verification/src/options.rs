use crate::error::Error;
use crate::error::ErrorKind;
use crate::text::push_char;
use crate::text::str_equal;
use vstd::prelude::*;
use vstd::string::StringExecFns;

verus! {

pub const MSG_I_CHUNK_TOO_LARGE: &'static str = "i_chunk cannot be larger than n_chunks.";

pub const MSG_I_CHUNK_ZERO: &'static str = "i_chunk must be larger than zero.";

pub const MSG_CHUNKS_HALF_GIVEN: &'static str =
    "Both or neither of n-chunks and i-chunk must be specified.";

pub const MSG_UNKNOWN_LOG_LEVEL: &'static str =
    "attempted to convert a string that doesn't match an existing log level";

pub const TRAIN: &'static str = "train";

pub const CLASSIFY: &'static str = "classify";

pub const IMPORT_PHENET: &'static str = "import-phenet";

pub const SCALE_SIGMAS: &'static str = "scale-sigmas";

pub const IMPORT_PARAMS: &'static str = "import-params";

/// What the program is asked to do with the data.
#[derive(Clone, Copy, PartialEq, Eq, Debug, Structural)]
pub enum Action {
    Train,
    Classify,
}

/// How much is logged.
#[derive(Clone, Copy, PartialEq, Eq, Debug, Structural)]
pub enum LogLevel {
    Error,
    Warn,
    Info,
    Debug,
    Trace,
}

/// One part of the data to classify: part `i_chunk` of `n_chunks`, counted
/// from one.
#[derive(Clone, Copy, PartialEq, Eq, Debug, Structural)]
pub struct Chunking {
    pub n_chunks: usize,
    pub i_chunk: usize,
}

#[derive(Clone, Debug)]
pub struct Flags {
    pub dry: bool,
    pub log_level: LogLevel,
    pub chunking: Option<Chunking>,
}

#[derive(Clone, Debug)]
pub struct CoreOptions {
    pub action: Action,
    pub config_file: String,
    pub flags: Flags,
}

#[derive(Clone, Debug)]
pub struct ImportPhenetOptions {
    pub phenet_file: String,
    pub params_file: String,
    pub config_file: String,
    pub out_file: String,
}

#[derive(Clone, Debug)]
pub struct ImportParamsOptions {
    pub in_file: String,
    pub variants: Option<String>,
    pub betas: String,
    pub sigmas: String,
    pub endos: String,
    pub params_file: String,
    pub config_file: String,
}

/// An option of the command line: its long name and its one-letter name.
#[derive(Clone, Copy, Debug)]
pub struct ArgDef {
    pub name: &'static str,
    pub short: char,
}

/// The options that the command line knows.
#[derive(Clone, Copy, PartialEq, Eq, Debug, Structural)]
pub enum Arg {
    ConfigFile,
    Dry,
    Log,
    PhenetFile,
    ParamsFile,
    InFile,
    Scale,
    OutFile,
    NChunks,
    IChunk,
    Variants,
    Betas,
    Sigmas,
    Endos,
}

impl ArgDef {
    pub fn new(name: &'static str, short: char) -> (arg_def: ArgDef)
        ensures
            arg_def.name == name,
            arg_def.short == short,
    {
        ArgDef { name, short }
    }
}

impl Arg {
    pub open spec fn long_name(self) -> Seq<char> {
        match self {
            Arg::ConfigFile => "conf-file"@,
            Arg::Dry => "dry"@,
            Arg::Log => "log"@,
            Arg::PhenetFile => "phenet-file"@,
            Arg::ParamsFile => "params-file"@,
            Arg::InFile => "in-file"@,
            Arg::Scale => "scale"@,
            Arg::OutFile => "out-file"@,
            Arg::NChunks => "n-chunks"@,
            Arg::IChunk => "i-chunk"@,
            Arg::Variants => "variants"@,
            Arg::Betas => "betas"@,
            Arg::Sigmas => "sigmas"@,
            Arg::Endos => "endos"@,
        }
    }

    pub open spec fn short_name(self) -> char {
        match self {
            Arg::ConfigFile => 'f',
            Arg::Dry => 'd',
            Arg::Log => 'l',
            Arg::PhenetFile => 'i',
            Arg::ParamsFile => 'p',
            Arg::InFile => 'i',
            Arg::Scale => 's',
            Arg::OutFile => 'o',
            Arg::NChunks => 'x',
            Arg::IChunk => 'k',
            Arg::Variants => 'v',
            Arg::Betas => 'b',
            Arg::Sigmas => 's',
            Arg::Endos => 'e',
        }
    }

    /// The names of the option.
    pub fn def(&self) -> (arg_def: ArgDef)
        ensures
            arg_def.name@ == self.long_name(),
            arg_def.short == self.short_name(),
    {
        match self {
            Arg::ConfigFile => ArgDef::new("conf-file", 'f'),
            Arg::Dry => ArgDef::new("dry", 'd'),
            Arg::Log => ArgDef::new("log", 'l'),
            Arg::PhenetFile => ArgDef::new("phenet-file", 'i'),
            Arg::ParamsFile => ArgDef::new("params-file", 'p'),
            Arg::InFile => ArgDef::new("in-file", 'i'),
            Arg::Scale => ArgDef::new("scale", 's'),
            Arg::OutFile => ArgDef::new("out-file", 'o'),
            Arg::NChunks => ArgDef::new("n-chunks", 'x'),
            Arg::IChunk => ArgDef::new("i-chunk", 'k'),
            Arg::Variants => ArgDef::new("variants", 'v'),
            Arg::Betas => ArgDef::new("betas", 'b'),
            Arg::Sigmas => ArgDef::new("sigmas", 's'),
            Arg::Endos => ArgDef::new("endos", 'e'),
        }
    }
}

impl Action {
    pub open spec fn name(self) -> Seq<char> {
        match self {
            Action::Train => TRAIN@,
            Action::Classify => CLASSIFY@,
        }
    }

    /// The name of the subcommand that asks for this action.
    pub fn as_str(&self) -> (name: &'static str)
        ensures
            name@ == self.name(),
    {
        match self {
            Action::Train => TRAIN,
            Action::Classify => CLASSIFY,
        }
    }
}

/// What is said when an option is missing that has to be there.
pub open spec fn missing_option_message(what: Seq<char>, name: Seq<char>, short: char) -> Seq<
    char,
> {
    "Missing "@ + what + " option ('--"@ + name + "' or '-"@ + seq![short] + "')."@
}

pub fn missing_option_error(what: &str, arg_def: ArgDef) -> (error: Error)
    ensures
        error.kind == ErrorKind::Mocasa,
        error.message@ == missing_option_message(what@, arg_def.name@, arg_def.short),
{
    let mut message = String::from_str("Missing ");
    message.append(what);
    message.append(" option ('--");
    message.append(arg_def.name);
    message.append("' or '-");
    push_char(&mut message, arg_def.short);
    message.append("').");
    proof {
        assert(message@ =~= missing_option_message(what@, arg_def.name@, arg_def.short));
    }
    Error::new(ErrorKind::Mocasa, message)
}

/// The part of the data that the two options name, where both or neither
/// are given and the part is one of the parts; else what is wrong with them.
pub open spec fn chunking_spec(n_chunks: Option<usize>, i_chunk: Option<usize>) -> Result<
    Option<Chunking>,
    Seq<char>,
> {
    match (n_chunks, i_chunk) {
        (Some(n_chunks), Some(i_chunk)) => if i_chunk > n_chunks {
            Err(MSG_I_CHUNK_TOO_LARGE@)
        } else if i_chunk == 0 {
            Err(MSG_I_CHUNK_ZERO@)
        } else {
            Ok(Some(Chunking { n_chunks, i_chunk }))
        },
        (None, None) => Ok(None),
        _ => Err(MSG_CHUNKS_HALF_GIVEN@),
    }
}

/// Reads the part of the data to work on from the two options that name it.
pub fn chunking(n_chunks: Option<usize>, i_chunk: Option<usize>) -> (outcome: Result<
    Option<Chunking>,
    Error,
>)
    ensures
        match chunking_spec(n_chunks, i_chunk) {
            Ok(chunking) => outcome == Ok::<Option<Chunking>, Error>(chunking),
            Err(message) => outcome is Err && outcome->Err_0.kind == ErrorKind::Mocasa
                && outcome->Err_0.message@ == message,
        },
{
    match (n_chunks, i_chunk) {
        (Some(n_chunks), Some(i_chunk)) => if i_chunk > n_chunks {
            Err(Error::mocasa(MSG_I_CHUNK_TOO_LARGE))
        } else if i_chunk == 0 {
            Err(Error::mocasa(MSG_I_CHUNK_ZERO))
        } else {
            Ok(Some(Chunking { n_chunks, i_chunk }))
        },
        (None, None) => Ok(None),
        _ => Err(Error::mocasa(MSG_CHUNKS_HALF_GIVEN)),
    }
}

/// A letter of the Latin alphabet in lower case, and any other character as it is.
pub open spec fn ascii_lower(c: char) -> char {
    if 'A' <= c && c <= 'Z' {
        ((c as u8) + 32) as char
    } else {
        c
    }
}

/// Whether two texts are the same but for the case of Latin letters.
pub open spec fn same_ignoring_case(a: Seq<char>, b: Seq<char>) -> bool {
    &&& a.len() == b.len()
    &&& forall|i: int| 0 <= i < a.len() ==> ascii_lower(#[trigger] a[i]) == ascii_lower(b[i])
}

/// The log level that a text names, in any case of its letters.
pub open spec fn level_named(text: Seq<char>) -> Option<LogLevel> {
    if same_ignoring_case(text, "ERROR"@) {
        Some(LogLevel::Error)
    } else if same_ignoring_case(text, "WARN"@) {
        Some(LogLevel::Warn)
    } else if same_ignoring_case(text, "INFO"@) {
        Some(LogLevel::Info)
    } else if same_ignoring_case(text, "DEBUG"@) {
        Some(LogLevel::Debug)
    } else if same_ignoring_case(text, "TRACE"@) {
        Some(LogLevel::Trace)
    } else {
        None
    }
}

/// `log::Level::from_str`: the level whose name the text is, whatever the
/// case of its letters, and none for any other text, `off` among them.
#[verifier::external_body]
fn level_from_str(text: &str) -> (level: Option<LogLevel>)
    ensures
        level == level_named(text@),
{
    match <log::Level as std::str::FromStr>::from_str(text) {
        Ok(log::Level::Error) => Some(LogLevel::Error),
        Ok(log::Level::Warn) => Some(LogLevel::Warn),
        Ok(log::Level::Info) => Some(LogLevel::Info),
        Ok(log::Level::Debug) => Some(LogLevel::Debug),
        Ok(log::Level::Trace) => Some(LogLevel::Trace),
        Err(_) => None,
    }
}

/// The log level that an option asks for: warnings and errors where none is
/// given; refused where the text names no level.
pub fn log_level(log: Option<&str>) -> (outcome: Result<LogLevel, Error>)
    ensures
        log is None ==> outcome == Ok::<LogLevel, Error>(LogLevel::Warn),
        log is Some && level_named(log->0@) is Some ==> outcome == Ok::<LogLevel, Error>(
            level_named(log->0@)->0,
        ),
        log is Some && level_named(log->0@) is None ==> outcome is Err && outcome->Err_0.kind
            == ErrorKind::Mocasa && outcome->Err_0.message@ == MSG_UNKNOWN_LOG_LEVEL@,
{
    match log {
        None => Ok(LogLevel::Warn),
        Some(text) => match level_from_str(text) {
            Some(level) => Ok(level),
            None => Err(Error::mocasa(MSG_UNKNOWN_LOG_LEVEL)),
        },
    }
}

/// Puts the options of training and classification together from what the
/// command line gave. Refused where the configuration file is missing, the
/// log level is unknown or the part of the data is ill chosen, in this order.
pub fn core_options(
    action: Action,
    config_file: Option<String>,
    dry: bool,
    log: Option<&str>,
    n_chunks: Option<usize>,
    i_chunk: Option<usize>,
) -> (outcome: Result<CoreOptions, Error>)
    ensures
        config_file is None ==> outcome is Err && outcome->Err_0.kind == ErrorKind::Mocasa
            && outcome->Err_0.message@ == missing_option_message(
            "config file"@,
            Arg::ConfigFile.long_name(),
            Arg::ConfigFile.short_name(),
        ),
        config_file is Some && log is Some && level_named(log->0@) is None ==> outcome is Err
            && outcome->Err_0.kind == ErrorKind::Mocasa && outcome->Err_0.message@
            == MSG_UNKNOWN_LOG_LEVEL@,
        config_file is Some && (log is None || level_named(log->0@) is Some) && chunking_spec(
            n_chunks,
            i_chunk,
        ) is Err ==> outcome is Err && outcome->Err_0.kind == ErrorKind::Mocasa
            && outcome->Err_0.message@ == chunking_spec(n_chunks, i_chunk)->Err_0,
        config_file is Some && (log is None || level_named(log->0@) is Some) && chunking_spec(
            n_chunks,
            i_chunk,
        ) is Ok ==> outcome is Ok && outcome->Ok_0.action == action && outcome->Ok_0.config_file
            == config_file->0 && outcome->Ok_0.flags.dry == dry && outcome->Ok_0.flags.log_level
            == (if log is None {
            LogLevel::Warn
        } else {
            level_named(log->0@)->0
        }) && outcome->Ok_0.flags.chunking == chunking_spec(n_chunks, i_chunk)->Ok_0,
{
    let config_file = match config_file {
        Some(config_file) => config_file,
        None => {
            return Err(missing_option_error("config file", Arg::ConfigFile.def()));
        },
    };
    let log_level = match log_level(log) {
        Ok(log_level) => log_level,
        Err(error) => {
            return Err(error);
        },
    };
    let chunking = match chunking(n_chunks, i_chunk) {
        Ok(chunking) => chunking,
        Err(error) => {
            return Err(error);
        },
    };
    Ok(CoreOptions { action, config_file, flags: Flags { dry, log_level, chunking } })
}

/// The option given, or the error that says it is missing.
fn required(value: Option<String>, what: &str, arg: Arg) -> (outcome: Result<String, Error>)
    ensures
        value is Some ==> outcome == Ok::<String, Error>(value->0),
        value is None ==> outcome is Err && outcome->Err_0.kind == ErrorKind::Mocasa
            && outcome->Err_0.message@ == missing_option_message(
            what@,
            arg.long_name(),
            arg.short_name(),
        ),
{
    match value {
        Some(value) => Ok(value),
        None => Err(missing_option_error(what, arg.def())),
    }
}

/// Puts the options of the import of a phenotype network together. Refused
/// on the first of the four files that is missing.
pub fn import_phenet_options(
    phenet_file: Option<String>,
    params_file: Option<String>,
    config_file: Option<String>,
    out_file: Option<String>,
) -> (outcome: Result<ImportPhenetOptions, Error>)
    ensures
        phenet_file is Some && params_file is Some && config_file is Some && out_file is Some
            ==> outcome is Ok && outcome->Ok_0.phenet_file == phenet_file->0
            && outcome->Ok_0.params_file == params_file->0 && outcome->Ok_0.config_file
            == config_file->0 && outcome->Ok_0.out_file == out_file->0,
        phenet_file is None || params_file is None || config_file is None || out_file is None
            ==> outcome is Err && outcome->Err_0.kind == ErrorKind::Mocasa,
        outcome is Err ==> outcome->Err_0.message@ == (if phenet_file is None {
            missing_option_message(
                "phenet opts file"@,
                Arg::PhenetFile.long_name(),
                Arg::PhenetFile.short_name(),
            )
        } else if params_file is None {
            missing_option_message(
                "Mocasa parameters file"@,
                Arg::ParamsFile.long_name(),
                Arg::ParamsFile.short_name(),
            )
        } else if config_file is None {
            missing_option_message(
                "Mocasa config file"@,
                Arg::ConfigFile.long_name(),
                Arg::ConfigFile.short_name(),
            )
        } else {
            missing_option_message(
                "Mocasa classification output file"@,
                Arg::OutFile.long_name(),
                Arg::OutFile.short_name(),
            )
        }),
{
    let phenet_file = match required(phenet_file, "phenet opts file", Arg::PhenetFile) {
        Ok(file) => file,
        Err(error) => {
            return Err(error);
        },
    };
    let params_file = match required(params_file, "Mocasa parameters file", Arg::ParamsFile) {
        Ok(file) => file,
        Err(error) => {
            return Err(error);
        },
    };
    let config_file = match required(config_file, "Mocasa config file", Arg::ConfigFile) {
        Ok(file) => file,
        Err(error) => {
            return Err(error);
        },
    };
    let out_file = match required(out_file, "Mocasa classification output file", Arg::OutFile) {
        Ok(file) => file,
        Err(error) => {
            return Err(error);
        },
    };
    Ok(ImportPhenetOptions { phenet_file, params_file, config_file, out_file })
}

/// What the program can be asked for.
#[derive(Clone, Copy, PartialEq, Eq, Debug, Structural)]
pub enum Subcommand {
    Core(Action),
    ImportPhenet,
    ScaleSigmas,
    ImportParams,
}

pub open spec fn known_subcommands() -> Seq<char> {
    "Known subcommands are "@ + TRAIN@ + ", "@ + CLASSIFY@ + " and "@ + IMPORT_PHENET@ + "."@
}

pub fn known_subcommands_message() -> (message: String)
    ensures
        message@ == known_subcommands(),
{
    let mut message = String::from_str("Known subcommands are ");
    message.append(TRAIN);
    message.append(", ");
    message.append(CLASSIFY);
    message.append(" and ");
    message.append(IMPORT_PHENET);
    message.append(".");
    message
}

/// The subcommand that a name stands for.
pub open spec fn subcommand_named(name: Seq<char>) -> Option<Subcommand> {
    if name == TRAIN@ {
        Some(Subcommand::Core(Action::Train))
    } else if name == CLASSIFY@ {
        Some(Subcommand::Core(Action::Classify))
    } else if name == IMPORT_PHENET@ {
        Some(Subcommand::ImportPhenet)
    } else if name == SCALE_SIGMAS@ {
        Some(Subcommand::ScaleSigmas)
    } else if name == IMPORT_PARAMS@ {
        Some(Subcommand::ImportParams)
    } else {
        None
    }
}

/// Tells what the program is asked for from the name of the subcommand.
/// Refused where there is no name, or none that the program knows.
pub fn subcommand(name: Option<&str>) -> (outcome: Result<Subcommand, Error>)
    ensures
        name is Some && subcommand_named(name->0@) is Some ==> outcome == Ok::<Subcommand, Error>(
            subcommand_named(name->0@)->0,
        ),
        name is Some && subcommand_named(name->0@) is None ==> outcome is Err
            && outcome->Err_0.kind == ErrorKind::Mocasa && outcome->Err_0.message@
            == "Unknown subcommand "@ + name->0@ + ". "@ + known_subcommands(),
        name is None ==> outcome is Err && outcome->Err_0.kind == ErrorKind::Mocasa
            && outcome->Err_0.message@ == "Need to specify subcommand. "@ + known_subcommands(),
{
    match name {
        None => {
            let mut message = String::from_str("Need to specify subcommand. ");
            message.append(known_subcommands_message().as_str());
            Err(Error::new(ErrorKind::Mocasa, message))
        },
        Some(name) => {
            if str_equal(name, TRAIN) {
                Ok(Subcommand::Core(Action::Train))
            } else if str_equal(name, CLASSIFY) {
                Ok(Subcommand::Core(Action::Classify))
            } else if str_equal(name, IMPORT_PHENET) {
                Ok(Subcommand::ImportPhenet)
            } else if str_equal(name, SCALE_SIGMAS) {
                Ok(Subcommand::ScaleSigmas)
            } else if str_equal(name, IMPORT_PARAMS) {
                Ok(Subcommand::ImportParams)
            } else {
                let mut message = String::from_str("Unknown subcommand ");
                message.append(name);
                message.append(". ");
                message.append(known_subcommands_message().as_str());
                Err(Error::new(ErrorKind::Mocasa, message))
            }
        },
    }
}

} // verus!
