use vstd::prelude::*;

verus! {

/// The ways a command line can fail to parse.
#[derive(Clone, Copy, Debug, PartialEq, Eq, Structural)]
pub enum ArgError {
    /// No command word was given.
    MissingCommand,
    /// The command word is not one the tool offers.
    UnknownCommand,
    /// A token in flag position is not a flag the tool offers.
    UnknownFlag,
    /// A flag stands last, with no value after it.
    MissingValue,
    /// A flag was given twice.
    DuplicateFlag,
    /// A flag the command requires was not given.
    MissingFlag,
    /// A flag was given that the command does not take.
    UnexpectedFlag,
}

/// A parsed command line, as mathematical values.
pub ghost enum CommandsModel {
    Encode { file: Seq<char>, chunk_type: Seq<char>, message: Seq<char>, output: Option<Seq<char>> },
    Decode { file: Seq<char>, chunk_type: Seq<char> },
    Remove { file: Seq<char>, chunk_type: Seq<char> },
    Print { file: Seq<char> },
}

/// The operations the tool offers, each with the arguments it takes.
#[derive(Debug)]
pub enum Commands {
    /// Hide a message in a file, under a chunk of the given type.
    Encode { file: String, chunk_type: String, message: String, output: Option<String> },
    /// Read the message a chunk of the given type holds.
    Decode { file: String, chunk_type: String },
    /// Remove the first chunk of the given type.
    Remove { file: String, chunk_type: String },
    /// List every chunk in the file.
    Print { file: String },
}

impl View for Commands {
    type V = CommandsModel;

    open spec fn view(&self) -> CommandsModel {
        match self {
            Commands::Encode { file, chunk_type, message, output } => CommandsModel::Encode {
                file: file@,
                chunk_type: chunk_type@,
                message: message@,
                output: match output {
                    Some(o) => Some(o@),
                    None => None,
                },
            },
            Commands::Decode { file, chunk_type } => CommandsModel::Decode {
                file: file@,
                chunk_type: chunk_type@,
            },
            Commands::Remove { file, chunk_type } => CommandsModel::Remove {
                file: file@,
                chunk_type: chunk_type@,
            },
            Commands::Print { file } => CommandsModel::Print { file: file@ },
        }
    }
}

/// A parsed command line.
#[derive(Debug)]
pub struct Args {
    pub command: Commands,
}

impl View for Args {
    type V = CommandsModel;

    open spec fn view(&self) -> CommandsModel {
        self.command@
    }
}

/// The values collected for the four flags, each absent until its flag is
/// seen.
pub ghost struct FlagSet {
    pub file: Option<Seq<char>>,
    pub chunk_type: Option<Seq<char>>,
    pub message: Option<Seq<char>>,
    pub output: Option<Seq<char>>,
}

/// No flag seen yet.
pub open spec fn empty_flags() -> FlagSet {
    FlagSet { file: None, chunk_type: None, message: None, output: None }
}

/// The view of an optional owned string.
pub open spec fn opt_view(o: Option<String>) -> Option<Seq<char>> {
    match o {
        Some(s) => Some(s@),
        None => None,
    }
}

/// What walking the tokens after the command word collects: the tokens pair
/// up as flag and value, in any order, each flag at most once.
pub open spec fn spec_collect_flags(toks: Seq<Seq<char>>, acc: FlagSet) -> Result<
    FlagSet,
    ArgError,
>
    decreases toks.len(),
{
    if toks.len() == 0 {
        Ok(acc)
    } else if toks.len() == 1 {
        Err(ArgError::MissingValue)
    } else {
        let f = toks[0];
        let v = toks[1];
        let rest = toks.skip(2);
        if f == "-f"@ || f == "--file"@ {
            if acc.file is Some {
                Err(ArgError::DuplicateFlag)
            } else {
                spec_collect_flags(rest, FlagSet { file: Some(v), ..acc })
            }
        } else if f == "-c"@ || f == "--chunk-type"@ {
            if acc.chunk_type is Some {
                Err(ArgError::DuplicateFlag)
            } else {
                spec_collect_flags(rest, FlagSet { chunk_type: Some(v), ..acc })
            }
        } else if f == "-m"@ || f == "--message"@ {
            if acc.message is Some {
                Err(ArgError::DuplicateFlag)
            } else {
                spec_collect_flags(rest, FlagSet { message: Some(v), ..acc })
            }
        } else if f == "-o"@ || f == "--output"@ {
            if acc.output is Some {
                Err(ArgError::DuplicateFlag)
            } else {
                spec_collect_flags(rest, FlagSet { output: Some(v), ..acc })
            }
        } else {
            Err(ArgError::UnknownFlag)
        }
    }
}

/// What parsing a whole command line yields: the first token picks the
/// command, the rest are flag and value pairs; each command names the flags
/// it requires and takes no other.
pub open spec fn spec_parse_args(toks: Seq<Seq<char>>) -> Result<CommandsModel, ArgError> {
    if toks.len() == 0 {
        Err(ArgError::MissingCommand)
    } else {
        let cmd = toks[0];
        let rest = toks.skip(1);
        if cmd == "encode"@ {
            match spec_collect_flags(rest, empty_flags()) {
                Err(e) => Err(e),
                Ok(fl) => if fl.file is None || fl.chunk_type is None || fl.message is None {
                    Err(ArgError::MissingFlag)
                } else {
                    Ok(CommandsModel::Encode {
                        file: fl.file->0,
                        chunk_type: fl.chunk_type->0,
                        message: fl.message->0,
                        output: fl.output,
                    })
                },
            }
        } else if cmd == "decode"@ {
            match spec_collect_flags(rest, empty_flags()) {
                Err(e) => Err(e),
                Ok(fl) => if fl.message is Some || fl.output is Some {
                    Err(ArgError::UnexpectedFlag)
                } else if fl.file is None || fl.chunk_type is None {
                    Err(ArgError::MissingFlag)
                } else {
                    Ok(CommandsModel::Decode { file: fl.file->0, chunk_type: fl.chunk_type->0 })
                },
            }
        } else if cmd == "remove"@ {
            match spec_collect_flags(rest, empty_flags()) {
                Err(e) => Err(e),
                Ok(fl) => if fl.message is Some || fl.output is Some {
                    Err(ArgError::UnexpectedFlag)
                } else if fl.file is None || fl.chunk_type is None {
                    Err(ArgError::MissingFlag)
                } else {
                    Ok(CommandsModel::Remove { file: fl.file->0, chunk_type: fl.chunk_type->0 })
                },
            }
        } else if cmd == "print"@ {
            match spec_collect_flags(rest, empty_flags()) {
                Err(e) => Err(e),
                Ok(fl) => if fl.chunk_type is Some || fl.message is Some || fl.output is Some {
                    Err(ArgError::UnexpectedFlag)
                } else if fl.file is None {
                    Err(ArgError::MissingFlag)
                } else {
                    Ok(CommandsModel::Print { file: fl.file->0 })
                },
            }
        } else {
            Err(ArgError::UnknownCommand)
        }
    }
}

/// True when the string equals either spelling of a flag.
fn flag_matches(s: &String, short: &str, long: &str) -> (r: bool)
    ensures
        r == (s@ == short@ || s@ == long@),
{
    let a = short.to_owned();
    let b = long.to_owned();
    *s == a || *s == b
}

/// True when the string equals the given word.
fn word_matches(s: &String, word: &str) -> (r: bool)
    ensures
        r == (s@ == word@),
{
    let w = word.to_owned();
    *s == w
}

/// Walks the tokens after the command word, collecting each flag's value.
fn collect_flags(args: &Vec<String>) -> (r: Result<
    (Option<String>, Option<String>, Option<String>, Option<String>),
    ArgError,
>)
    requires
        args@.len() >= 1,
    ensures
        match r {
            Ok(t) => spec_collect_flags(args.deep_view().skip(1), empty_flags())
                == Ok::<FlagSet, ArgError>(FlagSet {
                file: opt_view(t.0),
                chunk_type: opt_view(t.1),
                message: opt_view(t.2),
                output: opt_view(t.3),
            }),
            Err(e) => spec_collect_flags(args.deep_view().skip(1), empty_flags())
                == Err::<FlagSet, ArgError>(e),
        },
{
    let ghost toks = args.deep_view();
    let mut file: Option<String> = None;
    let mut chunk_type: Option<String> = None;
    let mut message: Option<String> = None;
    let mut output: Option<String> = None;
    let mut i: usize = 1;
    while i < args.len()
        invariant
            1 <= i <= args@.len(),
            toks == args.deep_view(),
            toks.len() == args@.len(),
            spec_collect_flags(toks.skip(1), empty_flags()) == spec_collect_flags(
                toks.skip(i as int),
                FlagSet {
                    file: opt_view(file),
                    chunk_type: opt_view(chunk_type),
                    message: opt_view(message),
                    output: opt_view(output),
                },
            ),
        decreases args@.len() - i,
    {
        let ghost s = toks.skip(i as int);
        let ghost acc = FlagSet {
            file: opt_view(file),
            chunk_type: opt_view(chunk_type),
            message: opt_view(message),
            output: opt_view(output),
        };
        if args.len() - i == 1 {
            return Err(ArgError::MissingValue);
        }
        proof {
            assert(s[0] == args@[i as int]@);
            assert(s[1] == args@[i + 1]@);
            assert(s.skip(2) =~= toks.skip(i + 2));
        }
        let f = &args[i];
        if flag_matches(f, "-f", "--file") {
            if file.is_some() {
                return Err(ArgError::DuplicateFlag);
            }
            file = Some(args[i + 1].clone());
        } else if flag_matches(f, "-c", "--chunk-type") {
            if chunk_type.is_some() {
                return Err(ArgError::DuplicateFlag);
            }
            chunk_type = Some(args[i + 1].clone());
        } else if flag_matches(f, "-m", "--message") {
            if message.is_some() {
                return Err(ArgError::DuplicateFlag);
            }
            message = Some(args[i + 1].clone());
        } else if flag_matches(f, "-o", "--output") {
            if output.is_some() {
                return Err(ArgError::DuplicateFlag);
            }
            output = Some(args[i + 1].clone());
        } else {
            return Err(ArgError::UnknownFlag);
        }
        i += 2;
    }
    proof {
        assert(toks.skip(i as int) =~= Seq::<Seq<char>>::empty());
    }
    Ok((file, chunk_type, message, output))
}

/// Parses a command line, the command word first and its flags after it,
/// exactly as [`spec_parse_args`] lays out.
pub fn parse_args(args: &Vec<String>) -> (r: Result<Args, ArgError>)
    ensures
        match r {
            Ok(a) => spec_parse_args(args.deep_view()) == Ok::<CommandsModel, ArgError>(a@),
            Err(e) => spec_parse_args(args.deep_view()) == Err::<CommandsModel, ArgError>(e),
        },
{
    let ghost toks = args.deep_view();
    if args.len() == 0 {
        return Err(ArgError::MissingCommand);
    }
    proof {
        assert(toks[0] == args@[0]@);
    }
    let cmd = &args[0];
    if word_matches(cmd, "encode") {
        let (file, chunk_type, message, output) = match collect_flags(args) {
            Ok(t) => t,
            Err(e) => {
                return Err(e);
            },
        };
        let file = match file {
            Some(f) => f,
            None => {
                return Err(ArgError::MissingFlag);
            },
        };
        let chunk_type = match chunk_type {
            Some(c) => c,
            None => {
                return Err(ArgError::MissingFlag);
            },
        };
        let message = match message {
            Some(m) => m,
            None => {
                return Err(ArgError::MissingFlag);
            },
        };
        Ok(Args { command: Commands::Encode { file, chunk_type, message, output } })
    } else if word_matches(cmd, "decode") {
        let (file, chunk_type, message, output) = match collect_flags(args) {
            Ok(t) => t,
            Err(e) => {
                return Err(e);
            },
        };
        if message.is_some() || output.is_some() {
            return Err(ArgError::UnexpectedFlag);
        }
        let file = match file {
            Some(f) => f,
            None => {
                return Err(ArgError::MissingFlag);
            },
        };
        let chunk_type = match chunk_type {
            Some(c) => c,
            None => {
                return Err(ArgError::MissingFlag);
            },
        };
        Ok(Args { command: Commands::Decode { file, chunk_type } })
    } else if word_matches(cmd, "remove") {
        let (file, chunk_type, message, output) = match collect_flags(args) {
            Ok(t) => t,
            Err(e) => {
                return Err(e);
            },
        };
        if message.is_some() || output.is_some() {
            return Err(ArgError::UnexpectedFlag);
        }
        let file = match file {
            Some(f) => f,
            None => {
                return Err(ArgError::MissingFlag);
            },
        };
        let chunk_type = match chunk_type {
            Some(c) => c,
            None => {
                return Err(ArgError::MissingFlag);
            },
        };
        Ok(Args { command: Commands::Remove { file, chunk_type } })
    } else if word_matches(cmd, "print") {
        let (file, chunk_type, message, output) = match collect_flags(args) {
            Ok(t) => t,
            Err(e) => {
                return Err(e);
            },
        };
        if chunk_type.is_some() || message.is_some() || output.is_some() {
            return Err(ArgError::UnexpectedFlag);
        }
        let file = match file {
            Some(f) => f,
            None => {
                return Err(ArgError::MissingFlag);
            },
        };
        Ok(Args { command: Commands::Print { file } })
    } else {
        Err(ArgError::UnknownCommand)
    }
}

} // verus!
