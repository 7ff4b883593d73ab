//! The command line: `-c <path>`, `--sleep_secs <n>`, `--animation_frames <n>`,
//! `--color <hex>`, `-V`/`--version` and `-h`/`--help`.

use vstd::prelude::*;
use crate::config::{CliOverrides, Settings, no_settings};
use crate::text::{chars_of, parse_unsigned, parse_unsigned_chars};

verus! {

/// What a run of the program was asked to do, before any configuration file is read.
pub struct Args {
    pub config_path: String,
    pub overrides: CliOverrides,
}

/// The outcome of reading the command line.
pub enum Command {
    /// Run with these arguments.
    Run(Args),
    /// Print the version and stop.
    ShowVersion,
    /// Print the usage text and stop.
    ShowHelp,
}

/// `Command` as mathematical values.
pub enum CommandModel {
    Run { config_path: Seq<char>, overrides: Settings },
    ShowVersion,
    ShowHelp,
}

impl View for Command {
    type V = CommandModel;

    open spec fn view(&self) -> CommandModel {
        match self {
            Command::Run(a) => CommandModel::Run {
                config_path: a.config_path@,
                overrides: a.overrides@,
            },
            Command::ShowVersion => CommandModel::ShowVersion,
            Command::ShowHelp => CommandModel::ShowHelp,
        }
    }
}

/// The outcome of reading the command line, as mathematical values.
pub open spec fn outcome_view(res: Result<Command, String>) -> Result<CommandModel, Seq<char>> {
    match res {
        Ok(c) => Ok(c@),
        Err(e) => Err(e@),
    }
}

/// Reading the arguments `args` from position `i` on, with the configuration path
/// `path` and the overrides `over` gathered so far. Options are read left to right;
/// an option that takes a value takes the next argument, whatever it is; a later
/// option overrides an earlier one; `-V`/`--version` and `-h`/`--help` end the
/// reading at once; the first problem met is the error.
pub open spec fn parse_args_from(
    args: Seq<Seq<char>>,
    i: int,
    path: Seq<char>,
    over: Settings,
) -> Result<CommandModel, Seq<char>>
    decreases args.len() - i,
{
    if i < 0 || i >= args.len() {
        Ok(CommandModel::Run { config_path: path, overrides: over })
    } else {
        let a = args[i];
        let has_value = i + 1 < args.len();
        if a == "-c"@ {
            if has_value {
                parse_args_from(args, i + 2, args[i + 1], over)
            } else {
                Err("-c requires a path"@)
            }
        } else if a == "--sleep_secs"@ {
            if !has_value {
                Err("--sleep_secs requires a value"@)
            } else {
                match parse_unsigned(args[i + 1], 10, u64::MAX as nat) {
                    Some(v) => parse_args_from(
                        args,
                        i + 2,
                        path,
                        Settings { sleep_secs: Some(v as u64), ..over },
                    ),
                    None => Err("--sleep_secs must be a number"@),
                }
            }
        } else if a == "--animation_frames"@ {
            if !has_value {
                Err("--animation_frames requires a value"@)
            } else {
                match parse_unsigned(args[i + 1], 10, u32::MAX as nat) {
                    Some(v) => parse_args_from(
                        args,
                        i + 2,
                        path,
                        Settings { animation_frames: Some(v as u32), ..over },
                    ),
                    None => Err("--animation_frames must be a number"@),
                }
            }
        } else if a == "--color"@ {
            if has_value {
                parse_args_from(args, i + 2, path, Settings { color: Some(args[i + 1]), ..over })
            } else {
                Err("--color requires a value"@)
            }
        } else if a == "--version"@ || a == "-V"@ {
            Ok(CommandModel::ShowVersion)
        } else if a == "--help"@ || a == "-h"@ {
            Ok(CommandModel::ShowHelp)
        } else {
            Err("unknown argument: "@ + a)
        }
    }
}

/// Reading the whole argument list, starting from the default configuration path.
pub open spec fn spec_parse_args(args: Seq<Seq<char>>, default_path: Seq<char>) -> Result<
    CommandModel,
    Seq<char>,
> {
    parse_args_from(args, 0, default_path, no_settings())
}

/// Whether `a` is exactly `lit`.
fn text_is(a: &String, lit: &str) -> (res: bool)
    ensures
        res == (a@ == lit@),
{
    *a == String::from_str(lit)
}

/// An error with the message `msg`.
fn error_text(msg: &str) -> (res: String)
    ensures
        res@ == msg@,
{
    String::from_str(msg)
}

/// Reads the program's arguments (without the program's own name), starting
/// from `default_config_path` as the configuration path.
pub fn parse_args(args: &Vec<String>, default_config_path: String) -> (res: Result<
    Command,
    String,
>)
    ensures
        outcome_view(res) == spec_parse_args(args.deep_view(), default_config_path@),
{
    let ghost all = args.deep_view();
    let n = args.len();
    let mut config_path = default_config_path;
    let mut overrides = CliOverrides::default();
    let mut i: usize = 0;
    while i < n
        invariant
            n == args@.len(),
            all == args.deep_view(),
            i <= n,
            spec_parse_args(all, default_config_path@) == parse_args_from(
                all,
                i as int,
                config_path@,
                overrides@,
            ),
        decreases n - i,
    {
        let a = &args[i];
        assert(all[i as int] == a@);
        let has_value = i + 1 < n;
        if has_value {
            assert(all[i + 1] == args@[i + 1]@);
        }
        if text_is(a, "-c") {
            if !has_value {
                return Err(error_text("-c requires a path"));
            }
            config_path = args[i + 1].clone();
        } else if text_is(a, "--sleep_secs") {
            if !has_value {
                return Err(error_text("--sleep_secs requires a value"));
            }
            let cs = chars_of(args[i + 1].as_str());
            match parse_unsigned_chars(cs.as_slice(), 10, u64::MAX) {
                Some(v) => {
                    overrides.sleep_secs = Some(v);
                },
                None => {
                    return Err(error_text("--sleep_secs must be a number"));
                },
            }
        } else if text_is(a, "--animation_frames") {
            if !has_value {
                return Err(error_text("--animation_frames requires a value"));
            }
            let cs = chars_of(args[i + 1].as_str());
            match parse_unsigned_chars(cs.as_slice(), 10, 0xFFFF_FFFF) {
                Some(v) => {
                    overrides.animation_frames = Some(v as u32);
                },
                None => {
                    return Err(error_text("--animation_frames must be a number"));
                },
            }
        } else if text_is(a, "--color") {
            if !has_value {
                return Err(error_text("--color requires a value"));
            }
            overrides.color = Some(args[i + 1].clone());
        } else if text_is(a, "--version") || text_is(a, "-V") {
            return Ok(Command::ShowVersion);
        } else if text_is(a, "--help") || text_is(a, "-h") {
            return Ok(Command::ShowHelp);
        } else {
            let mut msg = String::from_str("unknown argument: ");
            msg.append(a.as_str());
            return Err(msg);
        }
        i = i + 2;
    }
    Ok(Command::Run(Args { config_path, overrides }))
}


/// Without arguments the program runs with the default configuration path and no overrides.
pub proof fn law_no_arguments(default_path: Seq<char>)
    ensures
        spec_parse_args(Seq::empty(), default_path) == Ok::<CommandModel, Seq<char>>(
            CommandModel::Run { config_path: default_path, overrides: no_settings() },
        ),
{
}

/// An option that takes a value: `-c`, `--sleep_secs`, `--animation_frames` or `--color`.
pub open spec fn takes_value(a: Seq<char>) -> bool {
    a == "-c"@ || a == "--sleep_secs"@ || a == "--animation_frames"@ || a == "--color"@
}

/// The value after the last occurrence of the option `opt` among the option
/// positions `i`, `i + 2`, `i + 4`, ... of `args`, if it occurs there with a value.
pub open spec fn last_value_from(args: Seq<Seq<char>>, opt: Seq<char>, i: int) -> Option<
    Seq<char>,
>
    decreases args.len() - i,
{
    if i < 0 || i + 1 >= args.len() {
        None
    } else {
        match last_value_from(args, opt, i + 2) {
            Some(v) => Some(v),
            None => if args[i] == opt {
                Some(args[i + 1])
            } else {
                None
            },
        }
    }
}

/// The four options that take a value have different names.
proof fn lemma_value_options_differ()
    ensures
        "-c"@ != "--sleep_secs"@,
        "-c"@ != "--animation_frames"@,
        "-c"@ != "--color"@,
        "--sleep_secs"@ != "--animation_frames"@,
        "--sleep_secs"@ != "--color"@,
        "--animation_frames"@ != "--color"@,
{
    reveal_strlit("-c");
    reveal_strlit("--sleep_secs");
    reveal_strlit("--animation_frames");
    reveal_strlit("--color");
    assert("-c"@.len() == 2);
    assert("--sleep_secs"@.len() == 12);
    assert("--animation_frames"@.len() == 18);
    assert("--color"@.len() == 7);
}

/// What a successful reading from position `i` on consists of, and what it gives.
proof fn lemma_run_from(
    args: Seq<Seq<char>>,
    i: int,
    path0: Seq<char>,
    over0: Settings,
    path: Seq<char>,
    over: Settings,
)
    requires
        0 <= i <= args.len(),
        parse_args_from(args, i, path0, over0) == Ok::<CommandModel, Seq<char>>(
            CommandModel::Run { config_path: path, overrides: over },
        ),
    ensures
        (args.len() - i) % 2 == 0,
        forall|k: int|
            i <= k < args.len() && (k - i) % 2 == 0 ==> #[trigger] takes_value(args[k]),
        forall|k: int|
            i <= k < args.len() && (k - i) % 2 == 0 && args[k] == "--sleep_secs"@ ==> parse_unsigned(
                #[trigger] args[k + 1],
                10,
                u64::MAX as nat,
            ) is Some,
        forall|k: int|
            i <= k < args.len() && (k - i) % 2 == 0 && args[k] == "--animation_frames"@
                ==> parse_unsigned(#[trigger] args[k + 1], 10, u32::MAX as nat) is Some,
        path == match last_value_from(args, "-c"@, i) {
            Some(p) => p,
            None => path0,
        },
        over.sleep_secs == match last_value_from(args, "--sleep_secs"@, i) {
            Some(t) => Some(parse_unsigned(t, 10, u64::MAX as nat)->0 as u64),
            None => over0.sleep_secs,
        },
        over.animation_frames == match last_value_from(args, "--animation_frames"@, i) {
            Some(t) => Some(parse_unsigned(t, 10, u32::MAX as nat)->0 as u32),
            None => over0.animation_frames,
        },
        over.color == match last_value_from(args, "--color"@, i) {
            Some(t) => Some(t),
            None => over0.color,
        },
    decreases args.len() - i,
{
    lemma_value_options_differ();
    if i < args.len() {
        let a = args[i];
        if a == "-c"@ {
            lemma_run_from(args, i + 2, args[i + 1], over0, path, over);
        } else if a == "--sleep_secs"@ {
            let v = parse_unsigned(args[i + 1], 10, u64::MAX as nat)->0;
            lemma_run_from(
                args,
                i + 2,
                path0,
                Settings { sleep_secs: Some(v as u64), ..over0 },
                path,
                over,
            );
        } else if a == "--animation_frames"@ {
            let v = parse_unsigned(args[i + 1], 10, u32::MAX as nat)->0;
            lemma_run_from(
                args,
                i + 2,
                path0,
                Settings { animation_frames: Some(v as u32), ..over0 },
                path,
                over,
            );
        } else if a == "--color"@ {
            lemma_run_from(
                args,
                i + 2,
                path0,
                Settings { color: Some(args[i + 1]), ..over0 },
                path,
                over,
            );
        }
        assert forall|k: int|
            i <= k < args.len() && (k - i) % 2 == 0 implies #[trigger] takes_value(args[k]) by {
            if k > i {
                assert((k - (i + 2)) % 2 == 0);
            }
        }
        assert forall|k: int|
            i <= k < args.len() && (k - i) % 2 == 0 && args[k] == "--sleep_secs"@ implies parse_unsigned(
            #[trigger] args[k + 1],
            10,
            u64::MAX as nat,
        ) is Some by {
            if k > i {
                assert((k - (i + 2)) % 2 == 0);
            }
        }
        assert forall|k: int|
            i <= k < args.len() && (k - i) % 2 == 0 && args[k] == "--animation_frames"@ implies parse_unsigned(
            #[trigger] args[k + 1],
            10,
            u32::MAX as nat,
        ) is Some by {
            if k > i {
                assert((k - (i + 2)) % 2 == 0);
            }
        }
    }
}

/// A command line that reads successfully into a run consists only of the
/// options `-c`, `--sleep_secs`, `--animation_frames` and `--color`, each
/// followed by its value, with every number valid. The configuration path is
/// the value after the last `-c` (the default without one); each override is
/// set exactly when its option occurs, from the value after its last occurrence.
pub proof fn law_successful_command_line(
    args: Seq<Seq<char>>,
    default_path: Seq<char>,
    path: Seq<char>,
    over: Settings,
)
    requires
        spec_parse_args(args, default_path) == Ok::<CommandModel, Seq<char>>(
            CommandModel::Run { config_path: path, overrides: over },
        ),
    ensures
        args.len() % 2 == 0,
        forall|k: int| 0 <= k < args.len() && k % 2 == 0 ==> #[trigger] takes_value(args[k]),
        forall|k: int|
            0 <= k < args.len() && k % 2 == 0 && args[k] == "--sleep_secs"@ ==> parse_unsigned(
                #[trigger] args[k + 1],
                10,
                u64::MAX as nat,
            ) is Some,
        forall|k: int|
            0 <= k < args.len() && k % 2 == 0 && args[k] == "--animation_frames"@ ==> parse_unsigned(
                #[trigger] args[k + 1],
                10,
                u32::MAX as nat,
            ) is Some,
        path == match last_value_from(args, "-c"@, 0) {
            Some(p) => p,
            None => default_path,
        },
        over.sleep_secs == match last_value_from(args, "--sleep_secs"@, 0) {
            Some(t) => Some(parse_unsigned(t, 10, u64::MAX as nat)->0 as u64),
            None => None,
        },
        over.animation_frames == match last_value_from(args, "--animation_frames"@, 0) {
            Some(t) => Some(parse_unsigned(t, 10, u32::MAX as nat)->0 as u32),
            None => None,
        },
        over.color == last_value_from(args, "--color"@, 0),
{
    lemma_run_from(args, 0, default_path, no_settings(), path, over);
}

/// The arguments at the option positions `j`, `j + 2`, ... before `i` are
/// all options that take a value, each followed by its value, with every
/// number valid: reading them cannot fail or stop.
pub open spec fn well_formed_pairs(args: Seq<Seq<char>>, j: int, i: int) -> bool {
    &&& 0 <= j <= i <= args.len()
    &&& (i - j) % 2 == 0
    &&& forall|k: int|
        j <= k < i && (k - j) % 2 == 0 ==> {
            &&& #[trigger] takes_value(args[k])
            &&& args[k] == "--sleep_secs"@ ==> parse_unsigned(args[k + 1], 10, u64::MAX as nat)
                is Some
            &&& args[k] == "--animation_frames"@ ==> parse_unsigned(
                args[k + 1],
                10,
                u32::MAX as nat,
            ) is Some
        }
}

/// After well-formed options, reading goes on at position `i` whatever
/// was gathered: a version or help flag there is answered the same way.
proof fn lemma_reaches(
    args: Seq<Seq<char>>,
    j: int,
    i: int,
    path0: Seq<char>,
    over0: Settings,
    answer: CommandModel,
)
    requires
        well_formed_pairs(args, j, i),
        forall|p: Seq<char>, o: Settings|
            #[trigger] parse_args_from(args, i, p, o) == Ok::<CommandModel, Seq<char>>(answer),
    ensures
        parse_args_from(args, j, path0, over0) == Ok::<CommandModel, Seq<char>>(answer),
    decreases i - j,
{
    lemma_value_options_differ();
    if j < i {
        assert(takes_value(args[j]));
        assert(j + 1 < i) by {
            assert((i - j) % 2 == 0);
        }
        assert(well_formed_pairs(args, j + 2, i)) by {
            assert forall|k: int| j + 2 <= k < i && (k - (j + 2)) % 2 == 0 implies {
                &&& #[trigger] takes_value(args[k])
                &&& args[k] == "--sleep_secs"@ ==> parse_unsigned(
                    args[k + 1],
                    10,
                    u64::MAX as nat,
                ) is Some
                &&& args[k] == "--animation_frames"@ ==> parse_unsigned(
                    args[k + 1],
                    10,
                    u32::MAX as nat,
                ) is Some
            } by {
                assert((k - j) % 2 == 0);
            }
        }
        let a = args[j];
        if a == "-c"@ {
            lemma_reaches(args, j + 2, i, args[j + 1], over0, answer);
        } else if a == "--sleep_secs"@ {
            let v = parse_unsigned(args[j + 1], 10, u64::MAX as nat)->0;
            lemma_reaches(args, j + 2, i, path0, Settings { sleep_secs: Some(v as u64), ..over0 }, answer);
        } else if a == "--animation_frames"@ {
            let v = parse_unsigned(args[j + 1], 10, u32::MAX as nat)->0;
            lemma_reaches(
                args,
                j + 2,
                i,
                path0,
                Settings { animation_frames: Some(v as u32), ..over0 },
                answer,
            );
        } else {
            lemma_reaches(args, j + 2, i, path0, Settings { color: Some(args[j + 1]), ..over0 }, answer);
        }
    } else {
        assert(parse_args_from(args, i, path0, over0) == Ok::<CommandModel, Seq<char>>(answer));
    }
}

/// A version or help flag is answered wherever it stands, once the options
/// before it have read well: `-V`/`--version` asks for the version and
/// `-h`/`--help` for the usage text, whatever follows.
pub proof fn law_version_or_help_anywhere(args: Seq<Seq<char>>, i: int, default_path: Seq<char>)
    requires
        well_formed_pairs(args, 0, i),
        i < args.len(),
    ensures
        (args[i] == "--version"@ || args[i] == "-V"@) ==> spec_parse_args(args, default_path)
            == Ok::<CommandModel, Seq<char>>(CommandModel::ShowVersion),
        (args[i] == "--help"@ || args[i] == "-h"@) ==> spec_parse_args(args, default_path)
            == Ok::<CommandModel, Seq<char>>(CommandModel::ShowHelp),
{
    reveal_strlit("-c");
    reveal_strlit("--sleep_secs");
    reveal_strlit("--animation_frames");
    reveal_strlit("--color");
    reveal_strlit("--version");
    reveal_strlit("-V");
    reveal_strlit("--help");
    reveal_strlit("-h");
    assert("-V"@[1] != "-c"@[1]);
    assert("--version"@[2] != "--color"@[2]);
    assert("-h"@[1] != "-c"@[1]);
    assert("-h"@[1] != "-V"@[1]);
    assert("--help"@[2] != "--color"@[2]);
    assert("--help"@.len() != "--version"@.len());
    if args[i] == "--version"@ || args[i] == "-V"@ {
        assert forall|p: Seq<char>, o: Settings|
            #[trigger] parse_args_from(args, i, p, o) == Ok::<CommandModel, Seq<char>>(
                CommandModel::ShowVersion,
            ) by {}
        lemma_reaches(args, 0, i, default_path, no_settings(), CommandModel::ShowVersion);
    }
    if args[i] == "--help"@ || args[i] == "-h"@ {
        assert forall|p: Seq<char>, o: Settings|
            #[trigger] parse_args_from(args, i, p, o) == Ok::<CommandModel, Seq<char>>(
                CommandModel::ShowHelp,
            ) by {}
        lemma_reaches(args, 0, i, default_path, no_settings(), CommandModel::ShowHelp);
    }
}

/// A version flag in first place asks for the version, whatever follows it.
pub proof fn law_version_first(rest: Seq<Seq<char>>, default_path: Seq<char>)
    ensures
        spec_parse_args(seq!["-V"@] + rest, default_path) == Ok::<CommandModel, Seq<char>>(
            CommandModel::ShowVersion,
        ),
        spec_parse_args(seq!["--version"@] + rest, default_path) == Ok::<CommandModel, Seq<char>>(
            CommandModel::ShowVersion,
        ),
{
    reveal_strlit("-c");
    reveal_strlit("--sleep_secs");
    reveal_strlit("--animation_frames");
    reveal_strlit("--color");
    reveal_strlit("--version");
    reveal_strlit("-V");
    assert((seq!["-V"@] + rest)[0] == "-V"@);
    assert((seq!["--version"@] + rest)[0] == "--version"@);
    assert("-V"@[1] != "-c"@[1]);
    assert("--version"@[2] != "--color"@[2]);
}

/// An argument that is no option makes the whole command line fail, naming that argument.
pub proof fn law_unknown_argument_first(a: Seq<char>, rest: Seq<Seq<char>>, default_path: Seq<char>)
    requires
        a != "-c"@,
        a != "--sleep_secs"@,
        a != "--animation_frames"@,
        a != "--color"@,
        a != "--version"@,
        a != "-V"@,
        a != "--help"@,
        a != "-h"@,
    ensures
        spec_parse_args(seq![a] + rest, default_path) == Err::<CommandModel, Seq<char>>(
            "unknown argument: "@ + a,
        ),
{
    assert((seq![a] + rest)[0] == a);
}

/// A help flag in first place asks for the usage text, whatever follows it.
pub proof fn law_help_first(rest: Seq<Seq<char>>, default_path: Seq<char>)
    ensures
        spec_parse_args(seq!["-h"@] + rest, default_path) == Ok::<CommandModel, Seq<char>>(
            CommandModel::ShowHelp,
        ),
        spec_parse_args(seq!["--help"@] + rest, default_path) == Ok::<CommandModel, Seq<char>>(
            CommandModel::ShowHelp,
        ),
{
    reveal_strlit("-h");
    reveal_strlit("--help");
    reveal_strlit("-c");
    reveal_strlit("--sleep_secs");
    reveal_strlit("--animation_frames");
    reveal_strlit("--color");
    reveal_strlit("--version");
    reveal_strlit("-V");
    assert((seq!["-h"@] + rest)[0] == "-h"@);
    assert((seq!["--help"@] + rest)[0] == "--help"@);
    assert("-h"@[1] != "-c"@[1]);
    assert("-h"@[1] != "-V"@[1]);
    assert("--help"@[2] != "--color"@[2]);
    assert("--help"@.len() != "--version"@.len());
}

} // verus!
