//! Start-up settings: command-line flags with an environment and a built-in
//! fallback.

use vstd::prelude::*;

verus! {

/// Port of the HTTP control API.
pub const SERVER_PORT: u16 = 8080;

/// A command-line option with its long and short spelling.
#[derive(Debug, Clone, PartialEq, Eq)]
pub struct Arg {
    pub long: String,
    pub short: String,
}

/// The value that follows the first occurrence of `long` or `short` in
/// `args`, searching from position `i`; position 0 (the program name) is
/// never searched by callers, and an option in the last position has no value.
pub open spec fn flag_value_from(
    args: Seq<String>,
    long: Seq<char>,
    short: Seq<char>,
    i: int,
) -> Option<Seq<char>>
    decreases args.len() - i,
{
    if i < 0 || i + 1 >= args.len() {
        None
    } else if args[i]@ == long || args[i]@ == short {
        Some(args[i + 1]@)
    } else {
        flag_value_from(args, long, short, i + 1)
    }
}

/// The value given to option `arg` in the argument list `args` (program name first).
pub open spec fn flag_value(args: Seq<String>, arg: Arg) -> Option<Seq<char>> {
    flag_value_from(args, arg.long@, arg.short@, 1)
}

/// First non-empty choice of command line, environment and default.
pub open spec fn setting(cli: Option<Seq<char>>, env: Option<Seq<char>>, default: Seq<char>) -> Seq<
    char,
> {
    match cli {
        Some(v) => v,
        None => match env {
            Some(e) => e,
            None => default,
        },
    }
}

/// The text of an optional string.
pub open spec fn opt_view(o: Option<String>) -> Option<Seq<char>> {
    match o {
        Some(v) => Some(v@),
        None => None,
    }
}

/// Looks up the value of option `arg` in `args` (the full argument list,
/// program name first): the argument after the first occurrence of its long
/// or short spelling.
pub fn find_arg(args: &Vec<String>, arg: &Arg) -> (r: Option<String>)
    ensures
        match r {
            Some(v) => flag_value(args@, *arg) == Some(v@),
            None => flag_value(args@, *arg) is None,
        },
{
    let len: usize = args.len();
    let mut i: usize = 1;
    while i < len
        invariant
            len == args.len(),
            1 <= i,
            flag_value(args@, *arg) == flag_value_from(args@, arg.long@, arg.short@, i as int),
        decreases len - i,
    {
        if (args[i] == arg.long || args[i] == arg.short) && i + 1 < len {
            return Some(args[i + 1].clone());
        }
        i += 1;
    }
    None
}

/// Chooses a setting: the command-line value, else the environment value,
/// else `default`.
pub fn resolve_setting(cli: Option<String>, env: Option<String>, default: &str) -> (r: String)
    ensures
        r@ == setting(opt_view(cli), opt_view(env), default@),
{
    match cli {
        Some(v) => v,
        None => match env {
            Some(e) => e,
            None => String::from_str(default),
        },
    }
}

/// Path of the FIFO the processed audio is written to: `--fifo`/`-f`, else
/// the `FIFO_PATH` environment value `env`, else `/tmp/spotify_fifo`.
pub fn fifo_path(args: &Vec<String>, env: Option<String>) -> (r: String)
    ensures
        r@ == setting(
            flag_value_from(args@, "--fifo"@, "-f"@, 1),
            opt_view(env),
            "/tmp/spotify_fifo"@,
        ),
{
    let config = Arg { long: String::from_str("--fifo"), short: String::from_str("-f") };
    resolve_setting(find_arg(args, &config), env, "/tmp/spotify_fifo")
}

/// Name under which the Spotify Connect device announces itself:
/// `--connect-name`/`-n`, else the `CONNECT_NAME` environment value `env`,
/// else `spotify_connect`.
pub fn connect_name(args: &Vec<String>, env: Option<String>) -> (r: String)
    ensures
        r@ == setting(
            flag_value_from(args@, "--connect-name"@, "-n"@, 1),
            opt_view(env),
            "spotify_connect"@,
        ),
{
    let config = Arg { long: String::from_str("--connect-name"), short: String::from_str("-n") };
    resolve_setting(find_arg(args, &config), env, "spotify_connect")
}

proof fn lemma_flag_value_from(args: Seq<String>, long: Seq<char>, short: Seq<char>, i: int)
    requires
        0 <= i,
    ensures
        match flag_value_from(args, long, short, i) {
            Some(v) => exists|k: int|
                #![trigger args[k]]
                i <= k && k + 1 < args.len() && (args[k]@ == long || args[k]@ == short) && args[k
                    + 1]@ == v && forall|m: int|
                    i <= m < k ==> !(args[m]@ == long || args[m]@ == short),
            None => forall|m: int|
                i <= m && m + 1 < args.len() ==> !(#[trigger] args[m]@ == long || args[m]@ == short),
        },
    decreases args.len() - i,
{
    if i + 1 >= args.len() {
    } else if args[i]@ == long || args[i]@ == short {
        assert(args[i] == args[i]);
    } else {
        lemma_flag_value_from(args, long, short, i + 1);
    }
}

/// The value found for an option is the argument right after the first
/// occurrence (past the program name) of its long or short spelling; when
/// none is found, no such occurrence is followed by another argument.
pub proof fn law_flag_value_follows_first_flag(args: Seq<String>, arg: Arg)
    ensures
        match flag_value(args, arg) {
            Some(v) => exists|k: int|
                #![trigger args[k]]
                1 <= k && k + 1 < args.len() && (args[k]@ == arg.long@ || args[k]@ == arg.short@)
                    && args[k + 1]@ == v && forall|m: int|
                    1 <= m < k ==> !(args[m]@ == arg.long@ || args[m]@ == arg.short@),
            None => forall|m: int|
                1 <= m && m + 1 < args.len() ==> !(#[trigger] args[m]@ == arg.long@ || args[m]@
                    == arg.short@),
        },
{
    lemma_flag_value_from(args, arg.long@, arg.short@, 1);
}

/// A value given on the command line wins; without one the environment's
/// value is used; without either, the default.
pub proof fn law_setting_precedence(cli: Seq<char>, env: Option<Seq<char>>, default: Seq<char>, e: Seq<char>)
    ensures
        setting(Some(cli), env, default) == cli,
        setting(None, Some(e), default) == e,
        setting(None, None, default) == default,
{
}

/// An absent string has no text; a present one has its own.
pub proof fn law_opt_view(s: String)
    ensures
        opt_view(Some(s)) == Some(s@),
        opt_view(None) == None::<Seq<char>>,
{
}

} // verus!
