//! The command line of the application.

use vstd::prelude::*;
use crate::installer::{event_of_flag, SquirrelEvent};
use crate::paths::{join, path_join};
use crate::text::{chars_of, owned, push_str, starts_with, str_eq, string_of_range};

verus! {

/// The options the application runs with.
#[derive(Debug)]
pub struct CliOptions {
    pub config_path: String,
    pub tray_enabled: bool,
    pub debug_terminal: bool,
    pub print_version: bool,
    pub squirrel_event: Option<SquirrelEvent>,
}

/// The flags of a command line, before the configuration path is resolved.
pub struct CliFlags {
    pub tray_enabled: bool,
    pub debug_terminal: bool,
    pub print_version: bool,
    pub squirrel_event: Option<SquirrelEvent>,
    pub config_arg: Option<Seq<char>>,
}

/// The flags before any argument.
pub open spec fn initial_flags() -> CliFlags {
    CliFlags {
        tray_enabled: true,
        debug_terminal: false,
        print_version: false,
        squirrel_event: None,
        config_arg: None,
    }
}

/// The flags after reading one more argument, or why it is refused.
pub open spec fn read_arg(f: CliFlags, arg: Seq<char>) -> Result<CliFlags, Seq<char>> {
    if arg == "--no-tray"@ {
        Ok(CliFlags { tray_enabled: false, ..f })
    } else if arg == "--debug"@ {
        Ok(CliFlags { debug_terminal: true, ..f })
    } else if arg == "--version"@ {
        Ok(CliFlags { print_version: true, ..f })
    } else if event_of_flag(arg) is Some {
        if f.squirrel_event is Some {
            Err("only one squirrel lifecycle flag is supported"@)
        } else {
            Ok(CliFlags { squirrel_event: event_of_flag(arg), ..f })
        }
    } else if arg.len() > 0 && arg[0] == '-' {
        Err("unknown flag: "@ + arg)
    } else if f.config_arg is Some {
        Err("only one config path positional argument is supported"@)
    } else {
        Ok(CliFlags { config_arg: Some(arg), ..f })
    }
}

/// The flags of a command line, arguments read in order; the first refused
/// argument fails the whole line.
pub open spec fn read_args(args: Seq<Seq<char>>) -> Result<CliFlags, Seq<char>>
    decreases args.len(),
{
    if args.len() == 0 {
        Ok(initial_flags())
    } else {
        match read_args(args.drop_last()) {
            Ok(f) => read_arg(f, args.last()),
            Err(e) => Err(e),
        }
    }
}

/// Whether a path starts with the home directory shorthand.
pub open spec fn is_tilde(path: Seq<char>) -> bool {
    path == "~"@ || starts_with(path, "~/"@) || starts_with(path, "~\\"@)
}

/// A path with a leading `~` replaced by the home directory, or `None` when
/// one is needed and unknown.
pub open spec fn expanded(path: Seq<char>, home: Option<Seq<char>>, sep: char) -> Option<Seq<char>> {
    if is_tilde(path) {
        match home {
            None => None,
            Some(h) => if path == "~"@ {
                Some(h)
            } else {
                Some(join(h, path.subrange(2, path.len() as int), sep))
            },
        }
    } else {
        Some(path)
    }
}

/// The configuration file used when none is given: `~/.config/aura.hcl`.
pub open spec fn default_config(home: Option<Seq<char>>, sep: char) -> Option<Seq<char>> {
    match home {
        None => None,
        Some(h) => Some(join(join(h, ".config"@, sep), "aura.hcl"@, sep)),
    }
}

/// The configuration path of parsed flags: with `--version`, the given path
/// or none; otherwise the given path, or the default.
pub open spec fn config_path_of(f: CliFlags, home: Option<Seq<char>>, sep: char) -> Option<Seq<char>> {
    match f.config_arg {
        Some(a) => expanded(a, home, sep),
        None => if f.print_version {
            Some(Seq::empty())
        } else {
            default_config(home, sep)
        },
    }
}

/// The message of a command line that needs the unknown home directory.
pub open spec fn no_home() -> Seq<char> {
    "failed to resolve home directory"@
}

/// Whether `r` holds the options of the flags `f` with configuration path
/// `path`.
pub open spec fn options_of(r: CliOptions, f: CliFlags, path: Seq<char>) -> bool {
    &&& r.config_path@ == path
    &&& r.tray_enabled == f.tray_enabled
    &&& r.debug_terminal == f.debug_terminal
    &&& r.print_version == f.print_version
    &&& r.squirrel_event == f.squirrel_event
}

/// Whether `r` is what parsing `args` gives with home directory `home` and
/// path separator `sep`: the first refusal of an argument, the missing home
/// directory when one is needed, or the options.
pub open spec fn parsed_with(
    args: Seq<Seq<char>>,
    home: Option<Seq<char>>,
    sep: char,
    r: Result<CliOptions, String>,
) -> bool {
    match read_args(args) {
        Err(e) => r matches Err(m) && m@ == e,
        Ok(f) => match config_path_of(f, home, sep) {
            Some(p) => r matches Ok(o) && options_of(o, f, p),
            None => r matches Err(m) && m@ == no_home(),
        },
    }
}

/// The exec form of [`CliFlags`].
struct Flags {
    tray_enabled: bool,
    debug_terminal: bool,
    print_version: bool,
    squirrel_event: Option<SquirrelEvent>,
    config_arg: Option<String>,
}

impl View for Flags {
    type V = CliFlags;

    closed spec fn view(&self) -> CliFlags {
        CliFlags {
            tray_enabled: self.tray_enabled,
            debug_terminal: self.debug_terminal,
            print_version: self.print_version,
            squirrel_event: self.squirrel_event,
            config_arg: match self.config_arg {
                Some(a) => Some(a@),
                None => None,
            },
        }
    }
}

fn parse_flags(args: &Vec<String>) -> (r: Result<Flags, String>)
    ensures
        match r {
            Ok(f) => read_args(args.deep_view()) == Ok::<CliFlags, Seq<char>>(f@),
            Err(e) => read_args(args.deep_view()) == Err::<CliFlags, Seq<char>>(e@),
        },
{
    proof {
        reveal_strlit("--no-tray");
        reveal_strlit("--debug");
        reveal_strlit("--version");
        reveal_strlit("only one squirrel lifecycle flag is supported");
        reveal_strlit("unknown flag: ");
        reveal_strlit("only one config path positional argument is supported");
    }
    let mut f = Flags {
        tray_enabled: true,
        debug_terminal: false,
        print_version: false,
        squirrel_event: None,
        config_arg: None,
    };
    let mut i: usize = 0;
    assert(args.deep_view().subrange(0, 0) =~= Seq::<Seq<char>>::empty());
    while i < args.len()
        invariant
            i <= args.len(),
            read_args(args.deep_view().subrange(0, i as int)) == Ok::<CliFlags, Seq<char>>(f@),
        decreases args.len() - i,
    {
        let ghost pre = args.deep_view().subrange(0, i as int);
        let ghost cur = args.deep_view().subrange(0, i + 1);
        assert(cur.drop_last() =~= pre);
        assert(cur.last() == args[i as int]@);
        let arg = args[i].as_str();
        if str_eq(arg, "--no-tray") {
            f.tray_enabled = false;
        } else if str_eq(arg, "--debug") {
            f.debug_terminal = true;
        } else if str_eq(arg, "--version") {
            f.print_version = true;
        } else if let Some(event) = SquirrelEvent::from_flag(arg) {
            if f.squirrel_event.is_some() {
                proof {
                    lemma_read_args_error(args.deep_view(), i as int);
                }
                return Err(owned("only one squirrel lifecycle flag is supported"));
            }
            f.squirrel_event = Some(event);
        } else {
            let chars = chars_of(arg);
            if chars.len() > 0 && chars[0] == '-' {
                let mut msg = owned("unknown flag: ");
                push_str(&mut msg, arg);
                proof {
                    lemma_read_args_error(args.deep_view(), i as int);
                }
                return Err(msg);
            }
            if f.config_arg.is_some() {
                proof {
                    lemma_read_args_error(args.deep_view(), i as int);
                }
                return Err(owned("only one config path positional argument is supported"));
            }
            f.config_arg = Some(owned(arg));
        }
        i += 1;
    }
    assert(args.deep_view().subrange(0, args.len() as int) =~= args.deep_view());
    Ok(f)
}

/// A refusal at argument `i` is the refusal of the whole line.
proof fn lemma_read_args_error(args: Seq<Seq<char>>, i: int)
    requires
        0 <= i < args.len(),
        read_args(args.subrange(0, i + 1)) is Err,
    ensures
        read_args(args) == read_args(args.subrange(0, i + 1)),
    decreases args.len() - i,
{
    if i + 1 < args.len() {
        assert(args.drop_last().subrange(0, i + 1) =~= args.subrange(0, i + 1));
        lemma_read_args_error(args.drop_last(), i);
    } else {
        assert(args.subrange(0, i + 1) =~= args);
    }
}

/// Replaces a leading `~` by the home directory.
pub fn expand_tilde(path: &str, home: Option<&str>, sep: char) -> (r: Result<String, String>)
    ensures
        match r {
            Ok(p) => expanded(path@, opt_str(home), sep) == Some(p@),
            Err(e) => expanded(path@, opt_str(home), sep) is None && e@ == no_home(),
        },
{
    proof {
        reveal_strlit("~");
        reveal_strlit("~/");
        reveal_strlit("~\\");
        reveal_strlit("failed to resolve home directory");
    }
    let tilde = str_eq(path, "~") || crate::text::str_starts_with(path, "~/")
        || crate::text::str_starts_with(path, "~\\");
    if !tilde {
        return Ok(owned(path));
    }
    let h = match home {
        Some(h) => h,
        None => return Err(owned("failed to resolve home directory")),
    };
    if str_eq(path, "~") {
        return Ok(owned(h));
    }
    let chars = chars_of(path);
    let suffix = string_of_range(&chars, 2, chars.len());
    Ok(path_join(h, suffix.as_str(), sep))
}

/// The view of an optional string slice.
pub open spec fn opt_str(o: Option<&str>) -> Option<Seq<char>> {
    match o {
        Some(s) => Some(s@),
        None => None,
    }
}

/// The default configuration file below the home directory.
pub fn default_user_config_path(home: Option<&str>, sep: char) -> (r: Result<String, String>)
    ensures
        match r {
            Ok(p) => default_config(opt_str(home), sep) == Some(p@),
            Err(e) => default_config(opt_str(home), sep) is None && e@ == no_home(),
        },
{
    proof {
        reveal_strlit("failed to resolve home directory");
    }
    match home {
        Some(h) => {
            let c = path_join(h, ".config", sep);
            Ok(path_join(c.as_str(), "aura.hcl", sep))
        },
        None => Err(owned("failed to resolve home directory")),
    }
}

/// Parses the command line (without the program name), given the home
/// directory and the platform's path separator.
pub fn parse_cli_options_with_home(args: &Vec<String>, home: Option<&str>, sep: char) -> (r: Result<
    CliOptions,
    String,
>)
    ensures
        parsed_with(args.deep_view(), opt_str(home), sep, r),
{
    let f = match parse_flags(args) {
        Ok(f) => f,
        Err(e) => return Err(e),
    };
    let config_path = match &f.config_arg {
        Some(a) => match expand_tilde(a.as_str(), home, sep) {
            Ok(p) => p,
            Err(e) => return Err(e),
        },
        None => if f.print_version {
            String::new()
        } else {
            match default_user_config_path(home, sep) {
                Ok(p) => p,
                Err(e) => return Err(e),
            }
        },
    };
    Ok(
        CliOptions {
            config_path,
            tray_enabled: f.tray_enabled,
            debug_terminal: f.debug_terminal,
            print_version: f.print_version,
            squirrel_event: f.squirrel_event,
        },
    )
}

/// The current user's home directory (`dirs::home_dir`), as text (any
/// part that is not valid Unicode replaced, `to_string_lossy`); none when
/// it is unknown. It depends on the environment.
#[verifier::external_body]
fn home_dir() -> Option<String> {
    dirs::home_dir().map(|p| p.to_string_lossy().into_owned())
}

/// Parses the command line (without the program name). The home
/// directory is looked up; with any home directory, the result is that of
/// [`parse_cli_options_with_home`] under the platform separator.
pub fn parse_cli_options(args: &Vec<String>) -> (r: Result<CliOptions, String>)
    ensures
        exists|home: Option<Seq<char>>, sep: char|
            (sep == '/' || sep == '\\') && #[trigger] parsed_with(args.deep_view(), home, sep, r),
{
    let home = home_dir();
    let sep = crate::paths::main_separator();
    let h: Option<&str> = match &home {
        Some(s) => Some(s.as_str()),
        None => None,
    };
    let r = parse_cli_options_with_home(args, h, sep);
    assert(parsed_with(args.deep_view(), opt_str(h), sep, r));
    r
}

} // verus!
