//! What the program runs, by its command line, its settings and its environment.

use vstd::prelude::*;

use crate::config::opt_view;
use crate::text::{join, joined, same_text, texts};
use crate::theme::{theme_list, themes};

verus! {

/// Launch configuration (what each pane runs).
#[derive(Debug)]
pub struct Config {
    pub shell: String,
    pub args: Vec<String>,
}

/// Whether the first argument asks for help.
pub fn wants_help(first: &Option<String>) -> (r: bool)
    ensures
        r == (first matches Some(a) && (a@ == "--help"@ || a@ == "-h"@)),
{
    match first {
        Some(a) => same_text(a.as_str(), "--help") || same_text(a.as_str(), "-h"),
        None => false,
    }
}

/// The shell to run where the command line names no command.
pub open spec fn shell_choice(configured: Option<Seq<char>>, environment: Option<Seq<char>>) -> Seq<
    char,
> {
    match configured {
        Some(s) => s,
        None => match environment {
            Some(s) => s,
            None => "/bin/zsh"@,
        },
    }
}

impl Config {
    /// What each pane runs: an explicit command of the command line wins, then the
    /// config's `shell` key, then `$SHELL`, then a sensible default. A shell runs as
    /// a login shell, so that launches with a minimal environment still source the
    /// user's profile.
    pub fn resolve(
        command: Option<String>,
        args: Vec<String>,
        configured: Option<String>,
        environment: Option<String>,
    ) -> (r: Config)
        ensures
            r.shell@ == match command {
                Some(c) => c@,
                None => shell_choice(opt_view(configured), opt_view(environment)),
            },
            texts(r.args@) == match command {
                Some(_) => texts(args@),
                None => seq!["-l"@],
            },
    {
        match command {
            Some(shell) => Config { shell, args },
            None => {
                let shell = match configured {
                    Some(s) => s,
                    None => match environment {
                        Some(s) => s,
                        None => "/bin/zsh".to_owned(),
                    },
                };
                let args = vec!["-l".to_owned()];
                assert(texts(args@) == seq!["-l"@]);
                Config { shell, args }
            },
        }
    }
}

/// The help text up to the list of themes.
pub const HELP_HEAD: &'static str = "\
Tessera - terminal with native, draggable pane splitting\n\n\
USAGE:\n  tessera [COMMAND [ARGS...]]\n\n\
If COMMAND is omitted, $SHELL (or /bin/zsh) is launched in each pane.\n\n\
KEYBOARD:\n  Cmd+T          new tab\n  \
Cmd+1 .. Cmd+9 switch to tab N\n  \
Opt+1 .. Opt+9 focus pane N in the current tab\n  \
Cmd+D          split right (panes side-by-side)\n  \
Cmd+Shift+D    split down (panes stacked)\n  \
Cmd+W          close the focused pane\n  \
Cmd+K          clear the terminal (scrollback + screen)\n  \
Cmd+F          search the scrollback\n  \
Cmd+Alt+Arrow  move focus between panes\n  \
drag a border  resize the adjacent panes\n  \
click a pane   focus it\n\n\
CONFIG:\n  \
~/.config/tessera/config   font-family, font-size, theme, padding, shell\n  \
(a commented template is written there on first run; or use the gear menu)\n  \
themes: ";

/// The help text after the list of themes.
pub const HELP_TAIL: &'static str = "\n\n\
TMUX:\n  \
tessera tmux new -A -s main   run inside tmux for tmux-native splits";

/// The text that `--help` prints.
pub fn help_text() -> (r: String)
    ensures
        r@ == HELP_HEAD@ + joined(theme_list(), ", "@) + HELP_TAIL@,
{
    let mut out = HELP_HEAD.to_owned();
    let names = themes();
    out.append(join(&names, ", ").as_str());
    out.append(HELP_TAIL);
    out
}

/// The directory new shells start in, by the process's own directory and the home
/// directory. Launched from a terminal the launch directory is kept; launched from
/// a desktop the process starts in the root directory, which is a poor place for a
/// shell, so the home directory takes its place.
pub fn default_working_dir<P>(cwd: Option<P>, cwd_is_root: bool, home: Option<P>) -> (r: Option<P>)
    ensures
        r == (if cwd is Some && !cwd_is_root {
            cwd
        } else {
            home
        }),
{
    match cwd {
        Some(dir) => if cwd_is_root {
            home
        } else {
            Some(dir)
        },
        None => home,
    }
}

/// The configured shell goes before that of the environment, and either before the default.
pub proof fn law_shell_choice(a: Seq<char>, b: Option<Seq<char>>)
    ensures
        shell_choice(Some(a), b) == a,
        shell_choice(None, Some(a)) == a,
        shell_choice(None, None) == "/bin/zsh"@,
{
}

} // verus!
