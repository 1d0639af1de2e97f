//! The command line: `gaia <subcommand> <arguments>`.

use vstd::prelude::*;
use crate::repo::{app_pieces, display_name, is_valid_app, parse_repo_name, RepoName};
use crate::text::{join2, text_eq, views};

verus! {

/// What the command line asks for.
pub enum Command {
    /// Install the latest release of `app`; `overwrite` is set for the
    /// `override` subcommand, which may replace files that are already there.
    Install { app: String, repo: RepoName, overwrite: bool },
    /// Remove `app`, shown to the user as `display_name`.
    Remove { app: String, display_name: String },
    /// Move the running executable into place and write its configuration.
    Setup,
    /// Show help, on `topic` when one is given.
    Help { topic: Option<String> },
    /// Accepted and does nothing.
    Test,
}

/// A command line that asks for nothing that can be done.
pub enum UsageError {
    NoOperation,
    UnknownSubcommand { given: String },
    NoApplication,
    InvalidApplicationName { given: String },
    SetupTakesNoArguments,
}

/// A command, with its texts as character sequences.
pub enum CommandModel {
    Install { app: Seq<char>, owner: Seq<char>, name: Seq<char>, overwrite: bool },
    Remove { app: Seq<char>, display_name: Seq<char> },
    Setup,
    Help { topic: Option<Seq<char>> },
    Test,
}

/// A usage error, with its texts as character sequences.
pub enum UsageErrorModel {
    NoOperation,
    UnknownSubcommand { given: Seq<char> },
    NoApplication,
    InvalidApplicationName { given: Seq<char> },
    SetupTakesNoArguments,
}

impl View for Command {
    type V = CommandModel;

    open spec fn view(&self) -> CommandModel {
        match self {
            Command::Install { app, repo, overwrite } => CommandModel::Install {
                app: app@,
                owner: repo.owner@,
                name: repo.name@,
                overwrite: *overwrite,
            },
            Command::Remove { app, display_name } => CommandModel::Remove {
                app: app@,
                display_name: display_name@,
            },
            Command::Setup => CommandModel::Setup,
            Command::Help { topic } => CommandModel::Help {
                topic: match topic {
                    Some(t) => Some(t@),
                    None => None,
                },
            },
            Command::Test => CommandModel::Test,
        }
    }
}

impl View for UsageError {
    type V = UsageErrorModel;

    open spec fn view(&self) -> UsageErrorModel {
        match self {
            UsageError::NoOperation => UsageErrorModel::NoOperation,
            UsageError::UnknownSubcommand { given } => UsageErrorModel::UnknownSubcommand {
                given: given@,
            },
            UsageError::NoApplication => UsageErrorModel::NoApplication,
            UsageError::InvalidApplicationName { given } => UsageErrorModel::InvalidApplicationName {
                given: given@,
            },
            UsageError::SetupTakesNoArguments => UsageErrorModel::SetupTakesNoArguments,
        }
    }
}

/// The outcome of reading a command line, with its texts as sequences.
pub open spec fn outcome_model(r: Result<Command, UsageError>) -> Result<CommandModel, UsageErrorModel> {
    match r {
        Ok(c) => Ok(c@),
        Err(e) => Err(e@),
    }
}

/// The subcommands that are accepted.
pub open spec fn is_subcommand(s: Seq<char>) -> bool {
    ||| s == "install"@
    ||| s == "override"@
    ||| s == "remove"@
    ||| s == "setup"@
    ||| s == "help"@
    ||| s == "test"@
}

/// The command line `args` (the program's name first) is one that can be read:
/// `remove` is given an application name with a '/' in it.
pub open spec fn readable_args(args: Seq<Seq<char>>) -> bool {
    args.len() >= 3 && args[1] == "remove"@ ==> app_pieces(args[2]).len() >= 2
}

/// What the command line `args` (the program's name first) asks for.
pub open spec fn command_of(args: Seq<Seq<char>>) -> Result<CommandModel, UsageErrorModel> {
    if args.len() < 2 {
        Err(UsageErrorModel::NoOperation)
    } else if !is_subcommand(args[1]) {
        Err(UsageErrorModel::UnknownSubcommand { given: args[1] })
    } else if args[1] == "install"@ || args[1] == "override"@ {
        if args.len() < 3 {
            Err(UsageErrorModel::NoApplication)
        } else if !is_valid_app(args[2]) {
            Err(UsageErrorModel::InvalidApplicationName { given: args[2] })
        } else {
            Ok(
                CommandModel::Install {
                    app: args[2],
                    owner: app_pieces(args[2])[0],
                    name: app_pieces(args[2])[1],
                    overwrite: args[1] == "override"@,
                },
            )
        }
    } else if args[1] == "remove"@ {
        if args.len() < 3 {
            Err(UsageErrorModel::NoApplication)
        } else {
            Ok(CommandModel::Remove { app: args[2], display_name: app_pieces(args[2])[1] })
        }
    } else if args[1] == "setup"@ {
        if args.len() > 2 {
            Err(UsageErrorModel::SetupTakesNoArguments)
        } else {
            Ok(CommandModel::Setup)
        }
    } else if args[1] == "help"@ {
        Ok(CommandModel::Help { topic: if args.len() < 3 { None } else { Some(args[2]) } })
    } else {
        Ok(CommandModel::Test)
    }
}

/// Reads the command line `args`, the program's name first.
pub fn parse_args(args: &Vec<String>) -> (r: Result<Command, UsageError>)
    requires
        readable_args(views(args@)),
    ensures
        outcome_model(r) == command_of(views(args@)),
{
    let ghost a = views(args@);
    if args.len() < 2 {
        return Err(UsageError::NoOperation);
    }
    assert(a[1] == args@[1]@);
    let sub = args[1].as_str();
    let is_install = text_eq(sub, "install");
    let is_override = text_eq(sub, "override");
    let is_remove = text_eq(sub, "remove");
    let is_setup = text_eq(sub, "setup");
    let is_help = text_eq(sub, "help");
    let is_test = text_eq(sub, "test");
    if !(is_install || is_override || is_remove || is_setup || is_help || is_test) {
        return Err(UsageError::UnknownSubcommand { given: args[1].clone() });
    }
    if is_install || is_override {
        if args.len() < 3 {
            return Err(UsageError::NoApplication);
        }
        assert(a[2] == args@[2]@);
        match parse_repo_name(args[2].as_str()) {
            None => Err(UsageError::InvalidApplicationName { given: args[2].clone() }),
            Some(repo) => Ok(Command::Install { app: args[2].clone(), repo, overwrite: is_override }),
        }
    } else if is_remove {
        if args.len() < 3 {
            return Err(UsageError::NoApplication);
        }
        assert(a[2] == args@[2]@);
        let shown = display_name(args[2].as_str());
        Ok(Command::Remove { app: args[2].clone(), display_name: shown })
    } else if is_setup {
        if args.len() > 2 {
            Err(UsageError::SetupTakesNoArguments)
        } else {
            Ok(Command::Setup)
        }
    } else if is_help {
        if args.len() < 3 {
            Ok(Command::Help { topic: None })
        } else {
            assert(a[2] == args@[2]@);
            Ok(Command::Help { topic: Some(args[2].clone()) })
        }
    } else {
        Ok(Command::Test)
    }
}

/// The message that describes a usage error.
pub open spec fn message_of(e: UsageErrorModel) -> Seq<char> {
    match e {
        UsageErrorModel::NoOperation => "No operation specified"@,
        UsageErrorModel::UnknownSubcommand { given } => given + " is not a valid subcommand"@,
        UsageErrorModel::NoApplication => "No application specified"@,
        UsageErrorModel::InvalidApplicationName { given } => given
            + " is not a valid application name. Run 'gaia help install' for more information."@,
        UsageErrorModel::SetupTakesNoArguments => "Subcommand setup needs no additional arguments"@,
    }
}

impl UsageError {
    /// The message that describes this error.
    pub fn message(&self) -> (r: String)
        ensures
            r@ == message_of(self@),
    {
        match self {
            UsageError::NoOperation => String::from_str("No operation specified"),
            UsageError::UnknownSubcommand { given } => join2(
                given.as_str(),
                " is not a valid subcommand",
            ),
            UsageError::NoApplication => String::from_str("No application specified"),
            UsageError::InvalidApplicationName { given } => join2(
                given.as_str(),
                " is not a valid application name. Run 'gaia help install' for more information.",
            ),
            UsageError::SetupTakesNoArguments => String::from_str(
                "Subcommand setup needs no additional arguments",
            ),
        }
    }

    /// The status the program exits with on a usage error.
    pub fn exit_code(&self) -> (r: i32)
        ensures
            r == 3,
    {
        3
    }
}

/// The pages of help that can be shown.
pub enum HelpPage {
    Overview,
    Install,
    Remove,
}

/// The page that `gaia help [topic]` shows: the overview without a topic, the
/// page of `install` or `remove`, and nothing for any other topic.
pub open spec fn help_page_of(topic: Option<Seq<char>>) -> Option<HelpPage> {
    match topic {
        None => Some(HelpPage::Overview),
        Some(t) => if t == "install"@ {
            Some(HelpPage::Install)
        } else if t == "remove"@ {
            Some(HelpPage::Remove)
        } else {
            None
        },
    }
}

/// The page that `gaia help [topic]` shows.
pub fn help_page(topic: Option<&str>) -> (r: Option<HelpPage>)
    ensures
        r == help_page_of(
            match topic {
                Some(t) => Some(t@),
                None => None,
            },
        ),
{
    match topic {
        None => Some(HelpPage::Overview),
        Some(t) => if text_eq(t, "install") {
            Some(HelpPage::Install)
        } else if text_eq(t, "remove") {
            Some(HelpPage::Remove)
        } else {
            None
        },
    }
}

/// Every application name made of exactly two '/'-separated pieces is
/// installed, in whatever letter case it is given: `install` without leave to
/// overwrite, `override` with it, the pieces being the account and the
/// repository.
pub proof fn lemma_valid_names_are_installed(program: Seq<char>, app: Seq<char>)
    requires
        is_valid_app(app),
    ensures
        command_of(seq![program, "install"@, app]) == Ok::<CommandModel, UsageErrorModel>(
            CommandModel::Install {
                app,
                owner: app_pieces(app)[0],
                name: app_pieces(app)[1],
                overwrite: false,
            },
        ),
        command_of(seq![program, "override"@, app]) == Ok::<CommandModel, UsageErrorModel>(
            CommandModel::Install {
                app,
                owner: app_pieces(app)[0],
                name: app_pieces(app)[1],
                overwrite: true,
            },
        ),
{
    reveal_strlit("install");
    reveal_strlit("override");
    assert("install"@ != "override"@) by {
        assert("install"@.len() != "override"@.len());
    }
}

/// An install or override name is refused exactly when it does not split
/// into two '/'-separated pieces.
pub proof fn lemma_install_refused_only_for_bad_names(program: Seq<char>, sub: Seq<char>, app: Seq<char>)
    requires
        sub == "install"@ || sub == "override"@,
    ensures
        command_of(seq![program, sub, app]) is Err <==> !is_valid_app(app),
{
}

} // verus!
