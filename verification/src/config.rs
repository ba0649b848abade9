//! The run configuration: the target directory, the rename prefix, and
//! the active renaming strategy, built once from the argument list.

use crate::naming::str_eq;
use vstd::prelude::*;

verus! {

/// The renaming strategy of a run; exactly one is active.
#[derive(Clone, Copy, PartialEq, Eq, Structural, Debug)]
pub enum Action {
    Rename,
    Uppercase,
    Lowercase,
    FirstLetterUppercase,
    FirstLetterLowercase,
}

/// The configuration of one run. `file_name` is the rename prefix and is
/// empty unless `text_format` is `Action::Rename`.
pub struct Config {
    pub dir_path: String,
    pub file_name: String,
    pub text_format: Action,
}

/// The action selected by a mode flag, or `None` for a token that is no
/// flag and therefore a literal rename prefix.
pub open spec fn flag_action(tok: Seq<char>) -> Option<Action> {
    if tok == "-uppercase"@ || tok == "-u"@ {
        Some(Action::Uppercase)
    } else if tok == "-lowercase"@ || tok == "-l"@ {
        Some(Action::Lowercase)
    } else if tok == "-first-letter-uppercase"@ || tok == "-U"@ {
        Some(Action::FirstLetterUppercase)
    } else if tok == "-first-letter-lowercase"@ || tok == "-L"@ {
        Some(Action::FirstLetterLowercase)
    } else {
        None
    }
}

impl Config {
    /// Builds the configuration from the raw argument list: `args[1]` is
    /// the directory path; `args[2]` selects the mode when it matches a
    /// flag, and is otherwise kept as the rename prefix with the mode
    /// left at sequential renaming.
    pub fn init(args: &[String]) -> (config: Config)
        requires
            args@.len() == 3,
        ensures
            config.dir_path@ == args@[1]@,
            match flag_action(args@[2]@) {
                Some(action) => config.text_format == action && config.file_name@
                    == Seq::<char>::empty(),
                None => config.text_format == Action::Rename && config.file_name@ == args@[2]@,
            },
    {
        let dir_path = args[1].clone();
        let tok: &str = args[2].as_str();
        let mut file_name = String::new();
        let mut text_format = Action::Rename;

        if str_eq(tok, "-uppercase") || str_eq(tok, "-u") {
            text_format = Action::Uppercase;
        } else if str_eq(tok, "-lowercase") || str_eq(tok, "-l") {
            text_format = Action::Lowercase;
        } else if str_eq(tok, "-first-letter-uppercase") || str_eq(tok, "-U") {
            text_format = Action::FirstLetterUppercase;
        } else if str_eq(tok, "-first-letter-lowercase") || str_eq(tok, "-L") {
            text_format = Action::FirstLetterLowercase;
        } else {
            file_name = args[2].clone();
        }

        Config { dir_path, file_name, text_format }
    }
}

} // verus!
