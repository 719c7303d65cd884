//! Commands of the interactive console.

use vstd::prelude::*;
use vstd::string::*;
use crate::text::{
    chars_of, split_words, str_eq, string_of, to_lower, trim, trim_chars, views, words,
};

verus! {

/// Console command types.
#[derive(Debug, Clone, PartialEq)]
pub enum ConsoleCommand {
    /// Show commands
    Show(ShowTarget),
    /// Profile management commands
    Profile(ProfileAction),
    /// Module management commands
    Module(ModuleAction),
    /// Help command
    Help,
    /// Exit the console
    Exit,
}

/// Show command targets.
#[derive(Debug, Clone, Copy, PartialEq, Eq, Structural)]
pub enum ShowTarget {
    /// Show access control lists
    Acls,
    /// Show SIP profiles
    Profiles,
    /// Show server status
    Status,
    /// Show active calls
    Calls,
}

/// Profile management actions.
#[derive(Debug, Clone, PartialEq)]
pub struct ProfileAction {
    pub name: String,
    pub action: ProfileActionType,
}

#[derive(Debug, Clone, Copy, PartialEq, Eq, Structural)]
pub enum ProfileActionType {
    Start,
    Stop,
    Restart,
    Rescan,
}

/// Module management actions.
#[derive(Debug, Clone, PartialEq)]
pub struct ModuleAction {
    pub name: String,
    pub action: ModuleActionType,
}

#[derive(Debug, Clone, Copy, PartialEq, Eq, Structural)]
pub enum ModuleActionType {
    Load,
    Unload,
    Reload,
}

/// Why an input is no command.
#[derive(Debug, Clone, Copy, PartialEq, Eq, Structural)]
pub enum ConsoleError {
    /// The input holds no word.
    Empty,
    /// The first word is no command.
    UnknownCommand,
    /// `show` without a target.
    MissingTarget,
    /// `show` with a word that is no target.
    UnknownTarget,
    /// `profile` without a name and an action.
    MissingProfileArguments,
    /// `profile` with a word that is no action.
    UnknownProfileAction,
    /// `load`, `unload` or `reload` without a module name.
    MissingModule,
}

impl ConsoleError {
    /// A description of the error.
    pub fn message(&self) -> (s: String)
        ensures
            s@ == (match self {
                ConsoleError::Empty => "Empty command"@,
                ConsoleError::UnknownCommand => "Unknown command. Type 'help' for available commands."@,
                ConsoleError::MissingTarget => "show command requires a target (acls, profiles, status, calls)"@,
                ConsoleError::UnknownTarget => "Unknown show target"@,
                ConsoleError::MissingProfileArguments => "profile command requires: profile <name> <action>"@,
                ConsoleError::UnknownProfileAction => "Unknown profile action"@,
                ConsoleError::MissingModule => "command requires a module name"@,
            }),
    {
        match self {
            ConsoleError::Empty => "Empty command".to_owned(),
            ConsoleError::UnknownCommand => "Unknown command. Type 'help' for available commands.".to_owned(),
            ConsoleError::MissingTarget => "show command requires a target (acls, profiles, status, calls)".to_owned(),
            ConsoleError::UnknownTarget => "Unknown show target".to_owned(),
            ConsoleError::MissingProfileArguments => "profile command requires: profile <name> <action>".to_owned(),
            ConsoleError::UnknownProfileAction => "Unknown profile action".to_owned(),
            ConsoleError::MissingModule => "command requires a module name".to_owned(),
        }
    }
}

/// The lower-case form of a text, as `str::to_lowercase` gives it.
pub uninterp spec fn lowercase(s: Seq<char>) -> Seq<char>;

/// Whether every character of a text is an ASCII character.
pub open spec fn is_ascii_text(s: Seq<char>) -> bool {
    forall|i: int| 0 <= i < s.len() ==> (#[trigger] s[i]) as u32 <= 0x7f
}

/// An ASCII text with its capital letters in lower case.
pub open spec fn lower_ascii(s: Seq<char>) -> Seq<char> {
    Seq::new(s.len(), |i: int| to_lower(s[i]))
}

/// The lower-case form of a text: of an ASCII text, the text with its
/// capital letters in lower case; of any other text, what
/// `str::to_lowercase` gives.
pub open spec fn lower_case(s: Seq<char>) -> Seq<char> {
    if is_ascii_text(s) {
        lower_ascii(s)
    } else {
        lowercase(s)
    }
}

/// `str::to_lowercase` gives the lower-case form of a text. In an ASCII
/// text it puts the letters `A` to `Z` in lower case and leaves every other
/// character as it is.
#[verifier::external_body]
fn to_lowercase(s: &str) -> (r: String)
    ensures
        r@ == (if is_ascii_text(s@) {
            lower_ascii(s@)
        } else {
            lowercase(s@)
        }),
{
    s.to_lowercase()
}

/// What a command holds.
pub enum CommandView {
    Show(ShowTarget),
    Profile(Seq<char>, ProfileActionType),
    Module(Seq<char>, ModuleActionType),
    Help,
    Exit,
}

impl View for ConsoleCommand {
    type V = CommandView;

    open spec fn view(&self) -> CommandView {
        match self {
            ConsoleCommand::Show(t) => CommandView::Show(*t),
            ConsoleCommand::Profile(p) => CommandView::Profile(p.name@, p.action),
            ConsoleCommand::Module(m) => CommandView::Module(m.name@, m.action),
            ConsoleCommand::Help => CommandView::Help,
            ConsoleCommand::Exit => CommandView::Exit,
        }
    }
}

/// The target that a word names, given in lower case.
pub open spec fn show_target(word: Seq<char>) -> Option<ShowTarget> {
    if word == "acls"@ || word == "acl"@ {
        Some(ShowTarget::Acls)
    } else if word == "profiles"@ || word == "profile"@ {
        Some(ShowTarget::Profiles)
    } else if word == "status"@ {
        Some(ShowTarget::Status)
    } else if word == "calls"@ || word == "call"@ {
        Some(ShowTarget::Calls)
    } else {
        None
    }
}

/// The profile action that a word names, given in lower case.
pub open spec fn profile_action(word: Seq<char>) -> Option<ProfileActionType> {
    if word == "start"@ {
        Some(ProfileActionType::Start)
    } else if word == "stop"@ {
        Some(ProfileActionType::Stop)
    } else if word == "restart"@ {
        Some(ProfileActionType::Restart)
    } else if word == "rescan"@ {
        Some(ProfileActionType::Rescan)
    } else {
        None
    }
}

/// `show <target>`: the target without regard to case.
pub open spec fn show_command(args: Seq<Seq<char>>) -> Result<CommandView, ConsoleError> {
    if args.len() == 0 {
        Err(ConsoleError::MissingTarget)
    } else {
        match show_target(lower_case(args[0])) {
            Some(t) => Ok(CommandView::Show(t)),
            None => Err(ConsoleError::UnknownTarget),
        }
    }
}

/// `profile <name> <action>`: the action without regard to case.
pub open spec fn profile_command(args: Seq<Seq<char>>) -> Result<CommandView, ConsoleError> {
    if args.len() < 2 {
        Err(ConsoleError::MissingProfileArguments)
    } else {
        match profile_action(lower_case(args[1])) {
            Some(a) => Ok(CommandView::Profile(args[0], a)),
            None => Err(ConsoleError::UnknownProfileAction),
        }
    }
}

/// `load <module>`, `unload <module>`, `reload <module>`.
pub open spec fn module_command(args: Seq<Seq<char>>, action: ModuleActionType) -> Result<
    CommandView,
    ConsoleError,
> {
    if args.len() == 0 {
        Err(ConsoleError::MissingModule)
    } else {
        Ok(CommandView::Module(args[0], action))
    }
}

/// The command that a command word, given in lower case, and the words
/// after it make.
pub open spec fn command_of(word: Seq<char>, args: Seq<Seq<char>>) -> Result<
    CommandView,
    ConsoleError,
> {
    if word == "help"@ || word == "?"@ {
        Ok(CommandView::Help)
    } else if word == "exit"@ || word == "quit"@ || word == "q"@ {
        Ok(CommandView::Exit)
    } else if word == "show"@ {
        show_command(args)
    } else if word == "profile"@ {
        profile_command(args)
    } else if word == "load"@ {
        module_command(args, ModuleActionType::Load)
    } else if word == "unload"@ {
        module_command(args, ModuleActionType::Unload)
    } else if word == "reload"@ {
        module_command(args, ModuleActionType::Reload)
    } else {
        Err(ConsoleError::UnknownCommand)
    }
}

/// The command that an input line is: its words, the first taken without
/// regard to case.
pub open spec fn parsed_command(input: Seq<char>) -> Result<CommandView, ConsoleError> {
    let parts = words(trim(input));
    if parts.len() == 0 {
        Err(ConsoleError::Empty)
    } else {
        command_of(lower_case(parts[0]), parts.skip(1))
    }
}

pub open spec fn result_view(r: Result<ConsoleCommand, ConsoleError>) -> Result<
    CommandView,
    ConsoleError,
> {
    match r {
        Ok(c) => Ok(c@),
        Err(e) => Err(e),
    }
}

pub open spec fn texts(v: Seq<String>) -> Seq<Seq<char>> {
    Seq::new(v.len(), |i: int| v[i]@)
}

/// The target that a word in lower case names.
pub fn target_of(word: &str) -> (r: Option<ShowTarget>)
    ensures
        r == show_target(word@),
{
    if str_eq(word, "acls") || str_eq(word, "acl") {
        Some(ShowTarget::Acls)
    } else if str_eq(word, "profiles") || str_eq(word, "profile") {
        Some(ShowTarget::Profiles)
    } else if str_eq(word, "status") {
        Some(ShowTarget::Status)
    } else if str_eq(word, "calls") || str_eq(word, "call") {
        Some(ShowTarget::Calls)
    } else {
        None
    }
}

/// The profile action that a word in lower case names.
pub fn action_of(word: &str) -> (r: Option<ProfileActionType>)
    ensures
        r == profile_action(word@),
{
    if str_eq(word, "start") {
        Some(ProfileActionType::Start)
    } else if str_eq(word, "stop") {
        Some(ProfileActionType::Stop)
    } else if str_eq(word, "restart") {
        Some(ProfileActionType::Restart)
    } else if str_eq(word, "rescan") {
        Some(ProfileActionType::Rescan)
    } else {
        None
    }
}

pub fn parse_show_command(args: &Vec<String>) -> (r: Result<ConsoleCommand, ConsoleError>)
    ensures
        result_view(r) == show_command(texts(args@)),
{
    if args.len() == 0 {
        return Err(ConsoleError::MissingTarget);
    }
    assert(texts(args@)[0] == args@[0]@);
    let lower = to_lowercase(args[0].as_str());
    match target_of(lower.as_str()) {
        Some(t) => Ok(ConsoleCommand::Show(t)),
        None => Err(ConsoleError::UnknownTarget),
    }
}

pub fn parse_profile_command(args: &Vec<String>) -> (r: Result<ConsoleCommand, ConsoleError>)
    ensures
        result_view(r) == profile_command(texts(args@)),
{
    if args.len() < 2 {
        return Err(ConsoleError::MissingProfileArguments);
    }
    assert(texts(args@)[0] == args@[0]@);
    assert(texts(args@)[1] == args@[1]@);
    let lower = to_lowercase(args[1].as_str());
    match action_of(lower.as_str()) {
        Some(action) => Ok(ConsoleCommand::Profile(ProfileAction { name: args[0].clone(), action })),
        None => Err(ConsoleError::UnknownProfileAction),
    }
}

fn parse_module_command(args: &Vec<String>, action: ModuleActionType) -> (r: Result<
    ConsoleCommand,
    ConsoleError,
>)
    ensures
        result_view(r) == module_command(texts(args@), action),
{
    if args.len() == 0 {
        return Err(ConsoleError::MissingModule);
    }
    assert(texts(args@)[0] == args@[0]@);
    Ok(ConsoleCommand::Module(ModuleAction { name: args[0].clone(), action }))
}

pub fn parse_load_command(args: &Vec<String>) -> (r: Result<ConsoleCommand, ConsoleError>)
    ensures
        result_view(r) == module_command(texts(args@), ModuleActionType::Load),
{
    parse_module_command(args, ModuleActionType::Load)
}

pub fn parse_unload_command(args: &Vec<String>) -> (r: Result<ConsoleCommand, ConsoleError>)
    ensures
        result_view(r) == module_command(texts(args@), ModuleActionType::Unload),
{
    parse_module_command(args, ModuleActionType::Unload)
}

pub fn parse_reload_command(args: &Vec<String>) -> (r: Result<ConsoleCommand, ConsoleError>)
    ensures
        result_view(r) == module_command(texts(args@), ModuleActionType::Reload),
{
    parse_module_command(args, ModuleActionType::Reload)
}

/// The command that a command word in lower case and the words after it
/// make.
pub fn dispatch(word: &str, args: &Vec<String>) -> (r: Result<ConsoleCommand, ConsoleError>)
    ensures
        result_view(r) == command_of(word@, texts(args@)),
{
    if str_eq(word, "help") || str_eq(word, "?") {
        Ok(ConsoleCommand::Help)
    } else if str_eq(word, "exit") || str_eq(word, "quit") || str_eq(word, "q") {
        Ok(ConsoleCommand::Exit)
    } else if str_eq(word, "show") {
        parse_show_command(args)
    } else if str_eq(word, "profile") {
        parse_profile_command(args)
    } else if str_eq(word, "load") {
        parse_load_command(args)
    } else if str_eq(word, "unload") {
        parse_unload_command(args)
    } else if str_eq(word, "reload") {
        parse_reload_command(args)
    } else {
        Err(ConsoleError::UnknownCommand)
    }
}

/// Parse a console command from input string.
pub fn parse_command(input: &str) -> (r: Result<ConsoleCommand, ConsoleError>)
    ensures
        result_view(r) == parsed_command(input@),
{
    let v = chars_of(input);
    let t = trim_chars(&v);
    let parts = split_words(&t);
    if parts.len() == 0 {
        return Err(ConsoleError::Empty);
    }
    let ghost pv = views(parts@);
    let mut args: Vec<String> = Vec::new();
    let mut i: usize = 1;
    while i < parts.len()
        invariant
            1 <= i <= parts.len(),
            pv == views(parts@),
            args@.len() == i - 1,
            forall|j: int| 0 <= j < i - 1 ==> (#[trigger] args@[j])@ == pv[j + 1],
        decreases parts.len() - i,
    {
        args.push(string_of(&parts[i]));
        i += 1;
    }
    assert(texts(args@) =~= pv.skip(1));
    assert(pv[0] == parts@[0]@);
    let word = string_of(&parts[0]);
    let lower = to_lowercase(word.as_str());
    dispatch(lower.as_str(), &args)
}

} // verus!
