//! The commands of the program, found by name, and the arguments they are
//! given.

use vstd::prelude::*;
use crate::text::text_eq;

pub mod get;

verus! {

/// What the command line held, once its options are told from the rest.
pub struct Arguments {
    /// The arguments that are no options: the command's name, then its own
    /// arguments.
    pub free: Vec<String>,
    /// A help message is asked for.
    pub help: bool,
    /// The program's version is asked for.
    pub version: bool,
    /// Generated passwords hold letters and digits only.
    pub alnum: bool,
    /// The length asked for a generated password, as it was typed.
    pub length: Option<String>,
    /// Secrets are shown instead of being copied to the clipboard.
    pub show: bool,
}

/// A command of the program.
#[derive(Clone, Copy, Debug, PartialEq, Eq, Structural)]
pub enum Command {
    Get,
    Add,
    Delete,
    Generate,
    Regenerate,
    List,
    Export,
    SetMasterPassword,
    Rename,
    Transfer,
    Change,
    Uninstall,
    Init,
}

/// The command that goes by the name `name`, if there is one.
pub open spec fn command_named(name: Seq<char>) -> Option<Command> {
    if name == "get"@ {
        Some(Command::Get)
    } else if name == "add"@ {
        Some(Command::Add)
    } else if name == "delete"@ {
        Some(Command::Delete)
    } else if name == "generate"@ {
        Some(Command::Generate)
    } else if name == "regenerate"@ {
        Some(Command::Regenerate)
    } else if name == "list"@ {
        Some(Command::List)
    } else if name == "export"@ {
        Some(Command::Export)
    } else if name == "set-master-password"@ {
        Some(Command::SetMasterPassword)
    } else if name == "rename"@ {
        Some(Command::Rename)
    } else if name == "transfer"@ {
        Some(Command::Transfer)
    } else if name == "change"@ {
        Some(Command::Change)
    } else if name == "uninstall"@ {
        Some(Command::Uninstall)
    } else if name == "init"@ {
        Some(Command::Init)
    } else {
        None
    }
}

impl Command {
    /// The name by which the command is called.
    pub open spec fn spec_name(self) -> Seq<char> {
        match self {
            Command::Get => "get"@,
            Command::Add => "add"@,
            Command::Delete => "delete"@,
            Command::Generate => "generate"@,
            Command::Regenerate => "regenerate"@,
            Command::List => "list"@,
            Command::Export => "export"@,
            Command::SetMasterPassword => "set-master-password"@,
            Command::Rename => "rename"@,
            Command::Transfer => "transfer"@,
            Command::Change => "change"@,
            Command::Uninstall => "uninstall"@,
            Command::Init => "init"@,
        }
    }

    /// The name by which the command is called.
    pub fn name(self) -> (name: &'static str)
        ensures
            name@ == self.spec_name(),
    {
        match self {
            Command::Get => "get",
            Command::Add => "add",
            Command::Delete => "delete",
            Command::Generate => "generate",
            Command::Regenerate => "regenerate",
            Command::List => "list",
            Command::Export => "export",
            Command::SetMasterPassword => "set-master-password",
            Command::Rename => "rename",
            Command::Transfer => "transfer",
            Command::Change => "change",
            Command::Uninstall => "uninstall",
            Command::Init => "init",
        }
    }

    /// Whether the command works on the opened store. The others run
    /// without the store file being read.
    pub fn needs_store(self) -> (needed: bool)
        ensures
            needed == !(self == Command::Uninstall || self == Command::Init),
    {
        match self {
            Command::Uninstall | Command::Init => false,
            _ => true,
        }
    }
}

/// Finds a command by its name.
pub fn command_from_name(name: &str) -> (command: Option<Command>)
    ensures
        command == command_named(name@),
{
    if text_eq(name, "get") {
        Some(Command::Get)
    } else if text_eq(name, "add") {
        Some(Command::Add)
    } else if text_eq(name, "delete") {
        Some(Command::Delete)
    } else if text_eq(name, "generate") {
        Some(Command::Generate)
    } else if text_eq(name, "regenerate") {
        Some(Command::Regenerate)
    } else if text_eq(name, "list") {
        Some(Command::List)
    } else if text_eq(name, "export") {
        Some(Command::Export)
    } else if text_eq(name, "set-master-password") {
        Some(Command::SetMasterPassword)
    } else if text_eq(name, "rename") {
        Some(Command::Rename)
    } else if text_eq(name, "transfer") {
        Some(Command::Transfer)
    } else if text_eq(name, "change") {
        Some(Command::Change)
    } else if text_eq(name, "uninstall") {
        Some(Command::Uninstall)
    } else if text_eq(name, "init") {
        Some(Command::Init)
    } else {
        None
    }
}

/// Every command is found by its own name.
pub proof fn lemma_command_found_by_its_name(command: Command)
    ensures
        command_named(command.spec_name()) == Some(command),
{
    reveal_strlit("get");
    reveal_strlit("add");
    reveal_strlit("delete");
    reveal_strlit("generate");
    reveal_strlit("regenerate");
    reveal_strlit("list");
    reveal_strlit("export");
    reveal_strlit("set-master-password");
    reveal_strlit("rename");
    reveal_strlit("transfer");
    reveal_strlit("change");
    reveal_strlit("uninstall");
    reveal_strlit("init");
    let names = seq![
        "get"@,
        "add"@,
        "delete"@,
        "generate"@,
        "regenerate"@,
        "list"@,
        "export"@,
        "set-master-password"@,
        "rename"@,
        "transfer"@,
        "change"@,
        "uninstall"@,
        "init"@,
    ];
    assert forall|i: int, j: int| 0 <= i < j < names.len() implies names[i] != names[j] by {
        if names[i].len() == names[j].len() {
            assert(names[i][0] != names[j][0] || names[i][1] != names[j][1] || names[i][2]
                != names[j][2]);
        }
    }
    assert(names[0] == "get"@);
    assert(names[1] == "add"@);
    assert(names[2] == "delete"@);
    assert(names[3] == "generate"@);
    assert(names[4] == "regenerate"@);
    assert(names[5] == "list"@);
    assert(names[6] == "export"@);
    assert(names[7] == "set-master-password"@);
    assert(names[8] == "rename"@);
    assert(names[9] == "transfer"@);
    assert(names[10] == "change"@);
    assert(names[11] == "uninstall"@);
    assert(names[12] == "init"@);
}

} // verus!
