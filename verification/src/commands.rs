//! The commands that set up a service's user, groups and folders.

use crate::modes::Modes;
use crate::text::{cat3, cat5, cat7};
use vstd::prelude::*;

verus! {

/// Creates a user with its primary group.
#[derive(Debug, PartialEq, Eq)]
pub struct CreateUser {
    pub user_name: String,
    pub primary_group_name: String,
}

impl CreateUser {
    pub fn new(user_name: &str, primary_group_name: &str) -> (r: Self)
        ensures
            r.user_name@ == user_name@,
            r.primary_group_name@ == primary_group_name@,
    {
        CreateUser {
            user_name: user_name.to_owned(),
            primary_group_name: primary_group_name.to_owned(),
        }
    }

    /// The command in words.
    pub fn describe(&self) -> (r: String)
        ensures
            r@ == "Create user '"@ + self.user_name@ + "' with primary group '"@
                + self.primary_group_name@ + "'"@,
    {
        cat5(
            "Create user '",
            &self.user_name,
            "' with primary group '",
            &self.primary_group_name,
            "'",
        )
    }
}

/// Creates a group.
#[derive(Debug, PartialEq, Eq)]
pub struct CreateGroup {
    pub group_name: String,
}

impl CreateGroup {
    pub fn new(group_name: &str) -> (r: Self)
        ensures
            r.group_name@ == group_name@,
    {
        CreateGroup { group_name: group_name.to_owned() }
    }

    /// The command in words.
    pub fn describe(&self) -> (r: String)
        ensures
            r@ == "Create group '"@ + self.group_name@ + "'"@,
    {
        cat3("Create group '", &self.group_name, "'")
    }
}

/// Adds a user to a group.
#[derive(Debug, PartialEq, Eq)]
pub struct AddUserToGroup {
    pub user_name: String,
    pub group_name: String,
}

impl AddUserToGroup {
    pub fn new(user_name: &str, group_name: &str) -> (r: Self)
        ensures
            r.user_name@ == user_name@,
            r.group_name@ == group_name@,
    {
        AddUserToGroup { user_name: user_name.to_owned(), group_name: group_name.to_owned() }
    }

    /// The command in words.
    pub fn describe(&self) -> (r: String)
        ensures
            r@ == "Add user '"@ + self.user_name@ + "' to group '"@ + self.group_name@ + "'"@,
    {
        cat5("Add user '", &self.user_name, "' to group '", &self.group_name, "'")
    }
}

/// Creates a folder and those above it.
#[derive(Debug, PartialEq, Eq)]
pub struct CreateFolder {
    pub folder: String,
}

impl CreateFolder {
    pub fn new(folder: String) -> (r: Self)
        ensures
            r == (CreateFolder { folder }),
    {
        CreateFolder { folder }
    }

    /// The command in words.
    pub fn describe(&self) -> (r: String)
        ensures
            r@ == "Create folder '"@ + self.folder@ + "'"@,
    {
        cat3("Create folder '", &self.folder, "'")
    }
}

/// Gives a file or a folder to a user and a group.
#[derive(Debug, PartialEq, Eq)]
pub struct SetOwnership {
    pub path: String,
    pub user_name: String,
    pub group_name: String,
}

impl SetOwnership {
    pub fn new(path: String, user_name: &str, group_name: &str) -> (r: Self)
        ensures
            r.path == path,
            r.user_name@ == user_name@,
            r.group_name@ == group_name@,
    {
        SetOwnership {
            path,
            user_name: user_name.to_owned(),
            group_name: group_name.to_owned(),
        }
    }

    /// The command in words.
    pub fn describe(&self) -> (r: String)
        ensures
            r@ == "Set ownership on '"@ + self.path@ + "' to user '"@ + self.user_name@
                + "' group '"@ + self.group_name@ + "'"@,
    {
        cat7(
            "Set ownership on '",
            &self.path,
            "' to user '",
            &self.user_name,
            "' group '",
            &self.group_name,
            "'",
        )
    }
}

/// Sets the permission bits of a file or a folder.
#[derive(Debug, PartialEq, Eq)]
pub struct SetMode {
    pub path: String,
    pub mode: Modes,
}

impl SetMode {
    pub fn new(path: String, mode: Modes) -> (r: Self)
        ensures
            r == (SetMode { path, mode }),
    {
        SetMode { path, mode }
    }

    /// The command in words.
    pub fn describe(&self) -> (r: String)
        ensures
            r@ == "Set mode on '"@ + self.path@ + "' to '"@ + self.mode.text() + "'"@,
    {
        cat5("Set mode on '", &self.path, "' to '", &self.mode.to_text(), "'")
    }
}

/// A command that sets up part of a service.
#[derive(Debug, PartialEq, Eq)]
pub enum ServiceCommand {
    CreateUser(CreateUser),
    CreateGroup(CreateGroup),
    AddUserToGroup(AddUserToGroup),
    CreateFolder(CreateFolder),
    SetOwnership(SetOwnership),
    SetMode(SetMode),
}

/// A command that sets up part of a service, in texts.
pub enum ServiceCommandView {
    CreateUser { user_name: Seq<char>, primary_group_name: Seq<char> },
    CreateGroup { group_name: Seq<char> },
    AddUserToGroup { user_name: Seq<char>, group_name: Seq<char> },
    CreateFolder { folder: Seq<char> },
    SetOwnership { path: Seq<char>, user_name: Seq<char>, group_name: Seq<char> },
    SetMode { path: Seq<char>, mode: Modes },
}

impl View for ServiceCommand {
    type V = ServiceCommandView;

    open spec fn view(&self) -> ServiceCommandView {
        match self {
            ServiceCommand::CreateUser(c) => ServiceCommandView::CreateUser {
                user_name: c.user_name@,
                primary_group_name: c.primary_group_name@,
            },
            ServiceCommand::CreateGroup(c) => ServiceCommandView::CreateGroup {
                group_name: c.group_name@,
            },
            ServiceCommand::AddUserToGroup(c) => ServiceCommandView::AddUserToGroup {
                user_name: c.user_name@,
                group_name: c.group_name@,
            },
            ServiceCommand::CreateFolder(c) => ServiceCommandView::CreateFolder {
                folder: c.folder@,
            },
            ServiceCommand::SetOwnership(c) => ServiceCommandView::SetOwnership {
                path: c.path@,
                user_name: c.user_name@,
                group_name: c.group_name@,
            },
            ServiceCommand::SetMode(c) => ServiceCommandView::SetMode { path: c.path@, mode: c.mode },
        }
    }
}

impl ServiceCommand {
    /// The command's name.
    pub open spec fn named(&self) -> Seq<char> {
        match self {
            ServiceCommand::CreateUser(_) => "Create user"@,
            ServiceCommand::CreateGroup(_) => "Create group"@,
            ServiceCommand::AddUserToGroup(_) => "Add user to group"@,
            ServiceCommand::CreateFolder(_) => "Create folder"@,
            ServiceCommand::SetOwnership(_) => "Set ownership"@,
            ServiceCommand::SetMode(_) => "Set mode"@,
        }
    }

    /// The command's name.
    pub fn name(&self) -> (r: String)
        ensures
            r@ == self.named(),
    {
        match self {
            ServiceCommand::CreateUser(_) => "Create user".to_owned(),
            ServiceCommand::CreateGroup(_) => "Create group".to_owned(),
            ServiceCommand::AddUserToGroup(_) => "Add user to group".to_owned(),
            ServiceCommand::CreateFolder(_) => "Create folder".to_owned(),
            ServiceCommand::SetOwnership(_) => "Set ownership".to_owned(),
            ServiceCommand::SetMode(_) => "Set mode".to_owned(),
        }
    }

    /// What is said once the command has done its work.
    pub open spec fn announced(&self) -> Seq<char> {
        match self {
            ServiceCommand::CreateUser(c) => "Created user '"@ + c.user_name@ + "'!"@,
            ServiceCommand::CreateGroup(c) => "Created group '"@ + c.group_name@ + "'!"@,
            ServiceCommand::AddUserToGroup(c) => "Added user '"@ + c.user_name@ + "' to group '"@
                + c.group_name@ + "'!"@,
            ServiceCommand::CreateFolder(c) => "Created folder '"@ + c.folder@ + "'!"@,
            ServiceCommand::SetOwnership(c) => "Set ownership on '"@ + c.path@ + "' to user '"@
                + c.user_name@ + "' group '"@ + c.group_name@ + "'!"@,
            ServiceCommand::SetMode(c) => "Set mode on '"@ + c.path@ + "' to '"@ + c.mode.text()
                + "'!"@,
        }
    }

    /// What is said once the command has done its work.
    pub fn announce(&self) -> (r: String)
        ensures
            r@ == self.announced(),
    {
        match self {
            ServiceCommand::CreateUser(c) => cat3("Created user '", &c.user_name, "'!"),
            ServiceCommand::CreateGroup(c) => cat3("Created group '", &c.group_name, "'!"),
            ServiceCommand::AddUserToGroup(c) => cat5(
                "Added user '",
                &c.user_name,
                "' to group '",
                &c.group_name,
                "'!",
            ),
            ServiceCommand::CreateFolder(c) => cat3("Created folder '", &c.folder, "'!"),
            ServiceCommand::SetOwnership(c) => cat7(
                "Set ownership on '",
                &c.path,
                "' to user '",
                &c.user_name,
                "' group '",
                &c.group_name,
                "'!",
            ),
            ServiceCommand::SetMode(c) => cat5(
                "Set mode on '",
                &c.path,
                "' to '",
                &c.mode.to_text(),
                "'!",
            ),
        }
    }

    /// The command in words.
    pub open spec fn described(&self) -> Seq<char> {
        match self {
            ServiceCommand::CreateUser(c) => "Create user '"@ + c.user_name@
                + "' with primary group '"@ + c.primary_group_name@ + "'"@,
            ServiceCommand::CreateGroup(c) => "Create group '"@ + c.group_name@ + "'"@,
            ServiceCommand::AddUserToGroup(c) => "Add user '"@ + c.user_name@ + "' to group '"@
                + c.group_name@ + "'"@,
            ServiceCommand::CreateFolder(c) => "Create folder '"@ + c.folder@ + "'"@,
            ServiceCommand::SetOwnership(c) => "Set ownership on '"@ + c.path@ + "' to user '"@
                + c.user_name@ + "' group '"@ + c.group_name@ + "'"@,
            ServiceCommand::SetMode(c) => "Set mode on '"@ + c.path@ + "' to '"@ + c.mode.text()
                + "'"@,
        }
    }

    /// The command in words.
    pub fn describe(&self) -> (r: String)
        ensures
            r@ == self.described(),
    {
        match self {
            ServiceCommand::CreateUser(c) => c.describe(),
            ServiceCommand::CreateGroup(c) => c.describe(),
            ServiceCommand::AddUserToGroup(c) => c.describe(),
            ServiceCommand::CreateFolder(c) => c.describe(),
            ServiceCommand::SetOwnership(c) => c.describe(),
            ServiceCommand::SetMode(c) => c.describe(),
        }
    }
}

/// What is said once a command has done its work is what was said before, as something done.
pub proof fn law_announcements_repeat_the_plan(command: ServiceCommand)
    ensures
        match command {
            ServiceCommand::SetOwnership(_) | ServiceCommand::SetMode(_) => command.announced()
                == command.described() + "!"@,
            ServiceCommand::CreateGroup(_) | ServiceCommand::CreateFolder(_) => command.announced()
                == "Created"@ + command.described().skip(6) + "!"@,
            ServiceCommand::AddUserToGroup(_) => command.announced() == "Added"@
                + command.described().skip(3) + "!"@,
            ServiceCommand::CreateUser(created) => (command.announced().drop_last()).is_prefix_of(
                "Created"@ + command.described().skip(6),
            ) && command.announced().last() == '!' && ("Created user '"@
                + created.user_name@).is_prefix_of(command.announced()),
        },
        !(command is AddUserToGroup) ==> command.named().is_prefix_of(command.described()),
{
    reveal_strlit("!");
    reveal_strlit("'");
    reveal_strlit("'!");
    reveal_strlit("Created");
    reveal_strlit("Added");
    reveal_strlit("Create user");
    reveal_strlit("Create group");
    reveal_strlit("Create folder");
    reveal_strlit("Set ownership");
    reveal_strlit("Set mode");
    reveal_strlit("Create user '");
    reveal_strlit("Create group '");
    reveal_strlit("Create folder '");
    reveal_strlit("Add user '");
    reveal_strlit("Set ownership on '");
    reveal_strlit("Set mode on '");
    reveal_strlit("Created user '");
    reveal_strlit("Created group '");
    reveal_strlit("Created folder '");
    reveal_strlit("Added user '");
    reveal_strlit("' with primary group '");
    let before = command.described();
    let after = command.announced();
    assert(!(command is AddUserToGroup) ==> before.subrange(0, command.named().len() as int)
        =~= command.named());
    match command {
        ServiceCommand::SetOwnership(_) | ServiceCommand::SetMode(_) => {
            assert(after =~= before + "!"@);
        },
        ServiceCommand::CreateGroup(_) | ServiceCommand::CreateFolder(_) => {
            assert(after =~= "Created"@ + before.skip(6) + "!"@);
        },
        ServiceCommand::AddUserToGroup(_) => {
            assert(after =~= "Added"@ + before.skip(3) + "!"@);
        },
        ServiceCommand::CreateUser(created) => {
            let said = "Created"@ + before.skip(6);
            let start = after.drop_last();
            assert(said.subrange(0, start.len() as int) =~= start);
            let named = "Created user '"@ + created.user_name@;
            assert(after.subrange(0, named.len() as int) =~= named);
        },
    }
}

} // verus!
