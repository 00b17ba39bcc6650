//! Setting up the system service that everything else is asked of.

use crate::commands::{
    CreateFolder, ServiceCommand, ServiceCommandView, SetMode, SetOwnership,
};
use crate::executor::{describe_failed, failed_words, only_reason};
use crate::listener::{ListenerDefinition, LivenessCheck, RunningStatus};
use crate::modes::Modes;
use crate::paths::{join, joined, same_parts, same_path, DouglasFolders, MOUNTS_DIR};
use crate::service::{
    discover_service_state, lacks, plan_service_bootstrap, service_plan, BootstrapReporting,
    ServiceDefinition, ServiceSight, ServiceState, ServiceUser,
};
use crate::text::{cat2, cat3, decimal, decimal_text, same_text};
use vstd::prelude::*;

verus! {

/// The name of the superuser.
pub const ROOT_USER_NAME: &'static str = "root";

/// The name of the superuser's group.
pub const ROOT_GROUP_NAME: &'static str = "root";

/// The group of those who may command douglas.
pub const DOUGLAS_ADMIN_GROUP: &'static str = "douglas-admin";

/// The service that seedlings are asked of.
pub const BRACT: &'static str = "bract";

/// The service that keeps images.
pub const RESIN: &'static str = "resin";

/// The service that keeps declarations.
pub const SEEDBANK: &'static str = "seedbank";

/// The service that watches over the others.
pub const WOODWARD: &'static str = "woodward";

/// Why the system could not be set up.
#[derive(Debug, PartialEq, Eq)]
pub enum BootstrapError {
    FileSystemError(String),
    CredentialsError(String),
    OsError(String),
    MustBeRoot,
    MustHaveRunningDocker,
    FailedBoostrap(Vec<String>),
}

impl BootstrapError {
    /// The error in words.
    pub open spec fn text(&self) -> Seq<char> {
        match self {
            BootstrapError::FileSystemError(error) => "FileSystemError: "@ + error@,
            BootstrapError::CredentialsError(error) => "Credentials error: "@ + error@,
            BootstrapError::OsError(error) => "OS error: "@ + error@,
            BootstrapError::MustBeRoot => "Must be root to proceed"@,
            BootstrapError::MustHaveRunningDocker => "Docker must be running"@,
            BootstrapError::FailedBoostrap(reasons) => failed_words(reasons@),
        }
    }

    /// The error in words.
    pub fn describe(&self) -> (r: String)
        ensures
            r@ == self.text(),
    {
        match self {
            BootstrapError::FileSystemError(error) => cat2("FileSystemError: ", error),
            BootstrapError::CredentialsError(error) => cat2("Credentials error: ", error),
            BootstrapError::OsError(error) => cat2("OS error: ", error),
            BootstrapError::MustBeRoot => "Must be root to proceed".to_owned(),
            BootstrapError::MustHaveRunningDocker => "Docker must be running".to_owned(),
            BootstrapError::FailedBoostrap(reasons) => describe_failed(reasons),
        }
    }
}

/// The places of the service's own that the folders of douglas do not name, and the group that
/// may ask it to reconcile.
#[derive(Debug, PartialEq, Eq)]
pub struct BractPlaces {
    pub services: String,
    pub binary_dir: String,
    pub binary_link: String,
    pub rolodex: String,
    pub credentials: String,
    pub socket_dir: String,
    pub socket_file: String,
    pub trigger_socket_dir: String,
    pub trigger_socket_file: String,
    pub trigger_group: String,
    pub log_dir: String,
    pub heartbeat_dir: String,
}

/// A folder and the permission bits that it has.
pub open spec fn shown_folders(folders: Seq<(String, Modes)>) -> Seq<(Seq<char>, Modes)> {
    folders.map_values(|folder: (String, Modes)| (folder.0@, folder.1))
}

/// The folders of the service.
pub open spec fn bract_folders(folders: DouglasFolders, places: BractPlaces) -> Seq<
    (Seq<char>, Modes),
> {
    seq![
        (
            folders.logs@,
            Modes::InheritedOwnerReadWriteExecuteGroupReadWriteExecuteOtherExecute,
        ),
        (
            folders.transients@,
            Modes::OwnerReadWriteExecuteGroupReadWriteExecuteOtherExecute,
        ),
        (
            folders.seedlings_root@,
            Modes::OwnerReadWriteExecuteGroupReadWriteExecuteOtherExecute,
        ),
        (places.services@, Modes::OwnerReadWriteExecuteGroupReadWriteExecute),
        (
            places.binary_dir@,
            Modes::OwnerReadWriteExecuteGroupReadWriteExecuteOtherExecute,
        ),
        (
            joined(folders.seedlings_root@, MOUNTS_DIR@),
            Modes::OwnerReadWriteExecuteGroupReadWriteExecute,
        ),
        (folders.configs@, Modes::InheritedOwnerReadWriteExecuteGroupReadWriteExecute),
        (places.rolodex@, Modes::InheritedOwnerReadWriteExecuteGroupReadWriteExecute),
        (places.credentials@, Modes::OwnerReadWriteExecute),
        (folders.identity@, Modes::OwnerReadWriteExecute),
        (places.socket_dir@, Modes::OwnerReadWriteExecuteGroupReadWriteExecute),
        (places.trigger_socket_dir@, Modes::OwnerReadWriteExecuteGroupReadWriteExecute),
        (places.log_dir@, Modes::OwnerReadWriteExecuteGroupReadWriteExecute),
        (places.heartbeat_dir@, Modes::InheritedOwnerReadWriteExecuteGroupReadWriteExecute),
    ]
}

/// Whether a socket is at a path, belongs to the superuser and a group, and is open to both alone.
pub open spec fn is_socket(
    socket: ListenerDefinition,
    path: Seq<char>,
    group: Seq<char>,
) -> bool {
    &&& socket.socket_path@ == path
    &&& socket.owning_user@ == ROOT_USER_NAME@
    &&& socket.owning_group@ == group
    &&& socket.mode == Modes::OwnerReadWriteGroupReadWrite
}

/// What the service is made of. It runs as the superuser; its main socket is for those who may
/// command douglas, and its trigger socket for those who may ask it to reconcile.
pub fn service_definition(folders: &DouglasFolders, places: &BractPlaces) -> (r: ServiceDefinition)
    ensures
        r.user matches ServiceUser::System(name) && name@ == ROOT_USER_NAME@,
        r.group@ == DOUGLAS_ADMIN_GROUP@,
        shown_folders(r.owned_folders@) == bract_folders(*folders, *places),
        r.owned_sockets@.len() == 2,
        is_socket(r.owned_sockets@[0], places.socket_file@, DOUGLAS_ADMIN_GROUP@),
        is_socket(r.owned_sockets@[1], places.trigger_socket_file@, places.trigger_group@),
        r.additional_groups@.len() == 0,
        r.bootstrap_reporting == BootstrapReporting::Pipe,
{
    let owned_folders: Vec<(String, Modes)> = vec![
        (
            folders.logs.clone(),
            Modes::InheritedOwnerReadWriteExecuteGroupReadWriteExecuteOtherExecute,
        ),
        (
            folders.transients.clone(),
            Modes::OwnerReadWriteExecuteGroupReadWriteExecuteOtherExecute,
        ),
        (
            folders.seedlings_root.clone(),
            Modes::OwnerReadWriteExecuteGroupReadWriteExecuteOtherExecute,
        ),
        (places.services.clone(), Modes::OwnerReadWriteExecuteGroupReadWriteExecute),
        (
            places.binary_dir.clone(),
            Modes::OwnerReadWriteExecuteGroupReadWriteExecuteOtherExecute,
        ),
        (
            join(&folders.seedlings_root, MOUNTS_DIR),
            Modes::OwnerReadWriteExecuteGroupReadWriteExecute,
        ),
        (folders.configs.clone(), Modes::InheritedOwnerReadWriteExecuteGroupReadWriteExecute),
        (places.rolodex.clone(), Modes::InheritedOwnerReadWriteExecuteGroupReadWriteExecute),
        (places.credentials.clone(), Modes::OwnerReadWriteExecute),
        (folders.identity.clone(), Modes::OwnerReadWriteExecute),
        (places.socket_dir.clone(), Modes::OwnerReadWriteExecuteGroupReadWriteExecute),
        (places.trigger_socket_dir.clone(), Modes::OwnerReadWriteExecuteGroupReadWriteExecute),
        (places.log_dir.clone(), Modes::OwnerReadWriteExecuteGroupReadWriteExecute),
        (
            places.heartbeat_dir.clone(),
            Modes::InheritedOwnerReadWriteExecuteGroupReadWriteExecute,
        ),
    ];
    assert(shown_folders(owned_folders@) =~= bract_folders(*folders, *places));
    let owned_sockets: Vec<ListenerDefinition> = vec![
        ListenerDefinition::new(
            &places.socket_file,
            ROOT_USER_NAME,
            DOUGLAS_ADMIN_GROUP,
            Modes::OwnerReadWriteGroupReadWrite,
        ),
        ListenerDefinition::new(
            &places.trigger_socket_file,
            ROOT_USER_NAME,
            &places.trigger_group,
            Modes::OwnerReadWriteGroupReadWrite,
        ),
    ];
    ServiceDefinition::with_sockets(
        ServiceUser::create_system(ROOT_USER_NAME),
        DOUGLAS_ADMIN_GROUP,
        owned_folders,
        owned_sockets,
        Vec::new(),
        BootstrapReporting::Pipe,
    )
}

/// How it is found out whether the service runs: by its first socket, where it has one.
pub fn bract_socket_check(definition: &ServiceDefinition) -> (r: Option<LivenessCheck>)
    ensures
        r == (if definition.owned_sockets@.len() == 0 {
            None
        } else {
            Some(LivenessCheck::UnixSocket(definition.owned_sockets@[0].socket_path))
        }),
{
    if definition.owned_sockets.len() == 0 {
        None
    } else {
        Some(LivenessCheck::UnixSocket(definition.owned_sockets[0].socket_path.clone()))
    }
}

/// What is done where the binary's link does not lead to the binary.
#[derive(Debug, PartialEq, Eq)]
pub enum LinkAction<'a> {
    Remove { link: &'a String },
    Create { target: &'a String, link: &'a String },
}

/// Makes the link to the binary lead to it. One that leads there already, however the path is
/// written, is left alone.
pub fn ensure_binary_link<'a>(
    leads_to: &Option<String>,
    binary: &'a String,
    link: &'a String,
) -> (r: Vec<LinkAction<'a>>)
    ensures
        r@ == (if *leads_to matches Some(target) && same_parts(target@, binary@) {
            Seq::<LinkAction<'a>>::empty()
        } else {
            seq![LinkAction::Remove { link }, LinkAction::Create { target: binary, link }]
        }),
{
    let mut actions: Vec<LinkAction<'a>> = Vec::new();
    if let Some(target) = leads_to {
        if same_path(target, binary) {
            return actions;
        }
    }
    actions.push(LinkAction::Remove { link });
    actions.push(LinkAction::Create { target: binary, link });
    assert(actions@ =~= seq![LinkAction::Remove { link }, LinkAction::Create { target: binary, link }]);
    actions
}

/// Opens the folder of the trigger socket to the group that may ask the service to reconcile.
pub fn ensure_trigger_socket_accessible(places: &BractPlaces) -> (r: SetOwnership)
    ensures
        r.path@ == places.trigger_socket_dir@,
        r.user_name@ == ROOT_USER_NAME@,
        r.group_name@ == places.trigger_group@,
{
    SetOwnership::new(places.trigger_socket_dir.clone(), ROOT_USER_NAME, &places.trigger_group)
}

/// Whether the network of douglas's own has to be created: where it does not exist yet.
pub fn ensure_system_network(network_exists: bool) -> (r: bool)
    ensures
        r == !network_exists,
{
    !network_exists
}

/// The folder of the rules on who may become whom.
pub const SUDOERS_DIRECTORY: &'static str = "/etc/sudoers.d";

/// The file with the rule that lets the watching service restart the others.
pub const SUDOERS_FILE: &'static str = "/etc/sudoers.d/douglas-kick";

/// The rule that lets the watching service restart the others.
pub open spec fn kick_rule(binary: Seq<char>) -> Seq<char> {
    WOODWARD@ + " ALL=(root) NOPASSWD: "@ + binary + " kick "@ + BRACT@ + ", "@ + binary
        + " kick "@ + RESIN@ + ", "@ + binary + " kick "@ + SEEDBANK@ + "\n"@
}

/// The rule that lets the watching service restart the others.
pub fn sudoers_rule(binary_path: &str) -> (r: String)
    ensures
        r@ == kick_rule(binary_path@),
{
    let mut rule: String = cat2(WOODWARD, " ALL=(root) NOPASSWD: ");
    rule.append(binary_path);
    rule.append(" kick ");
    rule.append(BRACT);
    rule.append(", ");
    rule.append(binary_path);
    rule.append(" kick ");
    rule.append(RESIN);
    rule.append(", ");
    rule.append(binary_path);
    rule.append(" kick ");
    rule.append(SEEDBANK);
    rule.append("\n");
    rule
}

/// What was found of the system.
#[derive(Debug, PartialEq, Eq)]
pub struct State {
    pub is_root: bool,
    pub bract_running_status: RunningStatus,
    pub docker_running_status: RunningStatus,
    pub service: ServiceState,
    pub sudoers_entry_exists: bool,
    pub sudoers_entry_has_correct_mode: bool,
    pub sudoers_entry_has_correct_ownership: bool,
}

/// What was found of the file with the rule. Nothing stands for what could not be read.
#[derive(Debug, PartialEq, Eq)]
pub struct SudoersSight {
    pub present: bool,
    pub ownership: Option<(String, String)>,
    pub mode: Option<Modes>,
}

/// What is known of the system so far.
#[derive(Debug, PartialEq, Eq)]
pub struct Knowledge<'a> {
    pub bract: Option<RunningStatus>,
    pub is_root: Option<bool>,
    /// Whether the container engine answered.
    pub docker_answers: Option<bool>,
    pub service: Option<&'a ServiceSight>,
    pub sudoers: Option<&'a SudoersSight>,
}

/// What has to be found out next.
#[derive(Debug, Clone, Copy, PartialEq, Eq, Structural)]
pub enum Question {
    BractSocket,
    IsRoot,
    PingDocker,
    Service,
    Sudoers,
}

/// What follows from what is known.
#[derive(Debug, PartialEq, Eq)]
pub enum Discovery {
    Ask(Question),
    Known(State),
}

/// What an answer of the container engine says, or that there was none.
pub open spec fn docker_status(answers: bool) -> RunningStatus {
    if answers {
        RunningStatus::Running
    } else {
        RunningStatus::Unknown
    }
}

/// What is asked next. A service that runs is not looked at any further, nor is anything by
/// somebody who is not the superuser, nor without the container engine.
pub open spec fn next_question(knowledge: Knowledge) -> Option<Question> {
    if knowledge.bract is None {
        Some(Question::BractSocket)
    } else if knowledge.bract == Some(RunningStatus::Running) {
        None
    } else if knowledge.is_root is None {
        Some(Question::IsRoot)
    } else if knowledge.is_root == Some(false) {
        None
    } else if knowledge.docker_answers is None {
        Some(Question::PingDocker)
    } else if knowledge.docker_answers == Some(false) {
        None
    } else if knowledge.service is None {
        Some(Question::Service)
    } else if knowledge.sudoers is None {
        Some(Question::Sudoers)
    } else {
        None
    }
}

/// Whether everything was asked that there is to ask.
pub open spec fn looked_all_over(knowledge: Knowledge) -> bool {
    &&& knowledge.bract is Some
    &&& knowledge.bract != Some(RunningStatus::Running)
    &&& knowledge.is_root == Some(true)
    &&& knowledge.docker_answers == Some(true)
}

/// Whether the file with the rule belongs to the superuser.
pub open spec fn is_roots(sight: SudoersSight) -> bool {
    sight.present && (sight.ownership matches Some(owners) && owners.0@ == ROOT_USER_NAME@
        && owners.1@ == ROOT_GROUP_NAME@)
}

/// Whether nothing is known to be missing of the service.
pub open spec fn untouched(state: ServiceState) -> bool {
    &&& !state.group_missing
    &&& !state.user_missing
    &&& !state.group_membership_missing
    &&& state.additional_groups_missing@.len() == 0
    &&& state.additional_group_memberships_missing@.len() == 0
    &&& state.folders_missing@.len() == 0
    &&& state.folders_missing_ownership@.len() == 0
    &&& state.folders_missing_mode@.len() == 0
}

/// Whether this is what was found of the system.
pub open spec fn found(definition: ServiceDefinition, knowledge: Knowledge, state: State) -> bool {
    let engine_asked = knowledge.bract != Some(RunningStatus::Running) && knowledge.is_root == Some(
        true,
    );
    &&& Some(state.bract_running_status) == knowledge.bract
    &&& state.is_root == engine_asked
    &&& state.docker_running_status == (if engine_asked {
        docker_status(knowledge.docker_answers == Some(true))
    } else {
        RunningStatus::NotRunning
    })
    &&& if looked_all_over(knowledge) {
        &&& lacks(definition, *knowledge.service->0, state.service)
        &&& state.sudoers_entry_exists == knowledge.sudoers->0.present
        &&& state.sudoers_entry_has_correct_ownership == is_roots(*knowledge.sudoers->0)
        &&& state.sudoers_entry_has_correct_mode == (knowledge.sudoers->0.present
            && knowledge.sudoers->0.mode == Some(Modes::OwnerReadGroupRead))
    } else {
        &&& untouched(state.service)
        &&& !state.sudoers_entry_exists
        &&& !state.sudoers_entry_has_correct_ownership
        &&& !state.sudoers_entry_has_correct_mode
    }
}

fn sudoers_is_roots(sight: &SudoersSight) -> (r: bool)
    ensures
        r == is_roots(*sight),
{
    if !sight.present {
        return false;
    }
    match &sight.ownership {
        Some(owners) => same_text(&owners.0, ROOT_USER_NAME) && same_text(
            &owners.1,
            ROOT_GROUP_NAME,
        ),
        None => false,
    }
}

/// Looks at the system: what has to be found out next, or what was found.
pub fn discover(definition: &ServiceDefinition, knowledge: &Knowledge<'_>) -> (r: Discovery)
    requires
        knowledge.service matches Some(sight) ==> sight.covers(*definition),
    ensures
        match next_question(*knowledge) {
            Some(question) => r == Discovery::Ask(question),
            None => r matches Discovery::Known(state) && found(*definition, *knowledge, state),
        },
{
    let bract: RunningStatus = match knowledge.bract {
        None => return Discovery::Ask(Question::BractSocket),
        Some(status) => status,
    };
    let mut state: State = State {
        is_root: false,
        bract_running_status: bract,
        docker_running_status: RunningStatus::NotRunning,
        service: ServiceState::default(),
        sudoers_entry_exists: false,
        sudoers_entry_has_correct_mode: false,
        sudoers_entry_has_correct_ownership: false,
    };
    if bract == RunningStatus::Running {
        return Discovery::Known(state);
    }
    match knowledge.is_root {
        None => return Discovery::Ask(Question::IsRoot),
        Some(is_root) => {
            if !is_root {
                return Discovery::Known(state);
            }
        },
    }
    state.is_root = true;
    match knowledge.docker_answers {
        None => return Discovery::Ask(Question::PingDocker),
        Some(answers) => {
            if !answers {
                state.docker_running_status = RunningStatus::Unknown;
                return Discovery::Known(state);
            }
        },
    }
    state.docker_running_status = RunningStatus::Running;
    match knowledge.service {
        None => return Discovery::Ask(Question::Service),
        Some(sight) => {
            state.service = discover_service_state(definition, sight);
        },
    }
    match knowledge.sudoers {
        None => return Discovery::Ask(Question::Sudoers),
        Some(sight) => {
            if sight.present {
                state.sudoers_entry_exists = true;
                state.sudoers_entry_has_correct_ownership = sudoers_is_roots(sight);
                state.sudoers_entry_has_correct_mode = match sight.mode {
                    Some(mode) => mode == Modes::OwnerReadGroupRead,
                    None => false,
                };
            }
        },
    }
    Discovery::Known(state)
}

/// One step of setting up the system.
#[derive(Debug, PartialEq, Eq)]
pub enum Step {
    Service(ServiceCommand),
    CreateSudoersFile { binary_link: String },
    ValidateSudoersFile,
}

/// One step of setting up the system, in texts.
pub enum StepView {
    Service(ServiceCommandView),
    CreateSudoersFile { binary_link: Seq<char> },
    ValidateSudoersFile,
}

impl View for Step {
    type V = StepView;

    open spec fn view(&self) -> StepView {
        match self {
            Step::Service(command) => StepView::Service(command@),
            Step::CreateSudoersFile { binary_link } => StepView::CreateSudoersFile {
                binary_link: binary_link@,
            },
            Step::ValidateSudoersFile => StepView::ValidateSudoersFile,
        }
    }
}

impl Step {
    /// The step in words.
    pub fn describe(&self) -> (r: String)
        ensures
            r@ == (match self {
                Step::Service(command) => command.described(),
                Step::CreateSudoersFile { .. } => "Create sudoers file"@,
                Step::ValidateSudoersFile => "Validate sudoers file"@,
            }),
    {
        match self {
            Step::Service(command) => command.describe(),
            Step::CreateSudoersFile { .. } => "Create sudoers file".to_owned(),
            Step::ValidateSudoersFile => "Validate sudoers file".to_owned(),
        }
    }

    /// The step's name.
    pub fn name(&self) -> (r: String)
        ensures
            r@ == (match self {
                Step::Service(command) => command.named(),
                Step::CreateSudoersFile { .. } => "Creating sudoers file"@,
                Step::ValidateSudoersFile => "Validate sudoers file"@,
            }),
    {
        match self {
            Step::Service(command) => command.name(),
            Step::CreateSudoersFile { .. } => "Creating sudoers file".to_owned(),
            Step::ValidateSudoersFile => "Validate sudoers file".to_owned(),
        }
    }
}

/// A step where it is needed.
pub open spec fn only_if(needed: bool, step: StepView) -> Seq<StepView> {
    if needed {
        seq![step]
    } else {
        Seq::empty()
    }
}

/// The steps that set up the service itself.
pub open spec fn service_steps(definition: ServiceDefinition, state: ServiceState) -> Seq<StepView> {
    service_plan(definition, state).map_values(|command: ServiceCommand| StepView::Service(command@))
}

/// The steps that make the folder of the rules ready.
pub open spec fn sudoers_directory_steps() -> Seq<StepView> {
    seq![
        StepView::Service(ServiceCommandView::CreateFolder { folder: SUDOERS_DIRECTORY@ }),
        StepView::Service(
            ServiceCommandView::SetOwnership {
                path: SUDOERS_DIRECTORY@,
                user_name: ROOT_USER_NAME@,
                group_name: ROOT_GROUP_NAME@,
            },
        ),
        StepView::Service(
            ServiceCommandView::SetMode { path: SUDOERS_DIRECTORY@, mode: Modes::Other(0o755) },
        ),
    ]
}

/// The steps that put the rule in place. It is checked whether it is new or not, and only then
/// given to the superuser and closed.
pub open spec fn sudoers_file_steps(state: State, binary_link: Seq<char>) -> Seq<StepView> {
    only_if(!state.sudoers_entry_exists, StepView::CreateSudoersFile { binary_link }) + seq![
        StepView::ValidateSudoersFile,
    ] + only_if(
        !state.sudoers_entry_has_correct_ownership,
        StepView::Service(
            ServiceCommandView::SetOwnership {
                path: SUDOERS_FILE@,
                user_name: ROOT_USER_NAME@,
                group_name: ROOT_GROUP_NAME@,
            },
        ),
    ) + only_if(
        !state.sudoers_entry_has_correct_mode,
        StepView::Service(
            ServiceCommandView::SetMode { path: SUDOERS_FILE@, mode: Modes::OwnerReadGroupRead },
        ),
    )
}

/// Steps, in texts.
pub open spec fn shown(steps: Seq<Step>) -> Seq<StepView> {
    steps.map_values(|step: Step| step@)
}

fn push_step(steps: &mut Vec<Step>, step: Step)
    ensures
        shown(final(steps)@) == shown(old(steps)@).push(step@),
{
    steps.push(step);
    assert(shown(steps@) =~= shown(old(steps)@).push(step@));
}

fn service_bootstrap(definition: &ServiceDefinition, state: &ServiceState) -> (r: Vec<Step>)
    ensures
        shown(r@) == service_steps(*definition, *state),
{
    let mut commands: Vec<ServiceCommand> = plan_service_bootstrap(definition, state);
    let ghost all = commands@;
    let mut reversed: Vec<ServiceCommand> = Vec::new();
    while commands.len() > 0
        invariant
            commands@.len() + reversed@.len() == all.len(),
            commands@ == all.take(commands@.len() as int),
            forall|i: int| 0 <= i < reversed@.len() ==> reversed@[i] == all[all.len() - 1 - i],
        decreases commands@.len(),
    {
        let ghost n = commands@.len() as int;
        match commands.pop() {
            Some(command) => {
                assert(command == all[n - 1]);
                reversed.push(command);
            },
            None => {},
        }
        assert(commands@ =~= all.take(n - 1));
    }
    let mut steps: Vec<Step> = Vec::new();
    while reversed.len() > 0
        invariant
            steps@.len() + reversed@.len() == all.len(),
            forall|i: int| 0 <= i < reversed@.len() ==> reversed@[i] == all[all.len() - 1 - i],
            forall|i: int| 0 <= i < steps@.len() ==> steps@[i] == Step::Service(all[i]),
        decreases reversed@.len(),
    {
        match reversed.pop() {
            Some(command) => steps.push(Step::Service(command)),
            None => {},
        }
    }
    assert(shown(steps@) =~= service_steps(*definition, *state));
    steps
}

fn push_sudoers_directory(steps: &mut Vec<Step>)
    ensures
        shown(final(steps)@) == shown(old(steps)@) + sudoers_directory_steps(),
{
    push_step(
        steps,
        Step::Service(ServiceCommand::CreateFolder(CreateFolder::new(SUDOERS_DIRECTORY.to_owned()))),
    );
    push_step(
        steps,
        Step::Service(
            ServiceCommand::SetOwnership(
                SetOwnership::new(SUDOERS_DIRECTORY.to_owned(), ROOT_USER_NAME, ROOT_GROUP_NAME),
            ),
        ),
    );
    push_step(
        steps,
        Step::Service(
            ServiceCommand::SetMode(
                SetMode::new(SUDOERS_DIRECTORY.to_owned(), Modes::Other(0o755)),
            ),
        ),
    );
    assert(shown(steps@) =~= shown(old(steps)@) + sudoers_directory_steps());
}

fn push_sudoers_file(steps: &mut Vec<Step>, state: &State, binary_link: &String)
    ensures
        shown(final(steps)@) == shown(old(steps)@) + sudoers_file_steps(*state, binary_link@),
{
    if !state.sudoers_entry_exists {
        push_step(steps, Step::CreateSudoersFile { binary_link: binary_link.clone() });
    }
    push_step(steps, Step::ValidateSudoersFile);
    if !state.sudoers_entry_has_correct_ownership {
        push_step(
            steps,
            Step::Service(
                ServiceCommand::SetOwnership(
                    SetOwnership::new(SUDOERS_FILE.to_owned(), ROOT_USER_NAME, ROOT_GROUP_NAME),
                ),
            ),
        );
    }
    if !state.sudoers_entry_has_correct_mode {
        push_step(
            steps,
            Step::Service(
                ServiceCommand::SetMode(
                    SetMode::new(SUDOERS_FILE.to_owned(), Modes::OwnerReadGroupRead),
                ),
            ),
        );
    }
    assert(shown(steps@) =~= shown(old(steps)@) + sudoers_file_steps(*state, binary_link@));
}

/// The steps that set up the system.
pub open spec fn planned(
    definition: ServiceDefinition,
    state: State,
    binary_link: Seq<char>,
) -> Seq<StepView> {
    service_steps(definition, state.service) + sudoers_directory_steps() + sudoers_file_steps(
        state,
        binary_link,
    )
}

/// Plans the setting up of the system. Where the service runs there is nothing to do; without the
/// container engine, or without the superuser's rights, nothing can be done.
pub fn create_plan(definition: &ServiceDefinition, state: State, binary_link: &String) -> (r: Result<
    Vec<Step>,
    BootstrapError,
>)
    ensures
        if state.bract_running_status == RunningStatus::Running {
            r matches Ok(steps) && steps@.len() == 0
        } else if state.docker_running_status != RunningStatus::Running {
            r == Err::<Vec<Step>, BootstrapError>(BootstrapError::MustHaveRunningDocker)
        } else if !state.is_root {
            r == Err::<Vec<Step>, BootstrapError>(BootstrapError::MustBeRoot)
        } else {
            r matches Ok(steps) && shown(steps@) == planned(*definition, state, binary_link@)
        },
{
    if state.bract_running_status == RunningStatus::Running {
        return Ok(Vec::new());
    }
    if state.docker_running_status != RunningStatus::Running {
        return Err(BootstrapError::MustHaveRunningDocker);
    }
    if !state.is_root {
        return Err(BootstrapError::MustBeRoot);
    }
    let mut steps: Vec<Step> = service_bootstrap(definition, &state.service);
    push_sudoers_directory(&mut steps);
    push_sudoers_file(&mut steps, &state, binary_link);
    Ok(steps)
}

/// Every plan checks the rule, and of what it does with the rule only the writing comes before
/// that: a rule is never given to the superuser, nor closed, before it was checked.
pub proof fn law_rules_are_checked_before_they_count(
    definition: ServiceDefinition,
    state: State,
    binary_link: Seq<char>,
)
    ensures
        planned(definition, state, binary_link).contains(StepView::ValidateSudoersFile),
        forall|i: int|
            0 <= i < sudoers_file_steps(state, binary_link).len() && !(#[trigger]
            sudoers_file_steps(state, binary_link)[i] is CreateSudoersFile)
                ==> sudoers_file_steps(state, binary_link).take(i + 1).contains(
                StepView::ValidateSudoersFile,
            ),
{
    let head = service_steps(definition, state.service) + sudoers_directory_steps();
    let tail = sudoers_file_steps(state, binary_link);
    let written = only_if(!state.sudoers_entry_exists, StepView::CreateSudoersFile { binary_link });
    let at = written.len() as int;
    assert(tail[at] == StepView::ValidateSudoersFile);
    assert(planned(definition, state, binary_link)[head.len() + at] == tail[at]);
    assert forall|i: int| 0 <= i < tail.len() && !(#[trigger] tail[i] is CreateSudoersFile) implies
        tail.take(i + 1).contains(StepView::ValidateSudoersFile) by {
        if i < at {
            assert(tail[i] == written[i]);
        } else {
            assert(tail.take(i + 1)[at] == tail[at]);
        }
    }
}

/// Under how many names the checker of rules is looked for.
pub const VISUDO_CANDIDATES: usize = 5;

/// A name under which the checker of rules is looked for.
pub open spec fn candidate_of(i: int) -> Seq<char> {
    if i == 0 {
        "visudo"@
    } else if i == 1 {
        "/usr/sbin/visudo"@
    } else if i == 2 {
        "/sbin/visudo"@
    } else if i == 3 {
        "/usr/bin/visudo"@
    } else {
        "/run/current-system/sw/bin/visudo"@
    }
}

/// A name under which the checker of rules is looked for.
pub fn visudo_candidate(i: usize) -> (r: String)
    requires
        i < VISUDO_CANDIDATES,
    ensures
        r@ == candidate_of(i as int),
{
    if i == 0 {
        "visudo".to_owned()
    } else if i == 1 {
        "/usr/sbin/visudo".to_owned()
    } else if i == 2 {
        "/sbin/visudo".to_owned()
    } else if i == 3 {
        "/usr/bin/visudo".to_owned()
    } else {
        "/run/current-system/sw/bin/visudo".to_owned()
    }
}

/// What the checker of rules is told: to check one file and do nothing else.
pub fn visudo_arguments() -> (r: Vec<String>)
    ensures
        r@.len() == 3,
        r@[0]@ == "-c"@,
        r@[1]@ == "-f"@,
        r@[2]@ == SUDOERS_FILE@,
{
    vec!["-c".to_owned(), "-f".to_owned(), SUDOERS_FILE.to_owned()]
}

/// Why the rule could not be accepted.
#[derive(Debug, PartialEq, Eq)]
pub enum ValidateSudoersFileError {
    OsError(String),
    CommandNotFound,
    ValidationFailed { code: Option<i32> },
}

/// A number with its sign.
pub open spec fn signed(n: int) -> Seq<char> {
    if n < 0 {
        "-"@ + decimal((-n) as nat)
    } else {
        decimal(n as nat)
    }
}

fn signed_text(n: i32) -> (r: String)
    ensures
        r@ == signed(n as int),
{
    if n < 0 {
        let wide: i64 = n as i64;
        cat2("-", &decimal_text((-wide) as u64))
    } else {
        decimal_text(n as u64)
    }
}

impl ValidateSudoersFileError {
    /// The error in words.
    pub fn describe(&self) -> (r: String)
        ensures
            r@ == (match self {
                ValidateSudoersFileError::OsError(error) => "OS error: "@ + error@,
                ValidateSudoersFileError::CommandNotFound => "visudo could not be found"@,
                ValidateSudoersFileError::ValidationFailed { code: Some(code) } =>
                    "visudo rejected the sudoers file (exit status Some("@ + signed(*code as int)
                    + "))"@,
                ValidateSudoersFileError::ValidationFailed { code: None } =>
                    "visudo rejected the sudoers file (exit status None)"@,
            }),
    {
        match self {
            ValidateSudoersFileError::OsError(error) => cat2("OS error: ", error),
            ValidateSudoersFileError::CommandNotFound => "visudo could not be found".to_owned(),
            ValidateSudoersFileError::ValidationFailed { code } => match code {
                Some(code) => cat3(
                    "visudo rejected the sudoers file (exit status Some(",
                    &signed_text(*code),
                    "))",
                ),
                None => "visudo rejected the sudoers file (exit status None)".to_owned(),
            },
        }
    }
}

/// What came of running the checker of rules under one of its names.
#[derive(Debug, PartialEq, Eq)]
pub enum Execution {
    Accepted,
    /// There is nothing under that name.
    NotFound,
    Rejected { code: Option<i32> },
    Failed(String),
}

/// What is tried next, or what the check came to.
#[derive(Debug, PartialEq, Eq)]
pub enum Validation {
    /// The checker is run under the name with this index.
    Try(usize),
    Done(Result<(), ValidateSudoersFileError>),
}

/// Goes on after the checker of rules was run under a name: where there was nothing under it, the
/// next name is tried.
pub fn validate(at: usize, execution: Execution) -> (r: Validation)
    requires
        at < VISUDO_CANDIDATES,
    ensures
        r == (match execution {
            Execution::Accepted => Validation::Done(Ok(())),
            Execution::NotFound => if at + 1 < VISUDO_CANDIDATES {
                Validation::Try((at + 1) as usize)
            } else {
                Validation::Done(Err(ValidateSudoersFileError::CommandNotFound))
            },
            Execution::Rejected { code } => Validation::Done(
                Err(ValidateSudoersFileError::ValidationFailed { code }),
            ),
            Execution::Failed(error) => Validation::Done(
                Err(ValidateSudoersFileError::OsError(error)),
            ),
        }),
{
    match execution {
        Execution::Accepted => Validation::Done(Ok(())),
        Execution::NotFound => {
            if at + 1 < VISUDO_CANDIDATES {
                Validation::Try(at + 1)
            } else {
                Validation::Done(Err(ValidateSudoersFileError::CommandNotFound))
            }
        },
        Execution::Rejected { code } => Validation::Done(
            Err(ValidateSudoersFileError::ValidationFailed { code }),
        ),
        Execution::Failed(error) => Validation::Done(
            Err(ValidateSudoersFileError::OsError(error)),
        ),
    }
}

/// Whether the file with the rule is deleted after the check: only where the checker rejected it.
pub fn deletes_rule(result: &Result<(), ValidateSudoersFileError>) -> (r: bool)
    ensures
        r == (*result matches Err(ValidateSudoersFileError::ValidationFailed { .. })),
{
    match result {
        Err(ValidateSudoersFileError::ValidationFailed { .. }) => true,
        _ => false,
    }
}

/// How far the setting up has come. A failure is kept in words.
#[derive(Debug, PartialEq, Eq)]
pub struct Progress {
    pub connected: Option<Result<(), String>>,
    pub state: Option<Standing>,
    pub network: Option<Result<(), String>>,
    pub executable: Option<Result<(), String>>,
    pub planned: Option<Result<(), Refusal>>,
    pub executed: Option<Result<(), String>>,
    pub linked: Option<Result<(), String>>,
    pub opened: Option<Result<(), String>>,
}

/// What the setting up rests on.
#[derive(Debug, Clone, Copy, PartialEq, Eq, Structural)]
pub struct Standing {
    pub is_root: bool,
    pub docker_running_status: RunningStatus,
}

/// Why there is no plan.
#[derive(Debug, Clone, Copy, PartialEq, Eq, Structural)]
pub enum Refusal {
    MustBeRoot,
    MustHaveRunningDocker,
}

/// How the setting up failed.
#[derive(Debug, PartialEq, Eq)]
pub enum Failure<'a> {
    MustBeRoot,
    MustHaveRunningDocker,
    OsError(&'a String),
    Failed(&'a String),
}

/// What is done next.
#[derive(Debug, PartialEq, Eq)]
pub enum Call<'a> {
    ConnectDocker,
    Discover,
    EnsureSystemNetwork,
    FindExecutable,
    Plan,
    Execute,
    EnsureBinaryLink,
    EnsureTriggerSocketAccessible,
    Succeed,
    Fail(Failure<'a>),
}

/// What is done next. The network of douglas's own is looked after before there is a plan, the
/// link and the trigger socket only after the plan was carried out.
pub open spec fn called<'a>(p: Progress) -> Call<'a> {
    match (p.connected, p.state) {
        (None, _) => Call::ConnectDocker,
        (Some(Err(reason)), _) => Call::Fail(Failure::Failed(&reason)),
        (Some(Ok(_)), None) => Call::Discover,
        (Some(Ok(_)), Some(standing)) => if !standing.is_root {
            Call::Fail(Failure::MustBeRoot)
        } else if standing.docker_running_status == RunningStatus::NotRunning {
            Call::Fail(Failure::MustHaveRunningDocker)
        } else if standing.docker_running_status == RunningStatus::Running && p.network is None {
            Call::EnsureSystemNetwork
        } else if standing.docker_running_status == RunningStatus::Running && p.network->0 is Err {
            Call::Fail(Failure::Failed(&p.network->0->Err_0))
        } else {
            called_after_network(p)
        },
    }
}

/// What is done next once the network of douglas's own is there.
pub open spec fn called_after_network<'a>(p: Progress) -> Call<'a> {
    match (p.executable, p.planned, p.executed) {
        (None, _, _) => Call::FindExecutable,
        (Some(Err(reason)), _, _) => Call::Fail(Failure::OsError(&reason)),
        (_, None, _) => Call::Plan,
        (_, Some(Err(Refusal::MustBeRoot)), _) => Call::Fail(Failure::MustBeRoot),
        (_, Some(Err(Refusal::MustHaveRunningDocker)), _) => Call::Fail(
            Failure::MustHaveRunningDocker,
        ),
        (_, _, None) => Call::Execute,
        (_, _, Some(Err(reason))) => Call::Fail(Failure::Failed(&reason)),
        (_, _, Some(Ok(_))) => match (p.linked, p.opened) {
            (None, _) => Call::EnsureBinaryLink,
            (Some(Err(reason)), _) => Call::Fail(Failure::Failed(&reason)),
            (_, None) => Call::EnsureTriggerSocketAccessible,
            (_, Some(Err(reason))) => Call::Fail(Failure::Failed(&reason)),
            (_, Some(Ok(_))) => Call::Succeed,
        },
    }
}

fn bootstrap_after_network<'a>(p: &'a Progress) -> (r: Call<'a>)
    ensures
        r == called_after_network::<'a>(*p),
{
    match &p.executable {
        None => return Call::FindExecutable,
        Some(Err(reason)) => return Call::Fail(Failure::OsError(reason)),
        Some(Ok(_)) => {},
    }
    match &p.planned {
        None => return Call::Plan,
        Some(Err(Refusal::MustBeRoot)) => return Call::Fail(Failure::MustBeRoot),
        Some(Err(Refusal::MustHaveRunningDocker)) => return Call::Fail(
            Failure::MustHaveRunningDocker,
        ),
        Some(Ok(_)) => {},
    }
    match &p.executed {
        None => return Call::Execute,
        Some(Err(reason)) => return Call::Fail(Failure::Failed(reason)),
        Some(Ok(_)) => {},
    }
    match &p.linked {
        None => return Call::EnsureBinaryLink,
        Some(Err(reason)) => return Call::Fail(Failure::Failed(reason)),
        Some(Ok(_)) => {},
    }
    match &p.opened {
        None => Call::EnsureTriggerSocketAccessible,
        Some(Err(reason)) => Call::Fail(Failure::Failed(reason)),
        Some(Ok(_)) => Call::Succeed,
    }
}

/// What is done next in setting up the system.
pub fn bootstrap<'a>(p: &'a Progress) -> (r: Call<'a>)
    ensures
        r == called::<'a>(*p),
{
    match &p.connected {
        None => return Call::ConnectDocker,
        Some(Err(reason)) => return Call::Fail(Failure::Failed(reason)),
        Some(Ok(_)) => {},
    }
    let standing: Standing = match p.state {
        None => return Call::Discover,
        Some(standing) => standing,
    };
    if !standing.is_root {
        return Call::Fail(Failure::MustBeRoot);
    }
    if standing.docker_running_status == RunningStatus::NotRunning {
        return Call::Fail(Failure::MustHaveRunningDocker);
    }
    if standing.docker_running_status == RunningStatus::Running {
        match &p.network {
            None => return Call::EnsureSystemNetwork,
            Some(Err(reason)) => return Call::Fail(Failure::Failed(reason)),
            Some(Ok(_)) => {},
        }
    }
    bootstrap_after_network(p)
}

/// Nothing done yet.
pub open spec fn nothing_set_up() -> Progress {
    Progress {
        connected: None,
        state: None,
        network: None,
        executable: None,
        planned: None,
        executed: None,
        linked: None,
        opened: None,
    }
}

/// What comes of what is done in setting up the system. A failure is kept in words.
#[derive(Debug, PartialEq, Eq)]
pub enum BootstrapEvent {
    Connected(Result<(), String>),
    Discovered(Standing),
    Network(Result<(), String>),
    Executable(Result<(), String>),
    Planned(Result<(), Refusal>),
    Executed(Result<(), String>),
    Linked(Result<(), String>),
    Opened(Result<(), String>),
}

/// Whether this can come of what is done next.
pub open spec fn sets_up(p: Progress, event: BootstrapEvent) -> bool {
    match event {
        BootstrapEvent::Connected(_) => called(p) is ConnectDocker,
        BootstrapEvent::Discovered(_) => called(p) is Discover,
        BootstrapEvent::Network(_) => called(p) is EnsureSystemNetwork,
        BootstrapEvent::Executable(_) => called(p) is FindExecutable,
        BootstrapEvent::Planned(_) => called(p) is Plan,
        BootstrapEvent::Executed(_) => called(p) is Execute,
        BootstrapEvent::Linked(_) => called(p) is EnsureBinaryLink,
        BootstrapEvent::Opened(_) => called(p) is EnsureTriggerSocketAccessible,
    }
}

/// How far the setting up has come after what was done. What cannot come of it changes nothing.
pub open spec fn set_up(p: Progress, event: BootstrapEvent) -> Progress {
    if !sets_up(p, event) {
        p
    } else {
        match event {
            BootstrapEvent::Connected(result) => Progress { connected: Some(result), ..p },
            BootstrapEvent::Discovered(standing) => Progress { state: Some(standing), ..p },
            BootstrapEvent::Network(result) => Progress { network: Some(result), ..p },
            BootstrapEvent::Executable(result) => Progress { executable: Some(result), ..p },
            BootstrapEvent::Planned(result) => Progress { planned: Some(result), ..p },
            BootstrapEvent::Executed(result) => Progress { executed: Some(result), ..p },
            BootstrapEvent::Linked(result) => Progress { linked: Some(result), ..p },
            BootstrapEvent::Opened(result) => Progress { opened: Some(result), ..p },
        }
    }
}

impl Progress {
    /// Nothing done yet.
    pub fn start() -> (r: Self)
        ensures
            r == nothing_set_up(),
    {
        Progress {
            connected: None,
            state: None,
            network: None,
            executable: None,
            planned: None,
            executed: None,
            linked: None,
            opened: None,
        }
    }

    fn is_set_up_by(&self, event: &BootstrapEvent) -> (r: bool)
        ensures
            r == sets_up(*self, *event),
    {
        match (bootstrap(self), event) {
            (Call::ConnectDocker, BootstrapEvent::Connected(_)) => true,
            (Call::Discover, BootstrapEvent::Discovered(_)) => true,
            (Call::EnsureSystemNetwork, BootstrapEvent::Network(_)) => true,
            (Call::FindExecutable, BootstrapEvent::Executable(_)) => true,
            (Call::Plan, BootstrapEvent::Planned(_)) => true,
            (Call::Execute, BootstrapEvent::Executed(_)) => true,
            (Call::EnsureBinaryLink, BootstrapEvent::Linked(_)) => true,
            (Call::EnsureTriggerSocketAccessible, BootstrapEvent::Opened(_)) => true,
            _ => false,
        }
    }

    /// How far the setting up has come after what was done.
    pub fn after(self, event: BootstrapEvent) -> (r: Self)
        ensures
            r == set_up(self, event),
    {
        let mut progress: Self = self;
        if !progress.is_set_up_by(&event) {
            return progress;
        }
        match event {
            BootstrapEvent::Connected(result) => progress.connected = Some(result),
            BootstrapEvent::Discovered(standing) => progress.state = Some(standing),
            BootstrapEvent::Network(result) => progress.network = Some(result),
            BootstrapEvent::Executable(result) => progress.executable = Some(result),
            BootstrapEvent::Planned(result) => progress.planned = Some(result),
            BootstrapEvent::Executed(result) => progress.executed = Some(result),
            BootstrapEvent::Linked(result) => progress.linked = Some(result),
            BootstrapEvent::Opened(result) => progress.opened = Some(result),
        }
        progress
    }
}

/// How far the setting up has come after all that was done, from nothing done.
pub open spec fn set_up_by(events: Seq<BootstrapEvent>) -> Progress
    decreases events.len(),
{
    if events.len() == 0 {
        nothing_set_up()
    } else {
        set_up(set_up_by(events.drop_last()), events.last())
    }
}

/// Whether each of these, in order, came of what was done next.
pub open spec fn sets_up_in_turn(events: Seq<BootstrapEvent>) -> bool
    decreases events.len(),
{
    events.len() == 0 || (sets_up_in_turn(events.drop_last()) && sets_up(
        set_up_by(events.drop_last()),
        events.last(),
    ))
}

/// What comes of setting the system up where everything succeeds: the network of douglas's own is
/// looked after where the container engine runs.
pub open spec fn smooth(standing: Standing) -> Seq<BootstrapEvent> {
    seq![BootstrapEvent::Connected(Ok(())), BootstrapEvent::Discovered(standing)] + (
    if standing.docker_running_status == RunningStatus::Running {
        seq![BootstrapEvent::Network(Ok(()))]
    } else {
        Seq::empty()
    }) + seq![
        BootstrapEvent::Executable(Ok(())),
        BootstrapEvent::Planned(Ok(())),
        BootstrapEvent::Executed(Ok(())),
        BootstrapEvent::Linked(Ok(())),
        BootstrapEvent::Opened(Ok(())),
    ]
}

spec fn told<T>(fact: Option<T>, event: BootstrapEvent) -> Seq<BootstrapEvent> {
    if fact is Some {
        seq![event]
    } else {
        Seq::empty()
    }
}

spec fn all_told(p: Progress) -> Seq<BootstrapEvent> {
    told(p.connected, BootstrapEvent::Connected(p.connected->0)) + told(
        p.state,
        BootstrapEvent::Discovered(p.state->0),
    ) + told(p.network, BootstrapEvent::Network(p.network->0)) + told(
        p.executable,
        BootstrapEvent::Executable(p.executable->0),
    ) + told(p.planned, BootstrapEvent::Planned(p.planned->0)) + told(
        p.executed,
        BootstrapEvent::Executed(p.executed->0),
    ) + told(p.linked, BootstrapEvent::Linked(p.linked->0)) + told(
        p.opened,
        BootstrapEvent::Opened(p.opened->0),
    )
}

spec fn orderly(p: Progress) -> bool {
    let engine_runs = p.state is Some && p.state->0.docker_running_status == RunningStatus::Running;
    &&& p.state is Some ==> (p.connected matches Some(Ok(_)))
    &&& p.network is Some ==> engine_runs
    &&& p.executable is Some ==> p.state is Some && p.state->0.is_root
    &&& p.executable is Some && engine_runs ==> (p.network matches Some(Ok(_)))
    &&& p.planned is Some ==> (p.executable matches Some(Ok(_)))
    &&& p.executed is Some ==> (p.planned matches Some(Ok(_)))
    &&& p.linked is Some ==> (p.executed matches Some(Ok(_)))
    &&& p.opened is Some ==> (p.linked matches Some(Ok(_)))
}

proof fn lemma_setting_up_tells_what_happened(events: Seq<BootstrapEvent>)
    requires
        sets_up_in_turn(events),
    ensures
        orderly(set_up_by(events)),
        events == all_told(set_up_by(events)),
    decreases events.len(),
{
    if events.len() == 0 {
        assert(events =~= all_told(nothing_set_up()));
    } else {
        let rest = events.drop_last();
        lemma_setting_up_tells_what_happened(rest);
        let before = set_up_by(rest);
        let now = set_up(before, events.last());
        match events.last() {
            BootstrapEvent::Connected(_) => {
                assert(all_told(now) =~= all_told(before).push(events.last()));
            },
            BootstrapEvent::Discovered(_) => {
                assert(all_told(now) =~= all_told(before).push(events.last()));
            },
            BootstrapEvent::Network(_) => {
                assert(all_told(now) =~= all_told(before).push(events.last()));
            },
            BootstrapEvent::Executable(_) => {
                assert(all_told(now) =~= all_told(before).push(events.last()));
            },
            BootstrapEvent::Planned(_) => {
                assert(all_told(now) =~= all_told(before).push(events.last()));
            },
            BootstrapEvent::Executed(_) => {
                assert(all_told(now) =~= all_told(before).push(events.last()));
            },
            BootstrapEvent::Linked(_) => {
                assert(all_told(now) =~= all_told(before).push(events.last()));
            },
            BootstrapEvent::Opened(_) => {
                assert(all_told(now) =~= all_told(before).push(events.last()));
            },
        }
        assert(events =~= rest.push(events.last()));
    }
}

proof fn lemma_done<E>(result: Result<(), E>)
    requires
        result is Ok,
    ensures
        result == Ok::<(), E>(()),
{
    let unit: () = result->Ok_0;
    assert(unit == ());
}

/// The setting up succeeds after exactly what [`smooth`] lists, for the superuser.
pub proof fn law_setting_up_succeeds_one_way(events: Seq<BootstrapEvent>)
    requires
        sets_up_in_turn(events),
        called(set_up_by(events)) is Succeed,
    ensures
        set_up_by(events).state matches Some(standing) && standing.is_root && events == smooth(
            standing,
        ),
{
    lemma_setting_up_tells_what_happened(events);
    let p = set_up_by(events);
    lemma_done(p.connected->0);
    lemma_done(p.executable->0);
    lemma_done(p.planned->0);
    lemma_done(p.executed->0);
    lemma_done(p.linked->0);
    lemma_done(p.opened->0);
    if p.state->0.docker_running_status == RunningStatus::Running {
        lemma_done(p.network->0);
    }
    assert(events =~= smooth(p.state->0));
}

/// The error that a failure is passed on as.
pub fn failure_error(failure: &Failure<'_>) -> (r: BootstrapError)
    ensures
        match failure {
            Failure::MustBeRoot => r == BootstrapError::MustBeRoot,
            Failure::MustHaveRunningDocker => r == BootstrapError::MustHaveRunningDocker,
            Failure::OsError(error) => r == BootstrapError::OsError(**error),
            Failure::Failed(reason) => r matches BootstrapError::FailedBoostrap(reasons)
                && reasons@ == seq![**reason],
        },
{
    match failure {
        Failure::MustBeRoot => BootstrapError::MustBeRoot,
        Failure::MustHaveRunningDocker => BootstrapError::MustHaveRunningDocker,
        Failure::OsError(error) => BootstrapError::OsError((*error).clone()),
        Failure::Failed(reason) => {
            BootstrapError::FailedBoostrap(only_reason((*reason).clone()))
        },
    }
}

/// Nothing of the system is changed for somebody who is not the superuser.
pub proof fn law_only_root_changes_the_system<'a>(p: Progress)
    requires
        called::<'a>(p) is EnsureSystemNetwork || called::<'a>(p) is Execute || called::<'a>(
            p,
        ) is EnsureBinaryLink || called::<'a>(p) is EnsureTriggerSocketAccessible,
    ensures
        p.state matches Some(standing) && standing.is_root && standing.docker_running_status
            != RunningStatus::NotRunning,
{
}

/// The setting up succeeds only once the plan was carried out and the link and the trigger socket
/// are in place.
pub proof fn law_success_means_everything_was_done<'a>(p: Progress)
    requires
        called::<'a>(p) is Succeed,
    ensures
        p.executed matches Some(Ok(_)),
        p.linked matches Some(Ok(_)),
        p.opened matches Some(Ok(_)),
{
}

/// What is looked at follows from what is known: nothing more where the service runs, where one is
/// not the superuser, or where the container engine does not answer; else the service and then the
/// file with the rule.
pub proof fn law_questions_stop_where_nothing_can_be_done(knowledge: Knowledge)
    ensures
        ({
            let down = knowledge.bract is Some && knowledge.bract != Some(RunningStatus::Running);
            let root = down && knowledge.is_root == Some(true);
            let engine = root && knowledge.docker_answers == Some(true);
            let question = next_question(knowledge);
            &&& question == Some(Question::BractSocket) <==> knowledge.bract is None
            &&& question == Some(Question::IsRoot) <==> down && knowledge.is_root is None
            &&& question == Some(Question::PingDocker) <==> root && knowledge.docker_answers
                is None
            &&& question == Some(Question::Service) <==> engine && knowledge.service is None
            &&& question == Some(Question::Sudoers) <==> engine && knowledge.service is Some
                && knowledge.sudoers is None
        }),
{
    assert(knowledge.bract matches Some(b) ==> knowledge.bract == Some(b));
    assert(knowledge.is_root matches Some(b) ==> knowledge.is_root == Some(b));
    assert(knowledge.docker_answers matches Some(b) ==> knowledge.docker_answers == Some(b));
}

/// What is found is what is known: who acts, whether the engine answered, what the service lacks,
/// and of the file with the rule whether it is there, belongs to the superuser and is closed to
/// writing. What was not looked at lacks nothing and is not there.
pub proof fn law_what_is_found_is_what_is_known(
    definition: ServiceDefinition,
    knowledge: Knowledge,
    state: State,
)
    requires
        found(definition, knowledge, state),
    ensures
        ({
            let root = knowledge.bract != Some(RunningStatus::Running) && knowledge.is_root == Some(
                true,
            );
            let engine = knowledge.bract is Some && root && knowledge.docker_answers == Some(true);
            &&& Some(state.bract_running_status) == knowledge.bract
            &&& state.is_root == root
            &&& state.docker_running_status == (if !root {
                RunningStatus::NotRunning
            } else if knowledge.docker_answers == Some(true) {
                RunningStatus::Running
            } else {
                RunningStatus::Unknown
            })
            &&& engine ==> lacks(definition, *knowledge.service->0, state.service)
            &&& !engine ==> service_plan(definition, state.service).len() == 0
            &&& state.sudoers_entry_exists == (engine && knowledge.sudoers->0.present)
            &&& state.sudoers_entry_has_correct_ownership == (engine
                && knowledge.sudoers->0.present && (knowledge.sudoers->0.ownership matches Some(
                owners,
            ) && owners.0@ == "root"@ && owners.1@ == "root"@))
            &&& state.sudoers_entry_has_correct_mode == (engine && knowledge.sudoers->0.present
                && knowledge.sudoers->0.mode == Some(Modes::OwnerReadGroupRead))
        }),
{
}

/// A plan first gives the service what it lacks, then makes the folder of the rules the
/// superuser's, and then writes the rule where there is none, checks it, and gives it to the
/// superuser and closes it where that is not so already.
pub proof fn law_plans_end_with_the_rule(
    definition: ServiceDefinition,
    state: State,
    binary_link: Seq<char>,
    i: int,
)
    ensures
        ({
            let plan = planned(definition, state, binary_link);
            let commands = service_plan(definition, state.service);
            let n = commands.len() as int;
            let check = n + 3 + (if state.sudoers_entry_exists {
                0int
            } else {
                1
            });
            let owner = if state.sudoers_entry_has_correct_ownership {
                0int
            } else {
                1
            };
            &&& plan.len() == check + 1 + owner + (if state.sudoers_entry_has_correct_mode {
                0int
            } else {
                1
            })
            &&& 0 <= i < n ==> plan[i] == StepView::Service(commands[i]@)
            &&& plan[n] == StepView::Service(
                ServiceCommandView::CreateFolder { folder: "/etc/sudoers.d"@ },
            )
            &&& plan[n + 1] == StepView::Service(
                ServiceCommandView::SetOwnership {
                    path: "/etc/sudoers.d"@,
                    user_name: "root"@,
                    group_name: "root"@,
                },
            )
            &&& plan[n + 2] == StepView::Service(
                ServiceCommandView::SetMode {
                    path: "/etc/sudoers.d"@,
                    mode: Modes::Other(0o755),
                },
            )
            &&& !state.sudoers_entry_exists ==> plan[n + 3] == (StepView::CreateSudoersFile {
                binary_link,
            })
            &&& plan[check] == StepView::ValidateSudoersFile
            &&& !state.sudoers_entry_has_correct_ownership ==> plan[check + 1] == StepView::Service(
                ServiceCommandView::SetOwnership {
                    path: SUDOERS_FILE@,
                    user_name: "root"@,
                    group_name: "root"@,
                },
            )
            &&& !state.sudoers_entry_has_correct_mode ==> plan[check + 1 + owner]
                == StepView::Service(
                ServiceCommandView::SetMode {
                    path: SUDOERS_FILE@,
                    mode: Modes::OwnerReadGroupRead,
                },
            )
        }),
{
    let head = service_steps(definition, state.service);
    let middle = sudoers_directory_steps();
    let tail = sudoers_file_steps(state, binary_link);
    let plan = planned(definition, state, binary_link);
    let n = head.len() as int;
    assert(0 <= i < n ==> plan[i] == head[i]);
    assert(plan[n] == middle[0]);
    assert(plan[n + 1] == middle[1]);
    assert(plan[n + 2] == middle[2]);
    assert(plan[n + 3] == tail[0]);
    assert(tail.len() > 1 ==> plan[n + 4] == tail[1]);
    assert(tail.len() > 2 ==> plan[n + 5] == tail[2]);
    assert(tail.len() > 3 ==> plan[n + 6] == tail[3]);
}

/// What is done next follows from what was done: each thing only once what it rests on has
/// succeeded, and the first failure ends the setting up with its own words.
pub proof fn law_calls_follow_from_what_was_done<'a>(p: Progress)
    ensures
        ({
            let standing = p.state->0;
            let seen = (p.connected matches Some(Ok(_))) && p.state is Some;
            let fit = seen && standing.is_root && standing.docker_running_status
                != RunningStatus::NotRunning;
            let networked = fit && (standing.docker_running_status == RunningStatus::Running ==> (
            p.network matches Some(Ok(_))));
            let located = networked && (p.executable matches Some(Ok(_)));
            let prepared = located && (p.planned matches Some(Ok(_)));
            let done = prepared && (p.executed matches Some(Ok(_)));
            let linked = done && (p.linked matches Some(Ok(_)));
            match called::<'a>(p) {
                Call::ConnectDocker => p.connected is None,
                Call::Discover => (p.connected matches Some(Ok(_))) && p.state is None,
                Call::EnsureSystemNetwork => fit && standing.docker_running_status
                    == RunningStatus::Running && p.network is None,
                Call::FindExecutable => networked && p.executable is None,
                Call::Plan => located && p.planned is None,
                Call::Execute => prepared && p.executed is None,
                Call::EnsureBinaryLink => done && p.linked is None,
                Call::EnsureTriggerSocketAccessible => linked && p.opened is None,
                Call::Succeed => linked && (p.opened matches Some(Ok(_))),
                Call::Fail(Failure::MustBeRoot) => (seen && !standing.is_root) || (located
                    && p.planned == Some(Err::<(), Refusal>(Refusal::MustBeRoot))),
                Call::Fail(Failure::MustHaveRunningDocker) => (seen && standing.is_root
                    && standing.docker_running_status == RunningStatus::NotRunning) || (located
                    && p.planned == Some(Err::<(), Refusal>(Refusal::MustHaveRunningDocker))),
                Call::Fail(Failure::OsError(reason)) => networked && (p.executable matches Some(
                    Err(error),
                ) && error == *reason),
                Call::Fail(Failure::Failed(reason)) => (p.connected matches Some(Err(error))
                    && error == *reason) || (fit && standing.docker_running_status
                    == RunningStatus::Running && (p.network matches Some(Err(error)) && error
                    == *reason)) || (prepared && (p.executed matches Some(Err(error)) && error
                    == *reason)) || (done && (p.linked matches Some(Err(error)) && error
                    == *reason)) || (linked && (p.opened matches Some(Err(error)) && error
                    == *reason)),
            }
        }),
{
}

proof fn lemma_next_of_setting_up(events: Seq<BootstrapEvent>, event: BootstrapEvent)
    requires
        sets_up_in_turn(events),
        sets_up(set_up_by(events), event),
    ensures
        sets_up_in_turn(events.push(event)),
        set_up_by(events.push(event)) == set_up(set_up_by(events), event),
{
    assert(events.push(event).drop_last() =~= events);
}

/// For the superuser, and with a container engine, the setting up comes to its end where nothing
/// fails.
pub proof fn law_setting_up_reaches_its_end<'a>(standing: Standing)
    requires
        standing.is_root,
        standing.docker_running_status != RunningStatus::NotRunning,
    ensures
        sets_up_in_turn(smooth(standing)),
        called::<'a>(set_up_by(smooth(standing))) is Succeed,
{
    let none = Seq::<BootstrapEvent>::empty();
    let connected = BootstrapEvent::Connected(Ok(()));
    lemma_next_of_setting_up(none, connected);
    let s = none.push(connected);
    let discovered = BootstrapEvent::Discovered(standing);
    lemma_next_of_setting_up(s, discovered);
    let s = s.push(discovered);
    let network = BootstrapEvent::Network(Ok(()));
    let t = if standing.docker_running_status == RunningStatus::Running {
        s.push(network)
    } else {
        s
    };
    if standing.docker_running_status == RunningStatus::Running {
        lemma_next_of_setting_up(s, network);
    }
    lemma_next_of_setting_up(t, BootstrapEvent::Executable(Ok(())));
    let t = t.push(BootstrapEvent::Executable(Ok(())));
    lemma_next_of_setting_up(t, BootstrapEvent::Planned(Ok(())));
    let t = t.push(BootstrapEvent::Planned(Ok(())));
    lemma_next_of_setting_up(t, BootstrapEvent::Executed(Ok(())));
    let t = t.push(BootstrapEvent::Executed(Ok(())));
    lemma_next_of_setting_up(t, BootstrapEvent::Linked(Ok(())));
    let t = t.push(BootstrapEvent::Linked(Ok(())));
    lemma_next_of_setting_up(t, BootstrapEvent::Opened(Ok(())));
    let t = t.push(BootstrapEvent::Opened(Ok(())));
    assert(t =~= smooth(standing));
}

/// Of the service's folders those with credentials and with the identity are closed to everybody
/// but the superuser, and no folder can be written by those who are not in its group.
pub proof fn law_secret_folders_are_closed(
    folders: DouglasFolders,
    places: BractPlaces,
    i: int,
)
    requires
        0 <= i < bract_folders(folders, places).len(),
    ensures
        bract_folders(folders, places).contains((places.credentials@, Modes::OwnerReadWriteExecute)),
        bract_folders(folders, places).contains((folders.identity@, Modes::OwnerReadWriteExecute)),
        (bract_folders(folders, places)[i].1.bits_of() / 2) % 2 == 0,
{
    let all = bract_folders(folders, places);
    assert(all[8] == (places.credentials@, Modes::OwnerReadWriteExecute));
    assert(all[9] == (folders.identity@, Modes::OwnerReadWriteExecute));
}

/// A socket of the service can be used by the superuser and its group, and by nobody else.
pub proof fn law_sockets_are_for_their_group(
    socket: ListenerDefinition,
    path: Seq<char>,
    group: Seq<char>,
)
    requires
        is_socket(socket, path, group),
    ensures
        socket.socket_path@ == path,
        socket.owning_user@ == "root"@,
        socket.owning_group@ == group,
        socket.mode.bits_of() == 0o660,
{
}

/// Everybody may pass through the folders that lead to the seedlings, the logs, what is transient
/// and the binaries; only the superuser gets at credentials and identity; and all the others are
/// for the superuser and its group. What is put into the folders for logs, configurations, the
/// rolodex and heartbeats belongs to their group too.
pub proof fn law_folders_are_as_open_as_they_have_to_be(folders: DouglasFolders, places: BractPlaces)
    ensures
        ({
            let all = bract_folders(folders, places);
            &&& all.len() == 14
            &&& all[0].0 == folders.logs@ && all[0].1.bits_of() == 0o2771
            &&& all[1].0 == folders.transients@ && all[1].1.bits_of() == 0o771
            &&& all[2].0 == folders.seedlings_root@ && all[2].1.bits_of() == 0o771
            &&& all[3].0 == places.services@ && all[3].1.bits_of() == 0o770
            &&& all[4].0 == places.binary_dir@ && all[4].1.bits_of() == 0o771
            &&& all[5].0 == joined(folders.seedlings_root@, "mounts"@) && all[5].1.bits_of() == 0o770
            &&& all[6].0 == folders.configs@ && all[6].1.bits_of() == 0o2770
            &&& all[7].0 == places.rolodex@ && all[7].1.bits_of() == 0o2770
            &&& all[8].0 == places.credentials@ && all[8].1.bits_of() == 0o700
            &&& all[9].0 == folders.identity@ && all[9].1.bits_of() == 0o700
            &&& all[10].0 == places.socket_dir@ && all[10].1.bits_of() == 0o770
            &&& all[11].0 == places.trigger_socket_dir@ && all[11].1.bits_of() == 0o770
            &&& all[12].0 == places.log_dir@ && all[12].1.bits_of() == 0o770
            &&& all[13].0 == places.heartbeat_dir@ && all[13].1.bits_of() == 0o2770
        }),
{
}

/// The checker of rules is first looked for by its name alone, and then in one folder after
/// another.
pub proof fn law_the_checker_is_looked_for_in_order()
    ensures
        Seq::new(VISUDO_CANDIDATES as nat, |i: int| candidate_of(i)) == seq![
            "visudo"@,
            "/usr/sbin/visudo"@,
            "/sbin/visudo"@,
            "/usr/bin/visudo"@,
            "/run/current-system/sw/bin/visudo"@,
        ],
{
}

} // verus!
