//! What is to be said of OpenBao's state.

use vstd::prelude::*;

verus! {

/// The role by which certificates are issued.
pub const ACME_PKI_ROLE: &'static str = "traefik";

/// Whether OpenBao can be used.
#[derive(Debug, Clone, Copy, PartialEq, Eq, Structural)]
pub enum SealState {
    Uninitialized,
    Sealed,
    Unsealed,
}

/// What is set up in OpenBao: what is mounted where, by path and kind, and what is switched on.
#[derive(Debug, PartialEq, Eq)]
pub struct InstalledReport {
    pub mounts: Vec<(String, String)>,
    pub app_role_enabled: bool,
    pub acme_enabled: bool,
    pub root_ca_configured: bool,
    pub acme_pki_role_created: bool,
}

impl Default for InstalledReport {
    fn default() -> (r: Self)
        ensures
            r.mounts@.len() == 0,
            !r.app_role_enabled,
            !r.acme_enabled,
            !r.root_ca_configured,
            !r.acme_pki_role_created,
    {
        InstalledReport {
            mounts: Vec::new(),
            app_role_enabled: false,
            acme_enabled: false,
            root_ca_configured: false,
            acme_pki_role_created: false,
        }
    }
}

/// Whether douglas can log in to OpenBao.
#[derive(Debug, PartialEq, Eq)]
pub enum DouglasCredentialsReport {
    Unavailable,
    NotWorking,
    Working(InstalledReport),
}

/// What is to be said of OpenBao's state.
#[derive(Debug, PartialEq, Eq)]
pub enum OpenBaoReport {
    NotRunning,
    Uninitialized { credentials_available: bool },
    Sealed { credentials_available: bool },
    Unsealed { credentials: DouglasCredentialsReport },
}

/// What OpenBao answered about what is set up in it; nothing where a question failed.
#[derive(Debug, PartialEq, Eq)]
pub struct InstalledAnswers {
    pub mounts: Option<Vec<(String, String)>>,
    pub app_role_enabled: Option<bool>,
    pub acme_enabled: Option<bool>,
    pub root_ca_configured: Option<bool>,
    pub acme_pki_role_created: Option<bool>,
}

/// A question that failed counts as answered with no.
pub open spec fn yes(answer: Option<bool>) -> bool {
    answer == Some(true)
}

fn is_yes(answer: Option<bool>) -> (r: bool)
    ensures
        r == yes(answer),
{
    match answer {
        Some(answer) => answer,
        None => false,
    }
}

/// What is set up in OpenBao. Where a question failed, nothing is.
pub fn installed(answers: InstalledAnswers) -> (r: InstalledReport)
    ensures
        match answers.mounts {
            Some(mounts) => r.mounts == mounts,
            None => r.mounts@.len() == 0,
        },
        r.app_role_enabled == yes(answers.app_role_enabled),
        r.acme_enabled == yes(answers.acme_enabled),
        r.root_ca_configured == yes(answers.root_ca_configured),
        r.acme_pki_role_created == yes(answers.acme_pki_role_created),
{
    let mounts: Vec<(String, String)> = match answers.mounts {
        Some(mounts) => mounts,
        None => Vec::new(),
    };
    InstalledReport {
        mounts,
        app_role_enabled: is_yes(answers.app_role_enabled),
        acme_enabled: is_yes(answers.acme_enabled),
        root_ca_configured: is_yes(answers.root_ca_configured),
        acme_pki_role_created: is_yes(answers.acme_pki_role_created),
    }
}

/// What is known so far.
#[derive(Debug, PartialEq, Eq)]
pub struct Knowledge {
    pub is_running: bool,
    /// Whether douglas's credentials are on disk.
    pub credentials_available: Option<bool>,
    pub seal_state: Option<SealState>,
    /// Whether logging in with them worked.
    pub logged_in: Option<bool>,
}

/// What has to be found out next.
#[derive(Debug, Clone, Copy, PartialEq, Eq, Structural)]
pub enum Question {
    CredentialsAvailable,
    SealState,
    LogIn,
    Installed,
}

/// What follows from what is known.
#[derive(Debug, PartialEq, Eq)]
pub enum Inquiry {
    Ask(Question),
    Known(OpenBaoReport),
}

/// What follows from what is known. OpenBao is asked nothing while it does not run, and douglas
/// does not log in where it is not unsealed or where there is nothing to log in with.
pub open spec fn inquired(knowledge: Knowledge) -> Inquiry {
    if !knowledge.is_running {
        Inquiry::Known(OpenBaoReport::NotRunning)
    } else {
        match knowledge.credentials_available {
            None => Inquiry::Ask(Question::CredentialsAvailable),
            Some(credentials_available) => match knowledge.seal_state {
                None => Inquiry::Ask(Question::SealState),
                Some(SealState::Uninitialized) => Inquiry::Known(
                    OpenBaoReport::Uninitialized { credentials_available },
                ),
                Some(SealState::Sealed) => Inquiry::Known(
                    OpenBaoReport::Sealed { credentials_available },
                ),
                Some(SealState::Unsealed) => if !credentials_available {
                    Inquiry::Known(
                        OpenBaoReport::Unsealed {
                            credentials: DouglasCredentialsReport::Unavailable,
                        },
                    )
                } else {
                    match knowledge.logged_in {
                        None => Inquiry::Ask(Question::LogIn),
                        Some(false) => Inquiry::Known(
                            OpenBaoReport::Unsealed {
                                credentials: DouglasCredentialsReport::NotWorking,
                            },
                        ),
                        Some(true) => Inquiry::Ask(Question::Installed),
                    }
                },
            },
        }
    }
}

/// What follows from what is known.
pub fn inquire(knowledge: &Knowledge) -> (r: Inquiry)
    ensures
        r == inquired(*knowledge),
{
    if !knowledge.is_running {
        return Inquiry::Known(OpenBaoReport::NotRunning);
    }
    let credentials_available: bool = match knowledge.credentials_available {
        None => return Inquiry::Ask(Question::CredentialsAvailable),
        Some(available) => available,
    };
    match knowledge.seal_state {
        None => return Inquiry::Ask(Question::SealState),
        Some(SealState::Uninitialized) => return Inquiry::Known(
            OpenBaoReport::Uninitialized { credentials_available },
        ),
        Some(SealState::Sealed) => return Inquiry::Known(
            OpenBaoReport::Sealed { credentials_available },
        ),
        Some(SealState::Unsealed) => {},
    }
    if !credentials_available {
        return Inquiry::Known(
            OpenBaoReport::Unsealed { credentials: DouglasCredentialsReport::Unavailable },
        );
    }
    match knowledge.logged_in {
        None => Inquiry::Ask(Question::LogIn),
        Some(works) => {
            if works {
                Inquiry::Ask(Question::Installed)
            } else {
                Inquiry::Known(
                    OpenBaoReport::Unsealed { credentials: DouglasCredentialsReport::NotWorking },
                )
            }
        },
    }
}

/// What is to be said once it is known what is set up.
pub fn working(answers: InstalledAnswers) -> (r: OpenBaoReport)
    ensures
        r matches OpenBaoReport::Unsealed {
            credentials: DouglasCredentialsReport::Working(report),
        } && report.app_role_enabled == yes(answers.app_role_enabled) && report.acme_enabled == yes(
            answers.acme_enabled,
        ) && report.root_ca_configured == yes(answers.root_ca_configured)
            && report.acme_pki_role_created == yes(answers.acme_pki_role_created) && (
        match answers.mounts {
            Some(mounts) => report.mounts == mounts,
            None => report.mounts@.len() == 0,
        }),
{
    OpenBaoReport::Unsealed { credentials: DouglasCredentialsReport::Working(installed(answers)) }
}

/// Douglas logs in only to an OpenBao that runs and is unsealed, and only with credentials.
pub proof fn law_logging_in_is_the_last_resort(knowledge: Knowledge)
    requires
        inquired(knowledge) == Inquiry::Ask(Question::LogIn),
    ensures
        knowledge.is_running,
        knowledge.seal_state == Some(SealState::Unsealed),
        knowledge.credentials_available == Some(true),
{
}

/// A question is asked exactly where its answer is missing and everything before it calls for it.
pub proof fn law_questions_are_asked_in_order(knowledge: Knowledge)
    ensures
        inquired(knowledge) == Inquiry::Ask(Question::CredentialsAvailable) <==> {
            &&& knowledge.is_running
            &&& knowledge.credentials_available is None
        },
        inquired(knowledge) == Inquiry::Ask(Question::SealState) <==> {
            &&& knowledge.is_running
            &&& knowledge.credentials_available is Some
            &&& knowledge.seal_state is None
        },
        inquired(knowledge) == Inquiry::Ask(Question::LogIn) <==> {
            &&& knowledge.is_running
            &&& knowledge.credentials_available == Some(true)
            &&& knowledge.seal_state == Some(SealState::Unsealed)
            &&& knowledge.logged_in is None
        },
        inquired(knowledge) == Inquiry::Ask(Question::Installed) <==> {
            &&& knowledge.is_running
            &&& knowledge.credentials_available == Some(true)
            &&& knowledge.seal_state == Some(SealState::Unsealed)
            &&& knowledge.logged_in == Some(true)
        },
{
    assert(knowledge.credentials_available matches Some(b) ==> knowledge.credentials_available
        == Some(b));
    assert(knowledge.seal_state matches Some(s) ==> knowledge.seal_state == Some(s));
    assert(knowledge.logged_in matches Some(b) ==> knowledge.logged_in == Some(b));
}

/// What is reported is what was found: whether OpenBao runs, whether it is initialized and
/// unsealed, and whether the credentials are there and work.
pub proof fn law_reports_are_what_was_found(knowledge: Knowledge)
    ensures
        inquired(knowledge) matches Inquiry::Known(report) ==> (match report {
            OpenBaoReport::NotRunning => !knowledge.is_running,
            OpenBaoReport::Uninitialized { credentials_available } => knowledge.is_running
                && knowledge.seal_state == Some(SealState::Uninitialized)
                && knowledge.credentials_available == Some(credentials_available),
            OpenBaoReport::Sealed { credentials_available } => knowledge.is_running
                && knowledge.seal_state == Some(SealState::Sealed)
                && knowledge.credentials_available == Some(credentials_available),
            OpenBaoReport::Unsealed { credentials } => knowledge.is_running && knowledge.seal_state
                == Some(SealState::Unsealed) && (match credentials {
                DouglasCredentialsReport::Unavailable => knowledge.credentials_available == Some(
                    false,
                ),
                DouglasCredentialsReport::NotWorking => knowledge.credentials_available == Some(
                    true,
                ) && knowledge.logged_in == Some(false),
                DouglasCredentialsReport::Working(_) => false,
            }),
        }),
        !knowledge.is_running ==> inquired(knowledge) == Inquiry::Known(OpenBaoReport::NotRunning),
{
    assert(knowledge.credentials_available matches Some(b) ==> knowledge.credentials_available
        == Some(b));
    assert(knowledge.seal_state matches Some(s) ==> knowledge.seal_state == Some(s));
    assert(knowledge.logged_in matches Some(b) ==> knowledge.logged_in == Some(b));
}

/// Only a question that was answered with yes counts as yes.
pub proof fn law_failed_questions_count_as_no(answer: Option<bool>)
    ensures
        answer is None ==> !yes(answer),
        answer matches Some(said) ==> yes(answer) == said,
{
    assert(answer matches Some(said) ==> answer == Some(said));
}

} // verus!
