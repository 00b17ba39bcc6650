use douglas::openbao_status::{
    inquire, installed, working, DouglasCredentialsReport, Inquiry, InstalledAnswers,
    InstalledReport, Knowledge, OpenBaoReport, Question, SealState, ACME_PKI_ROLE,
};

/// Asks until there is a report, and counts the questions.
fn execute(
    is_running: bool,
    credentials_available: bool,
    seal_state: SealState,
    login: bool,
    answers: InstalledAnswers,
) -> (OpenBaoReport, Vec<Question>) {
    let mut knowledge = Knowledge {
        is_running,
        credentials_available: None,
        seal_state: None,
        logged_in: None,
    };
    let mut asked = Vec::new();
    loop {
        match inquire(&knowledge) {
            Inquiry::Known(report) => return (report, asked),
            Inquiry::Ask(question) => {
                asked.push(question);
                match question {
                    Question::CredentialsAvailable => {
                        knowledge.credentials_available = Some(credentials_available)
                    }
                    Question::SealState => knowledge.seal_state = Some(seal_state),
                    Question::LogIn => knowledge.logged_in = Some(login),
                    Question::Installed => return (working(answers), asked),
                }
            }
        }
    }
}

fn no_answers() -> InstalledAnswers {
    InstalledAnswers {
        mounts: None,
        app_role_enabled: None,
        acme_enabled: None,
        root_ca_configured: None,
        acme_pki_role_created: None,
    }
}

#[test]
fn execute_should_report_not_running_without_contacting_openbao() {
    let (report, asked) = execute(false, true, SealState::Unsealed, true, no_answers());

    assert_eq!(report, OpenBaoReport::NotRunning);
    assert!(asked.is_empty());
}

#[test]
fn execute_should_stop_at_sealed_without_attempting_to_log_in() {
    let (report, asked) = execute(true, true, SealState::Sealed, true, no_answers());

    assert_eq!(
        report,
        OpenBaoReport::Sealed {
            credentials_available: true
        }
    );
    assert!(!asked.contains(&Question::LogIn));
}

#[test]
fn execute_should_report_uninitialized_with_whether_douglas_credentials_exist() {
    let (report, _) = execute(true, true, SealState::Uninitialized, true, no_answers());

    assert_eq!(
        report,
        OpenBaoReport::Uninitialized {
            credentials_available: true
        }
    );
}

#[test]
fn execute_should_report_unavailable_credentials_when_unsealed_without_them() {
    let (report, asked) = execute(true, false, SealState::Unsealed, true, no_answers());

    assert_eq!(
        report,
        OpenBaoReport::Unsealed {
            credentials: DouglasCredentialsReport::Unavailable
        }
    );
    assert!(!asked.contains(&Question::LogIn));
}

#[test]
fn execute_should_report_credentials_that_do_not_work_when_the_login_fails() {
    let (report, _) = execute(true, true, SealState::Unsealed, false, no_answers());

    assert_eq!(
        report,
        OpenBaoReport::Unsealed {
            credentials: DouglasCredentialsReport::NotWorking
        }
    );
}

#[test]
fn execute_should_report_what_is_installed_when_the_login_works() {
    let mounts = vec![("kv/".to_string(), "kv".to_string())];
    let (report, _) = execute(
        true,
        true,
        SealState::Unsealed,
        true,
        InstalledAnswers {
            mounts: Some(mounts.clone()),
            app_role_enabled: Some(true),
            acme_enabled: Some(false),
            root_ca_configured: Some(true),
            acme_pki_role_created: Some(false),
        },
    );

    assert_eq!(
        report,
        OpenBaoReport::Unsealed {
            credentials: DouglasCredentialsReport::Working(InstalledReport {
                mounts,
                app_role_enabled: true,
                acme_enabled: false,
                root_ca_configured: true,
                acme_pki_role_created: false,
            })
        }
    );
}

#[test]
fn execute_should_treat_a_query_that_errors_as_not_installed() {
    let (report, _) = execute(true, true, SealState::Unsealed, true, no_answers());

    assert_eq!(
        report,
        OpenBaoReport::Unsealed {
            credentials: DouglasCredentialsReport::Working(InstalledReport::default())
        }
    );
    assert_eq!(installed(no_answers()), InstalledReport::default());
}

#[test]
fn test_certificates_are_issued_to_traefik() {
    assert_eq!(ACME_PKI_ROLE, "traefik");
}
