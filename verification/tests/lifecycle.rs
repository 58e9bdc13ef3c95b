use lcli::errors::Error;
use lcli::install::{InstallAction, InstallEvent, InstallFlow, InstallStage};
use lcli::path_list::contains_entry;
use lcli::uninstall::{
    deleter_script, UninstallAction, UninstallEvent, UninstallFlow, UninstallStage,
};

/// An in-memory stand-in for the host: the source artifact, the destination
/// file, the install directory, and the persisted path list.
struct FakeHost {
    source_present: bool,
    dir_exists: bool,
    dest_written: bool,
    copy_fails: bool,
    list: Vec<u8>,
    list_writes: usize,
    scheduled_scripts: Vec<Vec<u8>>,
}

impl FakeHost {
    fn fresh(list: &[u8]) -> FakeHost {
        FakeHost {
            source_present: true,
            dir_exists: false,
            dest_written: false,
            copy_fails: false,
            list: list.to_vec(),
            list_writes: 0,
            scheduled_scripts: Vec::new(),
        }
    }
}

fn drive_install(mut flow: InstallFlow, host: &mut FakeHost) -> InstallFlow {
    while let Some(action) = flow.action() {
        let event = match action {
            InstallAction::CheckSource => InstallEvent::Checked(host.source_present),
            InstallAction::CreateDir => {
                host.dir_exists = true;
                InstallEvent::Succeeded
            }
            InstallAction::CopyExecutable => {
                if host.copy_fails {
                    InstallEvent::Failed
                } else {
                    host.dest_written = true;
                    InstallEvent::Succeeded
                }
            }
            InstallAction::ReadList => InstallEvent::ListRead(host.list.clone()),
            InstallAction::WriteList => {
                if let InstallStage::WriteList(pending) = &flow.stage {
                    host.list = pending.clone();
                    host.list_writes += 1;
                    InstallEvent::Succeeded
                } else {
                    unreachable!();
                }
            }
        };
        flow = flow.step(event);
    }
    flow
}

fn drive_uninstall(mut flow: UninstallFlow, host: &mut FakeHost) -> UninstallFlow {
    while let Some(action) = flow.action() {
        let event = match action {
            UninstallAction::CheckDir => UninstallEvent::Checked(host.dir_exists),
            UninstallAction::ReadList => UninstallEvent::ListRead(host.list.clone()),
            UninstallAction::WriteList => {
                if let UninstallStage::WriteList(pending) = &flow.stage {
                    host.list = pending.clone();
                    host.list_writes += 1;
                    UninstallEvent::Succeeded
                } else {
                    unreachable!();
                }
            }
            UninstallAction::Schedule => {
                host.scheduled_scripts.push(flow.script.clone());
                UninstallEvent::Succeeded
            }
        };
        flow = flow.step(event);
    }
    flow
}

fn count_matches(list: &[u8], entry: &[u8]) -> usize {
    list.split(|b| *b == b';')
        .filter(|seg| seg.eq_ignore_ascii_case(entry))
        .count()
}

const INSTALL_DIR: &[u8] = b"C:\\Users\\u\\AppData\\Local\\Programs\\lcli";
const EXE_DIR: &[u8] = b"C:\\Downloads";
const TEMP_DIR: &[u8] = b"C:\\Temp";

#[test]
fn install_composes_the_paths() {
    let flow = InstallFlow::new(EXE_DIR, INSTALL_DIR);
    assert_eq!(flow.source, b"C:\\Downloads\\lcli.exe".to_vec());
    assert_eq!(flow.install_dir, INSTALL_DIR.to_vec());
    assert_eq!(
        flow.dest,
        b"C:\\Users\\u\\AppData\\Local\\Programs\\lcli\\lcli.exe".to_vec()
    );
}

#[test]
fn end_to_end_install_then_uninstall() {
    let mut host = FakeHost::fresh(b"C:\\Other");

    let flow = drive_install(InstallFlow::new(EXE_DIR, INSTALL_DIR), &mut host);
    assert!(matches!(flow.stage, InstallStage::Done(true)));
    assert!(host.dest_written);
    assert!(contains_entry(&host.list, INSTALL_DIR));
    assert_eq!(count_matches(&host.list, INSTALL_DIR), 1);
    assert_eq!(host.list, b"C:\\Other;C:\\Users\\u\\AppData\\Local\\Programs\\lcli".to_vec());
    assert_eq!(host.list_writes, 1);

    let flow = drive_uninstall(UninstallFlow::new(INSTALL_DIR, TEMP_DIR), &mut host);
    assert!(matches!(flow.stage, UninstallStage::Done(true)));
    assert!(!contains_entry(&host.list, INSTALL_DIR));
    assert_eq!(host.list, b"C:\\Other".to_vec());
    assert_eq!(host.list_writes, 2);
    // the directory's removal is deferred to the scheduled action
    assert_eq!(host.scheduled_scripts.len(), 1);
}

#[test]
fn installing_twice_registers_once() {
    let mut host = FakeHost::fresh(b"");
    let flow = drive_install(InstallFlow::new(EXE_DIR, INSTALL_DIR), &mut host);
    assert!(matches!(flow.stage, InstallStage::Done(true)));
    let flow = drive_install(InstallFlow::new(EXE_DIR, INSTALL_DIR), &mut host);
    assert!(matches!(flow.stage, InstallStage::Done(false)));
    assert_eq!(count_matches(&host.list, INSTALL_DIR), 1);
    assert_eq!(host.list_writes, 1);
}

#[test]
fn a_failed_copy_leaves_the_list_unchanged() {
    let mut host = FakeHost::fresh(b"C:\\Other");
    host.copy_fails = true;
    let flow = drive_install(InstallFlow::new(EXE_DIR, INSTALL_DIR), &mut host);
    assert!(matches!(flow.stage, InstallStage::Failed(Error::Io)));
    assert!(flow.action().is_none());
    assert_eq!(host.list, b"C:\\Other".to_vec());
    assert_eq!(host.list_writes, 0);
}

#[test]
fn a_missing_artifact_aborts_the_install() {
    let mut host = FakeHost::fresh(b"");
    host.source_present = false;
    let flow = drive_install(InstallFlow::new(EXE_DIR, INSTALL_DIR), &mut host);
    assert!(matches!(flow.stage, InstallStage::Failed(Error::MissingArtifact)));
    assert_eq!(host.list_writes, 0);
}

#[test]
fn an_unreadable_store_aborts_the_install() {
    let flow = InstallFlow::new(EXE_DIR, INSTALL_DIR);
    let flow = flow.step(InstallEvent::Checked(true));
    let flow = flow.step(InstallEvent::Succeeded);
    let flow = flow.step(InstallEvent::Succeeded);
    let flow = flow.step(InstallEvent::ListUnavailable);
    assert!(matches!(flow.stage, InstallStage::Failed(Error::PathListAccess)));
}

#[test]
fn a_failed_list_write_aborts_the_install() {
    let flow = InstallFlow::new(EXE_DIR, INSTALL_DIR);
    let flow = flow.step(InstallEvent::Checked(true));
    let flow = flow.step(InstallEvent::Succeeded);
    let flow = flow.step(InstallEvent::Succeeded);
    let flow = flow.step(InstallEvent::ListRead(b"".to_vec()));
    assert!(matches!(flow.stage, InstallStage::WriteList(_)));
    let flow = flow.step(InstallEvent::Failed);
    assert!(matches!(flow.stage, InstallStage::Failed(Error::PathListAccess)));
}

#[test]
fn uninstall_with_no_directory_has_nothing_to_do() {
    let mut host = FakeHost::fresh(b"C:\\Other");
    host.dir_exists = false;
    let flow = drive_uninstall(UninstallFlow::new(INSTALL_DIR, TEMP_DIR), &mut host);
    assert!(matches!(flow.stage, UninstallStage::Done(false)));
    assert_eq!(host.list, b"C:\\Other".to_vec());
    assert_eq!(host.list_writes, 0);
    assert!(host.scheduled_scripts.is_empty());
}

#[test]
fn uninstall_skips_the_write_when_nothing_matches() {
    let mut host = FakeHost::fresh(b"C:\\Other");
    host.dir_exists = true;
    let flow = drive_uninstall(UninstallFlow::new(INSTALL_DIR, TEMP_DIR), &mut host);
    assert!(matches!(flow.stage, UninstallStage::Done(true)));
    assert_eq!(host.list_writes, 0);
    assert_eq!(host.scheduled_scripts.len(), 1);
}

#[test]
fn a_failed_schedule_reports_an_io_error() {
    let flow = UninstallFlow::new(INSTALL_DIR, TEMP_DIR);
    let flow = flow.step(UninstallEvent::Checked(true));
    let flow = flow.step(UninstallEvent::ListRead(b"".to_vec()));
    assert!(matches!(flow.stage, UninstallStage::Schedule));
    let flow = flow.step(UninstallEvent::Failed);
    assert!(matches!(flow.stage, UninstallStage::Failed(Error::Io)));
}

#[test]
fn the_cleanup_action_names_its_targets() {
    let script = deleter_script(b"C:\\X", b"C:\\T\\lcli_deleter.bat");
    let expected =
        b"@echo off\ntimeout /t 1 /nobreak > nul\nrd /s /q \"C:\\X\"\ndel \"C:\\T\\lcli_deleter.bat\"\n";
    assert_eq!(script, expected.to_vec());
}

#[test]
fn the_uninstall_flow_composes_the_script() {
    let flow = UninstallFlow::new(b"C:\\X", b"C:\\T");
    assert_eq!(flow.script_path, b"C:\\T\\lcli_deleter.bat".to_vec());
    assert_eq!(
        flow.script,
        b"@echo off\ntimeout /t 1 /nobreak > nul\nrd /s /q \"C:\\X\"\ndel \"C:\\T\\lcli_deleter.bat\"\n"
            .to_vec()
    );
}

#[test]
fn error_messages_name_the_failure() {
    assert_eq!(
        Error::Configuration.message(),
        "Could not determine local data directory."
    );
    assert_eq!(
        Error::MissingArtifact.message(),
        "lcli.exe not found next to the installer. Both files must be in the same folder."
    );
    assert_eq!(Error::Io.message(), "A file or directory operation failed.");
    assert_eq!(
        Error::PathListAccess.message(),
        "The user PATH list could not be opened or written."
    );
}
