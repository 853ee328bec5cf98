use fuji::redirect::{check_dup2, RedirectError};
use fuji::util::nx::{LibnxError, LookupStage, TidNcaLookup, STORAGE_ID_NAND_USER};
use fuji::util::{
    find_romfs, has_nul, ExtractError, ExtractStage, NcaExtraction, NcaSection, NcaSectionType,
    TitleId,
};

fn section(present: i32, t: NcaSectionType) -> NcaSection {
    NcaSection { is_present: present, section_type: t }
}

fn finished(x: &NcaExtraction) -> (Result<(), ExtractError>, bool) {
    match x.stage {
        ExtractStage::Finished { result, free_sections } => (result, free_sections),
        other => panic!("not finished: {:?}", other),
    }
}

#[test]
fn nul_bytes() {
    assert!(!has_nul(b"celeste_dump"));
    assert!(has_nul(b"a\0b"));
    assert!(has_nul(b"\0"));
    assert!(!has_nul(b""));
}

#[test]
fn romfs_needs_a_present_romfs_section() {
    assert!(!find_romfs(&[]));
    assert!(!find_romfs(&[section(0, NcaSectionType::Romfs), section(1, NcaSectionType::Pfs0)]));
    assert!(!find_romfs(&[section(1, NcaSectionType::Nca0Romfs), section(1, NcaSectionType::Bktr)]));
    assert!(find_romfs(&[section(1, NcaSectionType::Pfs0), section(1, NcaSectionType::Romfs)]));
    assert!(find_romfs(&[section(-1, NcaSectionType::Romfs)]));
}

#[test]
fn extraction_succeeds() {
    let mut x = NcaExtraction::new(b"/a/b.nca".to_vec(), b"out".to_vec());
    assert!(matches!(x.stage, ExtractStage::SetRomfsDir));
    x.dir_set();
    assert!(matches!(x.stage, ExtractStage::OpenNca));
    x.opened(true);
    assert!(matches!(x.stage, ExtractStage::ProcessNca));
    x.processed(&[section(1, NcaSectionType::Pfs0), section(1, NcaSectionType::Romfs)]);
    assert_eq!(finished(&x), (Ok(()), true));
}

#[test]
fn extraction_refuses_a_dir_with_nul() {
    let x = NcaExtraction::new(b"/a/b.nca".to_vec(), b"o\0ut".to_vec());
    assert_eq!(finished(&x), (Err(ExtractError::DirNotCString), false));
}

#[test]
fn extraction_refuses_a_path_with_nul() {
    let mut x = NcaExtraction::new(b"/a\0/b.nca".to_vec(), b"out".to_vec());
    x.dir_set();
    assert_eq!(finished(&x), (Err(ExtractError::PathNotCString), false));
}

#[test]
fn extraction_fails_when_the_nca_does_not_open() {
    let mut x = NcaExtraction::new(b"/a/b.nca".to_vec(), b"out".to_vec());
    x.dir_set();
    x.opened(false);
    assert_eq!(finished(&x), (Err(ExtractError::OpenFailed), false));
}

#[test]
fn extraction_fails_without_romfs_and_frees_sections() {
    let mut x = NcaExtraction::new(b"/a/b.nca".to_vec(), b"out".to_vec());
    x.dir_set();
    x.opened(true);
    x.processed(&[section(0, NcaSectionType::Romfs), section(1, NcaSectionType::Pfs0)]);
    assert_eq!(finished(&x), (Err(ExtractError::RomfsMissing), true));
}

#[test]
fn extraction_messages() {
    assert_eq!(ExtractError::DirNotCString.message(), "Couldn't create CString for dir!");
    assert_eq!(ExtractError::PathNotCString.message(), "Couldn't create CString for path!");
    assert_eq!(ExtractError::OpenFailed.message(), "Couldn't open NCA for reading!");
    assert_eq!(ExtractError::RomfsMissing.message(), "RomFS missing from NCA!");
}

#[test]
fn lookup_resolves_after_three_successes() {
    let mut l = TidNcaLookup::new(TitleId(0x01002B30028F6000));
    assert_eq!(l.title, 0x01002B30028F6000);
    assert_eq!(l.stage, LookupStage::Initialize);
    l.record(0);
    assert_eq!(l.stage, LookupStage::OpenLocationResolver);
    l.record(0);
    assert_eq!(l.stage, LookupStage::ResolveProgramPath);
    l.record(0);
    assert_eq!(l.stage, LookupStage::Resolved);
    assert_eq!(STORAGE_ID_NAND_USER, 4);
}

#[test]
fn lookup_stops_at_the_first_failure() {
    let mut l = TidNcaLookup::new(TitleId(1));
    l.record(0);
    l.record(0x2a2);
    assert_eq!(l.stage, LookupStage::Failed(LibnxError { raw: 0x2a2 }));
    let mut l = TidNcaLookup::new(TitleId(1));
    l.record(0x1f);
    assert_eq!(l.stage, LookupStage::Failed(LibnxError::from_raw(0x1f)));
    let mut l = TidNcaLookup::new(TitleId(1));
    l.record(0);
    l.record(0);
    l.record(7);
    assert_eq!(l.stage, LookupStage::Failed(LibnxError { raw: 7 }));
}

#[test]
fn dup2_result() {
    assert_eq!(check_dup2(5, 1, 1), Ok(()));
    assert_eq!(check_dup2(5, 3, 1), Err(RedirectError { raw_fd: 5, new_fd: 3, target_fd: 1 }));
    assert_eq!(check_dup2(5, -1, 2), Err(RedirectError { raw_fd: 5, new_fd: -1, target_fd: 2 }));
}
