//! Titles, key files and the decisions of an NCA extraction.
//!
//! The platform modules say where a title's archive lies and how the
//! storage holding it is reached: `nx` on the console (Horizon OS), `pc`
//! on a development machine.
pub mod nx;
pub mod path;
pub mod pc;

use vstd::prelude::*;

verus! {

/// A Nintendo Switch title id.
pub struct TitleId(pub u64);

/// The key files hactool reads: the product keys and, where there is one,
/// the title keys.
pub struct KeyFiles {
    pub prod: Vec<u8>,
    pub title: Option<Vec<u8>>,
}

/// The kind of a section of an NCA, as hactool tells them apart.
#[derive(Clone, Copy, Debug, PartialEq, Eq)]
pub enum NcaSectionType {
    Pfs0,
    Romfs,
    Bktr,
    Nca0Romfs,
    Invalid,
}

/// What the extraction reads of a section context once hactool has
/// processed the archive.
#[derive(Clone, Copy, Debug)]
pub struct NcaSection {
    pub is_present: i32,
    pub section_type: NcaSectionType,
}

/// Why an extraction fails.
#[derive(Clone, Copy, Debug, PartialEq, Eq)]
pub enum ExtractError {
    /// The output directory holds a NUL byte, so it has no C string.
    DirNotCString,
    /// The archive's path holds a NUL byte, so it has no C string.
    PathNotCString,
    /// The archive could not be opened for reading.
    OpenFailed,
    /// No present section of the archive is a RomFS.
    RomfsMissing,
}

pub open spec fn error_message(e: ExtractError) -> Seq<char> {
    match e {
        ExtractError::DirNotCString => "Couldn't create CString for dir!"@,
        ExtractError::PathNotCString => "Couldn't create CString for path!"@,
        ExtractError::OpenFailed => "Couldn't open NCA for reading!"@,
        ExtractError::RomfsMissing => "RomFS missing from NCA!"@,
    }
}

impl ExtractError {
    /// The text that reports the error.
    pub fn message(&self) -> (s: String)
        ensures
            s@ == error_message(*self),
    {
        match self {
            ExtractError::DirNotCString => "Couldn't create CString for dir!".to_owned(),
            ExtractError::PathNotCString => "Couldn't create CString for path!".to_owned(),
            ExtractError::OpenFailed => "Couldn't open NCA for reading!".to_owned(),
            ExtractError::RomfsMissing => "RomFS missing from NCA!".to_owned(),
        }
    }
}

/// Bytes that can be handed to C as a string: `CString::new` refuses
/// exactly those that hold a NUL.
pub open spec fn c_string_ok(b: Seq<u8>) -> bool {
    !b.contains(0u8)
}

/// Whether `b` holds a NUL byte.
pub fn has_nul(b: &[u8]) -> (r: bool)
    ensures
        r == !c_string_ok(b@),
{
    let mut i: usize = 0;
    while i < b.len()
        invariant
            i <= b@.len(),
            forall|j: int| 0 <= j < i ==> b@[j] != 0u8,
        decreases b@.len() - i,
    {
        if b[i] == 0u8 {
            assert(b@.contains(0u8)) by {
                assert(b@[i as int] == 0u8);
            }
            return true;
        }
        i = i + 1;
    }
    false
}

pub open spec fn is_present_romfs(s: NcaSection) -> bool {
    s.is_present != 0 && s.section_type == NcaSectionType::Romfs
}

/// Some section is present and holds a RomFS.
pub open spec fn has_romfs(sections: Seq<NcaSection>) -> bool {
    exists|i: int| 0 <= i < sections.len() && is_present_romfs(#[trigger] sections[i])
}

/// Whether some section is present and holds a RomFS.
pub fn find_romfs(sections: &[NcaSection]) -> (r: bool)
    ensures
        r == has_romfs(sections@),
{
    let mut i: usize = 0;
    while i < sections.len()
        invariant
            i <= sections@.len(),
            forall|j: int| 0 <= j < i ==> !is_present_romfs(#[trigger] sections@[j]),
        decreases sections@.len() - i,
    {
        let s = sections[i];
        let romfs = match s.section_type {
            NcaSectionType::Romfs => true,
            _ => false,
        };
        if s.is_present != 0 && romfs {
            assert(is_present_romfs(sections@[i as int]));
            return true;
        }
        i = i + 1;
    }
    false
}

/// Where an extraction stands, which is also what it asks of its driver
/// next.
#[derive(Clone, Copy, Debug)]
pub enum ExtractStage {
    /// Hand the output directory to hactool as its RomFS target.
    SetRomfsDir,
    /// Open the archive for reading.
    OpenNca,
    /// Let hactool process the opened archive, then close it.
    ProcessNca,
    /// Stop with this result; where `free_sections` holds, hactool's
    /// section contexts were filled and are to be freed first.
    Finished { result: Result<(), ExtractError>, free_sections: bool },
}

/// The decisions of extracting the RomFS of the NCA at `path` into `dir`.
pub struct NcaExtraction {
    pub path: Vec<u8>,
    pub dir: Vec<u8>,
    pub stage: ExtractStage,
}

pub open spec fn failed(e: ExtractError) -> ExtractStage {
    ExtractStage::Finished { result: Err(e), free_sections: false }
}

/// The stage an extraction starts in.
pub open spec fn first_stage(dir: Seq<u8>) -> ExtractStage {
    if c_string_ok(dir) {
        ExtractStage::SetRomfsDir
    } else {
        failed(ExtractError::DirNotCString)
    }
}

/// The stage after the RomFS directory was set.
pub open spec fn stage_after_dir(path: Seq<u8>) -> ExtractStage {
    if c_string_ok(path) {
        ExtractStage::OpenNca
    } else {
        failed(ExtractError::PathNotCString)
    }
}

/// The stage after trying to open the archive.
pub open spec fn stage_after_open(opened: bool) -> ExtractStage {
    if opened {
        ExtractStage::ProcessNca
    } else {
        failed(ExtractError::OpenFailed)
    }
}

/// The stage after hactool processed the archive.
pub open spec fn stage_after_process(sections: Seq<NcaSection>) -> ExtractStage {
    ExtractStage::Finished {
        result: if has_romfs(sections) {
            Ok(())
        } else {
            Err(ExtractError::RomfsMissing)
        },
        free_sections: true,
    }
}

/// What an extraction ends with when the archive opens as `opened` says
/// and hactool finds `sections` in it.
pub open spec fn extraction_result(
    path: Seq<u8>,
    dir: Seq<u8>,
    opened: bool,
    sections: Seq<NcaSection>,
) -> Result<(), ExtractError> {
    if !c_string_ok(dir) {
        Err(ExtractError::DirNotCString)
    } else if !c_string_ok(path) {
        Err(ExtractError::PathNotCString)
    } else if !opened {
        Err(ExtractError::OpenFailed)
    } else if !has_romfs(sections) {
        Err(ExtractError::RomfsMissing)
    } else {
        Ok(())
    }
}

impl NcaExtraction {
    /// Starts an extraction; it fails at once where `dir` has no C string.
    pub fn new(path: Vec<u8>, dir: Vec<u8>) -> (x: Self)
        ensures
            x.path@ == path@,
            x.dir@ == dir@,
            x.stage == first_stage(dir@),
    {
        let stage = if has_nul(dir.as_slice()) {
            ExtractStage::Finished { result: Err(ExtractError::DirNotCString), free_sections: false }
        } else {
            ExtractStage::SetRomfsDir
        };
        NcaExtraction { path, dir, stage }
    }

    /// The RomFS directory was handed to hactool; next comes the archive,
    /// unless its path has no C string.
    pub fn dir_set(&mut self)
        requires
            old(self).stage is SetRomfsDir,
        ensures
            final(self).path == old(self).path,
            final(self).dir == old(self).dir,
            final(self).stage == stage_after_dir(old(self).path@),
    {
        if has_nul(self.path.as_slice()) {
            self.stage =
            ExtractStage::Finished { result: Err(ExtractError::PathNotCString), free_sections: false };
        } else {
            self.stage = ExtractStage::OpenNca;
        }
    }

    /// The archive was opened (or not).
    pub fn opened(&mut self, ok: bool)
        requires
            old(self).stage is OpenNca,
        ensures
            final(self).path == old(self).path,
            final(self).dir == old(self).dir,
            final(self).stage == stage_after_open(ok),
    {
        if ok {
            self.stage = ExtractStage::ProcessNca;
        } else {
            self.stage =
            ExtractStage::Finished { result: Err(ExtractError::OpenFailed), free_sections: false };
        }
    }

    /// hactool processed the archive and found `sections`.
    pub fn processed(&mut self, sections: &[NcaSection])
        requires
            old(self).stage is ProcessNca,
        ensures
            final(self).path == old(self).path,
            final(self).dir == old(self).dir,
            final(self).stage == stage_after_process(sections@),
    {
        let romfs = find_romfs(sections);
        let result = if romfs {
            Ok(())
        } else {
            Err(ExtractError::RomfsMissing)
        };
        self.stage = ExtractStage::Finished { result, free_sections: true };
    }
}

/// Bytes are a C string exactly when none of them is NUL; any other byte,
/// a space among them, is fine.
pub proof fn lemma_c_string_bytes(b: Seq<u8>)
    ensures
        c_string_ok(b) <==> (forall|i: int| 0 <= i < b.len() ==> b[i] != 0u8),
{
    if !c_string_ok(b) {
        let k = choose|k: int| 0 <= k < b.len() && b[k] == 0u8;
        assert(b[k] == 0u8);
    }
}

/// An extraction goes on past each C-string check exactly when the bytes
/// checked hold no NUL, and otherwise stops there with that check's error.
pub proof fn lemma_extraction_c_string_checks(path: Seq<u8>, dir: Seq<u8>)
    ensures
        (forall|i: int| 0 <= i < dir.len() ==> dir[i] != 0u8) ==> first_stage(dir)
            == ExtractStage::SetRomfsDir,
        (exists|i: int| 0 <= i < dir.len() && dir[i] == 0u8) ==> first_stage(dir)
            == (ExtractStage::Finished {
            result: Err(ExtractError::DirNotCString),
            free_sections: false,
        }),
        (forall|i: int| 0 <= i < path.len() ==> path[i] != 0u8) ==> stage_after_dir(path)
            == ExtractStage::OpenNca,
        (exists|i: int| 0 <= i < path.len() && path[i] == 0u8) ==> stage_after_dir(path)
            == (ExtractStage::Finished {
            result: Err(ExtractError::PathNotCString),
            free_sections: false,
        }),
{
    lemma_c_string_bytes(path);
    lemma_c_string_bytes(dir);
}

/// A present RomFS section at any position makes a processed extraction
/// succeed.
pub proof fn lemma_romfs_anywhere(sections: Seq<NcaSection>, i: int)
    requires
        0 <= i < sections.len(),
        sections[i].is_present != 0,
        sections[i].section_type == NcaSectionType::Romfs,
    ensures
        has_romfs(sections),
        stage_after_process(sections) == (ExtractStage::Finished {
            result: Ok(()),
            free_sections: true,
        }),
{
    assert(is_present_romfs(sections[i]));
}

/// Without a present RomFS section a processed extraction fails with
/// `RomfsMissing`.
pub proof fn lemma_no_romfs(sections: Seq<NcaSection>)
    requires
        forall|i: int|
            0 <= i < sections.len() ==> sections[i].is_present == 0 || sections[i].section_type
                != NcaSectionType::Romfs,
    ensures
        !has_romfs(sections),
        stage_after_process(sections) == (ExtractStage::Finished {
            result: Err(ExtractError::RomfsMissing),
            free_sections: true,
        }),
{
    if has_romfs(sections) {
        let k = choose|k: int| 0 <= k < sections.len() && is_present_romfs(sections[k]);
        assert(sections[k].is_present == 0 || sections[k].section_type != NcaSectionType::Romfs);
    }
}

/// An extraction that follows its stages ends with `extraction_result`:
/// it succeeds exactly when both paths are C strings, the archive opens
/// and a present section holds a RomFS, and otherwise reports the first
/// check that failed. hactool's section contexts are freed exactly when
/// the archive was processed.
pub proof fn lemma_extraction_outcome(
    path: Seq<u8>,
    dir: Seq<u8>,
    opened: bool,
    sections: Seq<NcaSection>,
)
    ensures
        ({
            let s0 = first_stage(dir);
            let s1 = if s0 is SetRomfsDir { stage_after_dir(path) } else { s0 };
            let s2 = if s1 is OpenNca { stage_after_open(opened) } else { s1 };
            let s3 = if s2 is ProcessNca { stage_after_process(sections) } else { s2 };
            s3 == ExtractStage::Finished {
                result: extraction_result(path, dir, opened, sections),
                free_sections: c_string_ok(dir) && c_string_ok(path) && opened,
            }
        }),
        extraction_result(path, dir, opened, sections) is Ok <==> (c_string_ok(dir) && c_string_ok(
            path,
        ) && opened && has_romfs(sections)),
{
}

} // verus!
