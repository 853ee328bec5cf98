//! The console (Horizon OS): a title's archive is found through libnx's
//! location resolver, and its path names one of the content filesystems
//! of the built-in storage, which is mounted to reach it.
use crate::util::path::{
    append_bytes, ascii_of, components, is_normal, lemma_components_normal,
    lemma_components_push_all, literal_bytes, normal_components, push_all, push_path,
    push_path_bytes, views, SEP,
};
use crate::util::{KeyFiles, TitleId};
use vstd::prelude::*;
use vstd::utf8::{decode_utf8, valid_utf8};

verus! {

/// The storage id of the console's user NAND partition.
pub const STORAGE_ID_NAND_USER: u32 = 4;

/// A failing libnx result code.
#[derive(Debug, Copy, Clone, PartialEq, Eq)]
pub struct LibnxError {
    pub raw: u32,
}

impl LibnxError {
    /// The error of a result code.
    pub fn from_raw(raw: u32) -> (e: Self)
        ensures
            e.raw == raw,
    {
        LibnxError { raw }
    }
}

/// The path of a title's archive as the location resolver gives it, such as
/// `@SystemContent://registered/000000a1/abc.nca`.
pub struct SdkPath(pub Vec<u8>);

/// The two content filesystems of the built-in storage.
#[derive(Debug, Copy, Clone, PartialEq, Eq)]
pub enum SdkFs {
    System,
    User,
}

/// The filesystem a name stands for.
pub open spec fn sdk_fs_named(name: Seq<char>) -> Option<SdkFs> {
    if name == "SystemContent"@ {
        Some(SdkFs::System)
    } else if name == "UserContent"@ {
        Some(SdkFs::User)
    } else {
        None
    }
}

/// The BIS partition that holds a filesystem.
pub open spec fn bis_id(fs: SdkFs) -> u32 {
    match fs {
        SdkFs::System => 31,
        SdkFs::User => 30,
    }
}

/// The device name a filesystem is mounted under.
pub open spec fn device_name(fs: SdkFs) -> Seq<char> {
    match fs {
        SdkFs::System => "System"@,
        SdkFs::User => "User"@,
    }
}

/// The path of a filesystem's contents once mounted.
pub open spec fn fs_root(fs: SdkFs) -> Seq<u8> {
    match fs {
        SdkFs::System => ascii_of("System:/Contents/"@),
        SdkFs::User => ascii_of("User:/Contents/"@),
    }
}

/// How to mount a content filesystem: open BIS partition `bis_id`, mount
/// it as `device`, and find the contents under `root`.
pub struct SdkFsMount {
    pub bis_id: u32,
    pub device: String,
    pub root: Vec<u8>,
}

pub open spec fn mounts(m: SdkFsMount, fs: SdkFs) -> bool {
    &&& m.bis_id == bis_id(fs)
    &&& m.device@ == device_name(fs)
    &&& m.root@ == fs_root(fs)
}

/// The filesystem that a path's first component names: the component is
/// text whose first character is ASCII, and between that character and
/// its last one stands a filesystem's name (`@SystemContent:` names
/// `SystemContent`).
pub open spec fn marker_fs(first: Seq<u8>) -> Option<SdkFs> {
    if valid_utf8(first) {
        let t = decode_utf8(first);
        if t.len() >= 2 && (t[0] as u32) < 128 {
            sdk_fs_named(t.subrange(1, t.len() - 1))
        } else {
            None
        }
    } else {
        None
    }
}

/// A path can be mounted: it names at least one entry, every name is
/// UTF-8 text, and the first names a content filesystem.
pub open spec fn mountable(p: Seq<u8>) -> bool {
    let comps = components(p);
    &&& comps.len() >= 1
    &&& forall|i: int| 0 <= i < comps.len() ==> valid_utf8(#[trigger] comps[i])
    &&& marker_fs(comps[0]) is Some
}

/// The filesystem a mountable path lies on.
pub open spec fn path_fs(p: Seq<u8>) -> SdkFs {
    marker_fs(components(p)[0])->0
}

/// Where a mountable path lies once its filesystem is mounted: the
/// filesystem's root with the path's other names pushed onto it.
pub open spec fn mounted_path(p: Seq<u8>) -> Seq<u8> {
    push_all(fs_root(path_fs(p)), components(p).drop_first())
}

/// A mounted path: the filesystem to mount, and where the archive then is.
pub struct SdkPathMount {
    pub fs: SdkFsMount,
    pub path: Vec<u8>,
}

/// `std::str::from_utf8`. Claimed: it succeeds exactly on the byte strings
/// that are valid UTF-8 (vstd's `valid_utf8`: well-formed sequences, no
/// overlong encodings, no surrogates), and then gives the characters they
/// encode.
#[verifier::external_body]
fn utf8_text(bytes: &[u8]) -> (r: Option<&str>)
    ensures
        r is Some <==> valid_utf8(bytes@),
        r matches Some(s) ==> s@ == decode_utf8(bytes@),
{
    std::str::from_utf8(bytes).ok()
}

/// The filesystem named `name`, if any.
pub fn sdk_fs_by_name(name: &str) -> (r: Option<SdkFs>)
    ensures
        r == sdk_fs_named(name@),
{
    let owned = name.to_owned();
    if owned == "SystemContent".to_owned() {
        Some(SdkFs::System)
    } else if owned == "UserContent".to_owned() {
        Some(SdkFs::User)
    } else {
        None
    }
}

/// The filesystem that the first component `first` names (see `marker_fs`).
fn marker_fs_of(first: &[u8]) -> (r: Option<SdkFs>)
    ensures
        r == marker_fs(first@),
{
    match utf8_text(first) {
        None => None,
        Some(t) => {
            let n = t.unicode_len();
            if n < 2 {
                None
            } else {
                let c = t.get_char(0);
                if (c as u32) < 128 {
                    let inner = t.substring_char(1, n - 1);
                    sdk_fs_by_name(inner)
                } else {
                    None
                }
            }
        },
    }
}

/// How to mount `fs`.
fn sdk_fs_mount(fs: SdkFs) -> (m: SdkFsMount)
    ensures
        mounts(m, fs),
{
    match fs {
        SdkFs::System => {
            proof {
                reveal_strlit("System:/Contents/");
            }
            SdkFsMount {
                bis_id: 31,
                device: "System".to_owned(),
                root: literal_bytes("System:/Contents/"),
            }
        },
        SdkFs::User => {
            proof {
                reveal_strlit("User:/Contents/");
            }
            SdkFsMount {
                bis_id: 30,
                device: "User".to_owned(),
                root: literal_bytes("User:/Contents/"),
            }
        },
    }
}

/// How to mount the content filesystem named `fs` (`SystemContent` or
/// `UserContent`; there is no other).
pub fn mount_sdk_fs(fs: &str) -> (m: SdkFsMount)
    requires
        sdk_fs_named(fs@) is Some,
    ensures
        mounts(m, sdk_fs_named(fs@)->0),
{
    let named = sdk_fs_by_name(fs);
    sdk_fs_mount(named.unwrap())
}

impl SdkPath {
    /// Whether the path can be mounted (see `mountable`).
    pub fn can_mount(&self) -> (b: bool)
        ensures
            b == mountable(self.0@),
    {
        let comps = normal_components(self.0.as_slice());
        let ghost cs = components(self.0@);
        assert(views(comps@).len() == comps@.len());
        if comps.len() == 0 {
            return false;
        }
        let mut i: usize = 0;
        while i < comps.len()
            invariant
                views(comps@) == cs,
                cs.len() == comps@.len(),
                cs == components(self.0@),
                i <= comps@.len(),
                forall|j: int| 0 <= j < i ==> valid_utf8(#[trigger] cs[j]),
            decreases comps@.len() - i,
        {
            assert(cs[i as int] == comps@[i as int]@);
            if utf8_text(comps[i].as_slice()).is_none() {
                assert(!valid_utf8(cs[i as int]));
                return false;
            }
            i = i + 1;
        }
        assert(cs[0] == comps@[0]@);
        marker_fs_of(comps[0].as_slice()).is_some()
    }

    /// Mounts the path: the filesystem its first component names, and the
    /// path of the archive below that filesystem's root.
    pub fn mount(&self) -> (m: SdkPathMount)
        requires
            mountable(self.0@),
        ensures
            mounts(m.fs, path_fs(self.0@)),
            m.path@ == mounted_path(self.0@),
    {
        let comps = normal_components(self.0.as_slice());
        let ghost cs = components(self.0@);
        assert(views(comps@).len() == comps@.len());
        assert(cs[0] == comps@[0]@);
        let fs = marker_fs_of(comps[0].as_slice()).unwrap();
        let mount = sdk_fs_mount(fs);
        let mut path: Vec<u8> = Vec::new();
        append_bytes(&mut path, mount.root.as_slice());
        let mut j: usize = 1;
        assert(cs.subrange(1, 1) =~= Seq::<Seq<u8>>::empty());
        while j < comps.len()
            invariant
                views(comps@) == cs,
                1 <= j <= comps@.len(),
                path@ == push_all(fs_root(fs), cs.subrange(1, j as int)),
            decreases comps@.len() - j,
        {
            assert(cs[j as int] == comps@[j as int]@);
            push_path_bytes(&mut path, comps[j].as_slice());
            assert(cs.subrange(1, (j + 1) as int).drop_last() =~= cs.subrange(1, j as int));
            j = j + 1;
        }
        assert(cs.subrange(1, cs.len() as int) =~= cs.drop_first());
        SdkPathMount { fs: mount, path }
    }
}

/// Mounting keeps the names of a path: those after the filesystem marker
/// come, in order, after the names of the filesystem's root.
pub proof fn lemma_mount_keeps_names(p: Seq<u8>)
    requires
        mountable(p),
    ensures
        components(mounted_path(p)) == components(fs_root(path_fs(p))) + components(p).drop_first(),
{
    let cs = components(p);
    lemma_components_normal(p);
    assert forall|i: int| 0 <= i < cs.drop_first().len() implies crate::util::path::is_normal(
        #[trigger] cs.drop_first()[i],
    ) && !cs.drop_first()[i].contains(crate::util::path::SEP) by {
        assert(cs.drop_first()[i] == cs[i + 1]);
    }
    lemma_components_push_all(fs_root(path_fs(p)), cs.drop_first());
}

/// The filesystem mounted is the one the first component names, however
/// many names follow it: `UserContent` is BIS partition 30, device `User`,
/// root `User:/Contents/`; `SystemContent` is 31, `System`,
/// `System:/Contents/`.
pub proof fn lemma_mount_fs_named(p: Seq<u8>)
    requires
        mountable(p),
    ensures
        ({
            let t = decode_utf8(components(p)[0]);
            t.subrange(1, t.len() - 1) == "UserContent"@
        }) ==> path_fs(p) == SdkFs::User && bis_id(path_fs(p)) == 30 && device_name(path_fs(p))
            == "User"@ && fs_root(path_fs(p)) == ascii_of("User:/Contents/"@),
        ({
            let t = decode_utf8(components(p)[0]);
            t.subrange(1, t.len() - 1) == "SystemContent"@
        }) ==> path_fs(p) == SdkFs::System && bis_id(path_fs(p)) == 31 && device_name(path_fs(p))
            == "System"@ && fs_root(path_fs(p)) == ascii_of("System:/Contents/"@),
{
    reveal_strlit("UserContent");
    reveal_strlit("SystemContent");
    assert("UserContent"@ != "SystemContent"@) by {
        assert("UserContent"@.len() != "SystemContent"@.len());
    }
}

/// The mounted path ends with the last name of the path it was made from.
pub proof fn lemma_mount_ends_with_last_name(p: Seq<u8>)
    requires
        mountable(p),
        components(p).len() >= 2,
    ensures
        ({
            let m = mounted_path(p);
            let last = components(p).last();
            &&& m.len() >= last.len()
            &&& m.subrange(m.len() - last.len(), m.len() as int) == last
        }),
{
    let cs = components(p);
    let rest = cs.drop_first();
    let last = cs.last();
    lemma_components_normal(p);
    assert(rest.last() == last);
    assert(is_normal(cs[cs.len() - 1]) && !cs[cs.len() - 1].contains(SEP));
    assert(last[0] != SEP) by {
        if last[0] == SEP {
            assert(last.contains(SEP));
        }
    }
    let before = push_all(fs_root(path_fs(p)), rest.drop_last());
    assert(mounted_path(p) == push_path(before, last));
    let m = mounted_path(p);
    assert(m.subrange(m.len() - last.len(), m.len() as int) =~= last);
}

/// Where the resolver wrote its answer: a C string that fills the buffer,
/// one NUL at its very end and none before.
pub open spec fn c_buffer_path(buf: Seq<u8>) -> Option<Seq<u8>> {
    if buf.len() >= 1 && buf.last() == 0u8 && c_string_free(buf.drop_last()) {
        Some(buf.drop_last())
    } else {
        None
    }
}

pub open spec fn c_string_free(b: Seq<u8>) -> bool {
    forall|i: int| 0 <= i < b.len() ==> b[i] != 0u8
}

/// The path that the resolver wrote into `buf` (`CStr::from_bytes_with_nul`
/// on the whole buffer); `None` where the buffer is not a C string with
/// its NUL at the very end.
pub fn sdk_path_from_c_buffer(buf: &[u8]) -> (r: Option<SdkPath>)
    ensures
        r is Some <==> c_buffer_path(buf@) is Some,
        r matches Some(p) ==> p.0@ == c_buffer_path(buf@)->0,
{
    let n = buf.len();
    if n == 0 || buf[n - 1] != 0u8 {
        return None;
    }
    let mut out: Vec<u8> = Vec::new();
    let mut i: usize = 0;
    while i < n - 1
        invariant
            n == buf@.len(),
            n >= 1,
            i <= n - 1,
            out@ == buf@.take(i as int),
            forall|j: int| 0 <= j < i ==> buf@[j] != 0u8,
        decreases n - 1 - i,
    {
        if buf[i] == 0u8 {
            assert(!c_string_free(buf@.drop_last())) by {
                assert(buf@.drop_last()[i as int] == 0u8);
            }
            return None;
        }
        out.push(buf[i]);
        i = i + 1;
        assert(out@ =~= buf@.take(i as int));
    }
    assert(out@ =~= buf@.drop_last());
    Some(SdkPath(out))
}

/// A path without NUL bytes, written as a C string that fills its buffer,
/// reads back as itself.
pub proof fn lemma_c_buffer_round_trip(p: Seq<u8>)
    requires
        c_string_free(p),
    ensures
        c_buffer_path(p.push(0u8)) == Some(p),
{
    assert(p.push(0u8).drop_last() =~= p);
}

/// Which libnx call a title's archive lookup makes next, or how it ended.
#[derive(Debug, Copy, Clone, PartialEq, Eq)]
pub enum LookupStage {
    /// `lrInitialize`.
    Initialize,
    /// `lrOpenLocationResolver` on `STORAGE_ID_NAND_USER`.
    OpenLocationResolver,
    /// `lrLrResolveProgramPath` for the title, into a path buffer.
    ResolveProgramPath,
    /// The buffer holds the archive's path.
    Resolved,
    /// A call failed with this error.
    Failed(LibnxError),
}

/// The lookup of a title's archive through the location resolver.
pub struct TidNcaLookup {
    pub title: u64,
    pub stage: LookupStage,
}

pub open spec fn makes_call(s: LookupStage) -> bool {
    s is Initialize || s is OpenLocationResolver || s is ResolveProgramPath
}

/// The stage after a call of stage `s` returned `rc`: a nonzero code ends
/// the lookup with that error, zero moves on to the next call.
pub open spec fn next_lookup_stage(s: LookupStage, rc: u32) -> LookupStage {
    if rc != 0 {
        LookupStage::Failed(LibnxError { raw: rc })
    } else {
        match s {
            LookupStage::Initialize => LookupStage::OpenLocationResolver,
            LookupStage::OpenLocationResolver => LookupStage::ResolveProgramPath,
            LookupStage::ResolveProgramPath => LookupStage::Resolved,
            other => other,
        }
    }
}

/// Where a lookup stands after its calls return `rcs` in turn; calls stop
/// once the lookup has ended.
pub open spec fn run_lookup(s: LookupStage, rcs: Seq<u32>) -> LookupStage
    decreases rcs.len(),
{
    if rcs.len() == 0 || !makes_call(s) {
        s
    } else {
        run_lookup(next_lookup_stage(s, rcs[0]), rcs.drop_first())
    }
}

impl TidNcaLookup {
    /// Starts the lookup of `tid`'s archive.
    pub fn new(tid: TitleId) -> (l: Self)
        ensures
            l.title == tid.0,
            l.stage == LookupStage::Initialize,
    {
        TidNcaLookup { title: tid.0, stage: LookupStage::Initialize }
    }

    /// The call of the current stage returned `rc`.
    pub fn record(&mut self, rc: u32)
        requires
            makes_call(old(self).stage),
        ensures
            final(self).title == old(self).title,
            final(self).stage == next_lookup_stage(old(self).stage, rc),
    {
        if rc != 0 {
            self.stage = LookupStage::Failed(LibnxError::from_raw(rc));
        } else {
            self.stage =
            match self.stage {
                LookupStage::Initialize => LookupStage::OpenLocationResolver,
                LookupStage::OpenLocationResolver => LookupStage::ResolveProgramPath,
                _ => LookupStage::Resolved,
            };
        }
    }
}

/// A lookup makes its three calls in order, each only after the one before
/// returned 0; it resolves exactly when all three return 0, and otherwise
/// ends with the first nonzero code.
pub proof fn lemma_lookup_outcome(init: u32, open: u32, resolve: u32)
    ensures
        run_lookup(LookupStage::Initialize, seq![init, open, resolve]) == (if init != 0 {
            LookupStage::Failed(LibnxError { raw: init })
        } else if open != 0 {
            LookupStage::Failed(LibnxError { raw: open })
        } else if resolve != 0 {
            LookupStage::Failed(LibnxError { raw: resolve })
        } else {
            LookupStage::Resolved
        }),
{
    let rcs = seq![init, open, resolve];
    assert(rcs.drop_first() =~= seq![open, resolve]);
    assert(seq![open, resolve].drop_first() =~= seq![resolve]);
    assert(seq![resolve].drop_first() =~= Seq::<u32>::empty());
    reveal_with_fuel(run_lookup, 4);
}

/// The key files hactool reads on the console, on its SD card.
pub fn hactool_key_files() -> (k: KeyFiles)
    ensures
        k.prod@ == ascii_of("sdmc:/switch/prod.keys"@),
        k.title matches Some(t) && t@ == ascii_of("sdmc:/switch/title.keys"@),
{
    proof {
        reveal_strlit("sdmc:/switch/prod.keys");
        reveal_strlit("sdmc:/switch/title.keys");
    }
    KeyFiles {
        prod: literal_bytes("sdmc:/switch/prod.keys"),
        title: Some(literal_bytes("sdmc:/switch/title.keys")),
    }
}

} // verus!
