use fuji::util::nx;
use fuji::util::path::{is_normal_component, normal_components, push_path_bytes};
use fuji::util::pc;
use fuji::util::TitleId;

fn comps(p: &str) -> Vec<String> {
    normal_components(p.as_bytes())
        .into_iter()
        .map(|c| String::from_utf8(c).unwrap())
        .collect()
}

#[test]
fn components_skip_separators_root_and_dots() {
    assert_eq!(comps("@SystemContent://registered/000000a1/abc.nca"),
        vec!["@SystemContent:", "registered", "000000a1", "abc.nca"]);
    assert_eq!(comps("/a//b/./c/../d/"), vec!["a", "b", "c", "d"]);
    assert_eq!(comps("./a"), vec!["a"]);
    assert_eq!(comps(""), Vec::<String>::new());
    assert_eq!(comps("/"), Vec::<String>::new());
    assert_eq!(comps(".../x"), vec!["...", "x"]);
}

#[test]
fn normal_component_rules() {
    assert!(!is_normal_component(b""));
    assert!(!is_normal_component(b"."));
    assert!(!is_normal_component(b".."));
    assert!(is_normal_component(b"..."));
    assert!(is_normal_component(b".a"));
    assert!(is_normal_component(b"a"));
}

#[test]
fn push_follows_pathbuf() {
    let mut p = b"a".to_vec();
    push_path_bytes(&mut p, b"b");
    assert_eq!(p, b"a/b".to_vec());
    let mut p = b"a/".to_vec();
    push_path_bytes(&mut p, b"b");
    assert_eq!(p, b"a/b".to_vec());
    let mut p = Vec::new();
    push_path_bytes(&mut p, b"b");
    assert_eq!(p, b"b".to_vec());
    let mut p = b"a".to_vec();
    push_path_bytes(&mut p, b"/b");
    assert_eq!(p, b"/b".to_vec());
    let mut p = b"a".to_vec();
    push_path_bytes(&mut p, b"");
    assert_eq!(p, b"a/".to_vec());
}

#[test]
fn system_content_path_mounts_under_system() {
    let p = nx::SdkPath(b"@SystemContent://registered/000000a1/abc.nca".to_vec());
    assert!(p.can_mount());
    let m = p.mount();
    assert_eq!(m.fs.bis_id, 31);
    assert_eq!(m.fs.device, "System");
    assert_eq!(m.fs.root, b"System:/Contents/".to_vec());
    assert_eq!(m.path, b"System:/Contents/registered/000000a1/abc.nca".to_vec());
}

#[test]
fn user_content_path_mounts_under_user() {
    let p = nx::SdkPath(b"@UserContent:/./a/../b.nca".to_vec());
    assert!(p.can_mount());
    let m = p.mount();
    assert_eq!(m.fs.bis_id, 30);
    assert_eq!(m.fs.device, "User");
    assert_eq!(m.path, b"User:/Contents/a/b.nca".to_vec());
}

#[test]
fn marker_alone_mounts_to_the_root() {
    let m = nx::SdkPath(b"@SystemContent:".to_vec()).mount();
    assert_eq!(m.path, b"System:/Contents/".to_vec());
}

#[test]
fn marker_characters_are_any_single_characters() {
    let m = nx::SdkPath("xUserContent\u{e9}/f".as_bytes().to_vec()).mount();
    assert_eq!(m.path, b"User:/Contents/f".to_vec());
}

#[test]
fn unmountable_paths() {
    // no names at all
    assert!(!nx::SdkPath(b"/".to_vec()).can_mount());
    // an unknown filesystem
    assert!(!nx::SdkPath(b"@DataContent:/x".to_vec()).can_mount());
    // the name without a last character
    assert!(!nx::SdkPath(b"@SystemContent".to_vec()).can_mount());
    // a first character of more than one byte
    assert!(!nx::SdkPath("\u{e9}SystemContent:/x".as_bytes().to_vec()).can_mount());
    // a name that is not UTF-8
    assert!(!nx::SdkPath(b"@SystemContent:/a/\xff".to_vec()).can_mount());
    assert!(!nx::SdkPath(b"\xff".to_vec()).can_mount());
}

#[test]
fn sdk_fs_mounts() {
    let s = nx::mount_sdk_fs("SystemContent");
    assert_eq!((s.bis_id, s.device.as_str(), s.root.as_slice()), (31, "System", &b"System:/Contents/"[..]));
    let u = nx::mount_sdk_fs("UserContent");
    assert_eq!((u.bis_id, u.device.as_str(), u.root.as_slice()), (30, "User", &b"User:/Contents/"[..]));
}

#[test]
fn c_buffer_paths() {
    assert_eq!(nx::sdk_path_from_c_buffer(b"abc\0").map(|p| p.0), Some(b"abc".to_vec()));
    assert_eq!(nx::sdk_path_from_c_buffer(b"\0").map(|p| p.0), Some(Vec::new()));
    assert!(nx::sdk_path_from_c_buffer(b"abc\0\0").is_none());
    assert!(nx::sdk_path_from_c_buffer(b"a\0c\0").is_none());
    assert!(nx::sdk_path_from_c_buffer(b"abc").is_none());
    assert!(nx::sdk_path_from_c_buffer(b"").is_none());
}

#[test]
fn nx_key_files() {
    let k = nx::hactool_key_files();
    assert_eq!(k.prod, b"sdmc:/switch/prod.keys".to_vec());
    assert_eq!(k.title, Some(b"sdmc:/switch/title.keys".to_vec()));
}

#[test]
fn pc_mount_is_the_path_itself() {
    assert!(pc::mount_sdk_fs("SystemContent").is_empty());
    assert!(pc::mount_sdk_fs("anything").is_empty());
    let p = pc::SdkPath(b"/tmp/x.nca".to_vec());
    assert_eq!(p.mount(), b"/tmp/x.nca".to_vec());
}

#[test]
fn tid_nca_path_is_fixed() {
    let path = pc::get_tid_nca(TitleId(0x1234)).unwrap().0;
    assert_eq!(path, b"/home/leo60228/fuji/tests/hbmenu.nca".to_vec());
    let other = pc::get_tid_nca(TitleId(0x01002B30028F6000)).unwrap().0;
    assert_eq!(other, path);
}

#[test]
fn pc_key_files_below_home() {
    let k = pc::key_files_in(b"/home/u");
    assert_eq!(k.prod, b"/home/u/.switch/prod.keys".to_vec());
    assert!(k.title.is_none());
    assert_eq!(pc::key_files_in(b"/home/u/").prod, b"/home/u/.switch/prod.keys".to_vec());
    assert_eq!(pc::key_files_in(b"").prod, b".switch/prod.keys".to_vec());
}
