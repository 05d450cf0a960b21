use pvm::winpath::{long_path, prepend_shims_to_user_path, remove_shims_from_user_path, utf16le_bytes};

#[test]
fn long_path_prefixes_drive_paths() {
    assert_eq!(long_path("C:\\a\\b"), "\\\\?\\C:\\a\\b");
    assert_eq!(long_path("c:/a"), "\\\\?\\c:/a");
    assert_eq!(long_path("\\\\?\\C:\\a"), "\\\\?\\C:\\a");
    assert_eq!(long_path("\\\\srv\\share"), "\\\\srv\\share");
    assert_eq!(long_path("rel\\x"), "rel\\x");
}

#[test]
fn prepend_moves_shims_first_once() {
    let shims = "C:\\pvm\\shims";
    let old = "C:\\bin;;c:\\PVM\\SHIMS;D:\\tools";
    assert_eq!(prepend_shims_to_user_path(old, shims), "C:\\pvm\\shims;C:\\bin;D:\\tools");
    let once = prepend_shims_to_user_path(old, shims);
    assert_eq!(prepend_shims_to_user_path(&once, shims), once);
    assert_eq!(prepend_shims_to_user_path("", shims), "C:\\pvm\\shims");
}

#[test]
fn remove_takes_shims_out() {
    let shims = "C:\\pvm\\shims";
    assert_eq!(remove_shims_from_user_path("C:\\pvm\\shims;C:\\bin;;D:\\x", shims), "C:\\bin;D:\\x");
    let old = "C:\\bin;C:\\PVM\\shims;D:\\x";
    let once = remove_shims_from_user_path(old, shims);
    assert_eq!(remove_shims_from_user_path(&once, shims), once);
    let added = prepend_shims_to_user_path(old, shims);
    assert_eq!(remove_shims_from_user_path(&added, shims), once);
}

#[test]
fn utf16le_with_terminator() {
    assert_eq!(utf16le_bytes("A"), vec![0x41, 0, 0, 0]);
    assert_eq!(utf16le_bytes("中"), vec![0x2d, 0x4e, 0, 0]);
    assert_eq!(utf16le_bytes("😀"), vec![0x3d, 0xd8, 0x00, 0xde, 0, 0]);
    let s = "C:\\路径;x😀";
    let mut want: Vec<u8> = Vec::new();
    for u in s.encode_utf16() {
        want.extend_from_slice(&u.to_le_bytes());
    }
    want.extend_from_slice(&[0, 0]);
    assert_eq!(utf16le_bytes(s), want);
}
