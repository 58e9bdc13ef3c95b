use lcli::location::{
    install_dir_from_root, is_running_from_install_dir, path_join, resolve_install_dir,
};

#[test]
fn install_dir_is_below_the_data_root() {
    let out = install_dir_from_root(b"C:\\Users\\u\\AppData\\Local");
    assert_eq!(out, b"C:\\Users\\u\\AppData\\Local\\Programs\\lcli".to_vec());
}

#[test]
fn path_join_inserts_one_separator() {
    let out = path_join(b"C:\\Dir", b"lcli.exe");
    assert_eq!(out, b"C:\\Dir\\lcli.exe".to_vec());
}

#[test]
fn running_inside_the_install_dir_matches() {
    let dir = b"C:\\Users\\u\\AppData\\Local\\Programs\\lcli";
    let exe = b"C:\\Users\\u\\AppData\\Local\\Programs\\lcli\\lcli.exe";
    assert!(is_running_from_install_dir(exe, dir));
}

#[test]
fn matching_is_case_insensitive() {
    let dir = b"C:\\Users\\u\\AppData\\Local\\Programs\\lcli";
    let exe = b"c:\\users\\U\\appdata\\local\\programs\\LCLI\\lcli.exe";
    assert!(is_running_from_install_dir(exe, dir));
}

#[test]
fn a_sibling_with_a_shared_name_prefix_does_not_match() {
    let dir = b"C:\\Users\\u\\AppData\\Local\\Programs\\lcli";
    let exe = b"C:\\Users\\u\\AppData\\Local\\Programs\\lcli-old\\lcli.exe";
    assert!(!is_running_from_install_dir(exe, dir));
}

#[test]
fn a_path_outside_the_install_dir_does_not_match() {
    let dir = b"C:\\Users\\u\\AppData\\Local\\Programs\\lcli";
    let exe = b"C:\\Downloads\\lcli.exe";
    assert!(!is_running_from_install_dir(exe, dir));
}

#[test]
fn resolving_appends_the_fixed_tail() {
    match resolve_install_dir() {
        Ok(p) => {
            assert!(p.ends_with(b"\\Programs\\lcli"));
        }
        Err(e) => {
            assert_eq!(e, lcli::errors::Error::Configuration);
        }
    }
}
