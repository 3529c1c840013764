use kmod::{join_options, nul_position, options_c_string, to_c_string, Error};

#[test]
fn nul_position_finds_first_nul() {
    assert_eq!(nul_position(b"abc"), None);
    assert_eq!(nul_position(b""), None);
    assert_eq!(nul_position(b"a\0b\0"), Some(1));
    assert_eq!(nul_position(b"\0"), Some(0));
}

#[test]
fn c_string_is_terminated() {
    assert_eq!(to_c_string(b"tun"), Ok(b"tun\0".to_vec()));
    assert_eq!(to_c_string(b""), Ok(vec![0u8]));
}

#[test]
fn c_string_refuses_embedded_nul() {
    assert_eq!(to_c_string(b"vf\0at"), Err(Error::Null(2)));
    assert_eq!(to_c_string(b"\0"), Err(Error::Null(0)));
}

#[test]
fn c_string_keeps_path_bytes() {
    let path: &[u8] = b"/lib/modules/5.1.12-300.fc30.x86_64/kernel/fs/cifs/cifs.ko.xz";
    let c = to_c_string(path).unwrap();
    assert_eq!(&c[..c.len() - 1], path);
    assert_eq!(c[c.len() - 1], 0);
    let non_text: &[u8] = &[0x2f, 0xff, 0xfe, 0x2e, 0x6b, 0x6f];
    let mut expected = non_text.to_vec();
    expected.push(0);
    assert_eq!(to_c_string(non_text), Ok(expected));
}

#[test]
fn options_are_joined_by_single_spaces() {
    assert_eq!(join_options(&["debug=1", "mode=fast"]), "debug=1 mode=fast");
    assert_eq!(join_options(&["debug=1"]), "debug=1");
    assert_eq!(join_options(&[]), "");
    assert_eq!(join_options(&["", "a"]), " a");
}

#[test]
fn option_string_is_terminated() {
    assert_eq!(
        options_c_string(&["a=1", "b=2"]),
        Ok(b"a=1 b=2\0".to_vec())
    );
    assert_eq!(options_c_string(&[]), Ok(vec![0u8]));
}

#[test]
fn option_with_nul_is_refused() {
    assert_eq!(options_c_string(&["a=1", "b=\02"]), Err(Error::Null(6)));
    assert_eq!(options_c_string(&["\0"]), Err(Error::Null(0)));
    assert_eq!(options_c_string(&["é=1", "\0"]), Err(Error::Null(5)));
}
