use ls::{mode_is_directory, File, Permissions};

fn none() -> Permissions {
    Permissions {
        user_read: false,
        user_write: false,
        user_execute: false,
        group_read: false,
        group_write: false,
        group_execute: false,
        other_read: false,
        other_write: false,
        other_execute: false,
        sticky: false,
        setgid: false,
        setuid: false,
    }
}

#[test]
fn decodes_owner_read_and_write() {
    let decoded = Permissions::from_mode(0o600);
    let mut expected = none();
    expected.user_read = true;
    expected.user_write = true;
    assert_eq!(decoded, expected);
    assert_eq!(decoded.to_symbols(), "rw-------");
    assert!(!mode_is_directory(0o600));
}

#[test]
fn decodes_all_nine_bits_of_a_directory() {
    let mode = 0o040777;
    let decoded = Permissions::from_mode(mode);
    assert_eq!(decoded.to_symbols(), "rwxrwxrwx");
    assert!(mode_is_directory(mode));
    assert!(!decoded.sticky && !decoded.setgid && !decoded.setuid);
}

#[test]
fn decodes_each_flag_from_its_own_bit() {
    let bits: [u32; 12] = [
        0o400, 0o200, 0o100, 0o040, 0o020, 0o010, 0o004, 0o002, 0o001, 0o1000, 0o2000, 0o4000,
    ];
    for (at, bit) in bits.iter().enumerate() {
        let p = Permissions::from_mode(*bit);
        let flags = [
            p.user_read,
            p.user_write,
            p.user_execute,
            p.group_read,
            p.group_write,
            p.group_execute,
            p.other_read,
            p.other_write,
            p.other_execute,
            p.sticky,
            p.setgid,
            p.setuid,
        ];
        for (slot, flag) in flags.iter().enumerate() {
            assert_eq!(*flag, slot == at);
        }
    }
}

#[test]
fn decodes_no_flag_from_mode_zero() {
    assert_eq!(Permissions::from_mode(0), none());
    assert_eq!(Permissions::from_mode(0).to_symbols(), "---------");
}

#[test]
fn special_bits_are_collected_but_not_shown() {
    let decoded = Permissions::from_mode(0o7755);
    assert!(decoded.sticky && decoded.setgid && decoded.setuid);
    assert_eq!(decoded.to_symbols(), "rwxr-xr-x");
}

#[test]
fn symbols_of_common_modes() {
    assert_eq!(Permissions::from_mode(0o644).to_symbols(), "rw-r--r--");
    assert_eq!(Permissions::from_mode(0o755).to_symbols(), "rwxr-xr-x");
    assert_eq!(Permissions::from_mode(0o100644).to_symbols(), "rw-r--r--");
}

#[test]
fn directory_flag_agrees_with_the_type_bits() {
    let modes: [u32; 8] =
        [0o040755, 0o100644, 0o120777, 0o060660, 0o020620, 0o010644, 0o140755, 0o755];
    for mode in modes.iter() {
        let independent = (mode & (libc::S_IFMT as u32)) == (libc::S_IFDIR as u32);
        assert_eq!(mode_is_directory(*mode), independent);
        let file = File::new("entry".to_string(), *mode, 1, 0, 0).unwrap();
        assert_eq!(file.is_dir(), independent);
    }
    assert!(mode_is_directory(0o040755));
    assert!(!mode_is_directory(0o060660));
}
