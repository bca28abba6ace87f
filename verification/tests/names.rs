use plate::name::{check_name, check_names, find_nul};
use plate::{InstanceError, NulError};

fn rejected(name: &str) -> NulError {
    match check_name(name) {
        Err(error) => error,
        Ok(()) => panic!("{:?} was accepted", name),
    }
}

fn owned(names: &[&str]) -> Vec<String> {
    names.iter().map(|name| name.to_string()).collect()
}

#[test]
fn find_nul_finds_nothing_in_nothing() {
    assert_eq!(find_nul(&[]), None);
}

#[test]
fn find_nul_finds_nothing_without_a_zero() {
    assert_eq!(find_nul(&[1, 2, 3, 255]), None);
}

#[test]
fn find_nul_finds_the_only_zero() {
    assert_eq!(find_nul(&[0]), Some(0));
    assert_eq!(find_nul(&[7, 0]), Some(1));
    assert_eq!(find_nul(&[7, 8, 9, 0]), Some(3));
}

#[test]
fn find_nul_finds_the_first_of_several_zeros() {
    assert_eq!(find_nul(&[5, 0, 0, 6, 0]), Some(1));
    assert_eq!(find_nul(&[0, 0]), Some(0));
}

#[test]
fn plain_names_are_accepted() {
    assert!(check_name("wvk").is_ok());
    assert!(check_name("VK_LAYER_KHRONOS_validation").is_ok());
    assert!(check_name("VK_EXT_debug_utils").is_ok());
}

#[test]
fn empty_name_is_accepted() {
    assert!(check_name("").is_ok());
}

#[test]
fn names_beyond_ascii_are_accepted() {
    assert!(check_name("moteur é").is_ok());
    assert!(check_name("エンジン").is_ok());
    assert!(check_name("\u{10000}\u{7f}\u{80}").is_ok());
}

#[test]
fn name_with_nul_is_rejected_with_its_place() {
    let error = rejected("ab\0cd");
    assert_eq!(error.nul_position(), 2);
    assert_eq!(error.into_vec(), b"ab\0cd".to_vec());
}

#[test]
fn name_of_one_nul_is_rejected_at_the_start() {
    let error = rejected("\0");
    assert_eq!(error.nul_position(), 0);
    assert_eq!(error.into_vec(), vec![0u8]);
}

#[test]
fn name_ending_in_nul_is_rejected_at_the_end() {
    let error = rejected("name\0");
    assert_eq!(error.nul_position(), 4);
    assert_eq!(error.into_vec(), b"name\0".to_vec());
}

#[test]
fn first_of_several_nuls_is_reported() {
    let error = rejected("a\0b\0\0");
    assert_eq!(error.nul_position(), 1);
    assert_eq!(error.into_vec(), vec![b'a', 0, b'b', 0, 0]);
}

#[test]
fn place_of_nul_counts_bytes_not_characters() {
    let error = rejected("é\0");
    assert_eq!(error.nul_position(), 2);
    assert_eq!(error.into_vec(), vec![0xC3, 0xA9, 0]);
    let error = rejected("エ\u{10000}\0x");
    assert_eq!(error.nul_position(), 7);
}

#[test]
fn rejection_agrees_with_a_search_of_the_bytes() {
    let names: [&str; 6] = ["", "plain", "\0", "mid\0dle", "é\0é", "two\0nuls\0"];
    for name in names {
        match (check_name(name), name.bytes().position(|byte| byte == 0)) {
            (Ok(()), None) => {}
            (Err(error), Some(place)) => {
                assert_eq!(error.nul_position(), place);
                assert_eq!(error.into_vec(), name.as_bytes().to_vec());
            }
            (checked, place) => panic!("{:?} against {:?}", checked, place),
        }
    }
}

#[test]
fn name_has_a_nul_byte_exactly_when_it_has_a_nul_character() {
    let names: [&str; 7] = ["", "a", "\0", "a\0", "\u{100}", "\u{100}\0\u{800}", "\u{10ffff}\u{80}"];
    for name in names {
        assert_eq!(check_name(name).is_err(), name.contains('\0'));
    }
}

#[test]
fn no_names_are_accepted() {
    assert!(check_names(&Vec::new()).is_ok());
}

#[test]
fn list_of_plain_names_is_accepted() {
    assert!(check_names(&owned(&["one", "two", "three"])).is_ok());
}

#[test]
fn first_rejected_name_of_a_list_is_reported() {
    let error = check_names(&owned(&["fine", "b\0d", "\0worse"])).unwrap_err();
    assert_eq!(error.nul_position(), 1);
    assert_eq!(error.into_vec(), b"b\0d".to_vec());
}

#[test]
fn last_name_of_a_list_can_be_the_rejected_one() {
    let error = check_names(&owned(&["fine", "fine too", "not\0"])).unwrap_err();
    assert_eq!(error.nul_position(), 3);
    assert_eq!(error.into_vec(), b"not\0".to_vec());
}

#[test]
fn accepted_names_before_a_list_change_nothing() {
    let rest = owned(&["x", "y\0", "\0"]);
    let mut whole = owned(&["head", "of", "list"]);
    whole.extend(rest.iter().cloned());
    let alone = check_names(&rest).unwrap_err();
    let behind = check_names(&whole).unwrap_err();
    assert_eq!(alone.nul_position(), behind.nul_position());
    assert_eq!(alone.into_vec(), behind.into_vec());
}

#[test]
fn rejected_list_is_rejected_alike_whatever_follows() {
    let head = owned(&["fine", "no\0t", "\0"]);
    let mut whole = head.clone();
    whole.extend(owned(&["\0\0", "more"]));
    let alone = check_names(&head).unwrap_err();
    let before = check_names(&whole).unwrap_err();
    assert_eq!(alone.nul_position(), 2);
    assert_eq!(before.nul_position(), 2);
    assert_eq!(alone.into_vec(), before.into_vec());
}

#[test]
fn list_is_accepted_exactly_when_both_parts_are() {
    let good = owned(&["a", "b"]);
    let bad = owned(&["c", "\0"]);
    let parts: [(&Vec<String>, &Vec<String>); 4] =
        [(&good, &good), (&good, &bad), (&bad, &good), (&bad, &bad)];
    for (head, rest) in parts {
        let mut whole = head.clone();
        whole.extend(rest.iter().cloned());
        assert_eq!(
            check_names(&whole).is_ok(),
            check_names(head).is_ok() && check_names(rest).is_ok()
        );
    }
}

#[test]
fn nul_error_becomes_an_instance_error() {
    let error = InstanceError::from(rejected("x\0"));
    let InstanceError::NulError(inner) = error;
    assert_eq!(inner.nul_position(), 1);
    assert_eq!(inner.into_vec(), vec![b'x', 0]);
}

#[test]
fn nul_error_can_be_printed_for_debugging() {
    let text = format!("{:?}", rejected("q\0"));
    assert!(text.contains("NulError"));
    assert!(text.contains("position: 1"));
}
