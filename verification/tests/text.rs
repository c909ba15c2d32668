use race_sim::{make_guest_name, random_room_code, u64_to_dec};

#[test]
fn decimal_rendering_is_exact() {
    assert_eq!(u64_to_dec(0), "0");
    assert_eq!(u64_to_dec(7), "7");
    assert_eq!(u64_to_dec(10), "10");
    assert_eq!(u64_to_dec(12_345), "12345");
    assert_eq!(u64_to_dec(u64::MAX), "18446744073709551615");
}

#[test]
fn guest_names_carry_the_identifier() {
    assert_eq!(make_guest_name(7), "Guest-7");
    assert_eq!(make_guest_name(12_006), "Guest-12006");
}

#[test]
fn room_codes_are_four_unambiguous_capitals() {
    for _ in 0..50 {
        let code = random_room_code();
        assert_eq!(code.len(), 4);
        for c in code.chars() {
            assert!("ABCDEFGHJKMNPQRSTUVWXYZ".contains(c));
        }
    }
}
