use banlist::discord::{record_name, ADMINISTRATOR};

#[test]
fn administrator_is_the_fourth_bit() {
    assert_eq!(ADMINISTRATOR, 1 << 3);
}

#[test]
fn record_name_is_the_identifier_in_base_ten() {
    assert_eq!(record_name(81384788765712384), "81384788765712384");
    assert_eq!(record_name(42), "42");
    assert_eq!(record_name(1000), "1000");
}

#[test]
fn record_name_of_zero_and_of_the_largest_identifier() {
    assert_eq!(record_name(0), "0");
    assert_eq!(record_name(9), "9");
    assert_eq!(record_name(10), "10");
    assert_eq!(record_name(u64::MAX), "18446744073709551615");
}

#[test]
fn record_names_of_two_servers_differ() {
    assert_ne!(record_name(1), record_name(10));
    assert_ne!(record_name(12), record_name(21));
}
