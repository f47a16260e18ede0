use btclassic_spp::address_map::AddressMap;
use btclassic_spp::bytes;
use btclassic_spp::channels;
use btclassic_spp::mac_address;
use btclassic_spp::models::{DeviceList, SPPDevice};
use btclassic_spp::text;

fn device(name: Option<&str>, address: &str) -> SPPDevice {
    SPPDevice { name: name.map(|n| n.to_string()), address: address.to_string() }
}

#[test]
fn texts_are_compared_by_their_characters() {
    assert!(text::same_text("", ""));
    assert!(text::same_text("héllo", "héllo"));
    assert!(!text::same_text("hello", "hell"));
    assert!(!text::same_text("hell", "hello"));
    assert!(!text::same_text("hello", "hallo"));
    assert!(text::holds_text(&Some("a".to_string()), "a"));
    assert!(!text::holds_text(&None, ""));
}

#[test]
fn texts_are_joined_and_copied() {
    assert_eq!(text::joined("ab", "cd"), "abcd");
    assert_eq!(text::joined("", ""), "");
    assert_eq!(text::copy_of(&Some("x".to_string())), Some("x".to_string()));
    assert_eq!(text::copy_of(&None), None);
    assert_eq!(text::optional_failure_text(&Some("x".to_string())), "Some(x)");
    assert_eq!(text::optional_failure_text(&None), "None");
}

#[test]
fn numbers_are_written_in_decimal_and_hexadecimal() {
    assert_eq!(text::decimal_text(0), "0");
    assert_eq!(text::decimal_text(10), "10");
    assert_eq!(text::decimal_text(u64::MAX), "18446744073709551615");
    assert_eq!(text::signed_decimal_text(-536870187), "-536870187");
    assert_eq!(text::signed_decimal_text(i32::MIN), "-2147483648");
    assert_eq!(text::signed_decimal_text(7), "7");
    assert_eq!(
        text::hex_text(0x00001101_0000_1000_8000_00805F9B34FB, 32),
        "0000110100001000800000805F9B34FB"
    );
    assert_eq!(text::hex_text(0, 32), "0".repeat(32));
}

#[test]
fn a_part_is_found_wherever_it_stands() {
    assert!(text::contains_text("ABCDEF", "ABC"));
    assert!(text::contains_text("ABCDEF", "CDE"));
    assert!(text::contains_text("ABCDEF", "DEF"));
    assert!(text::contains_text("ABCDEF", "ABCDEF"));
    assert!(text::contains_text("ABCDEF", ""));
    assert!(text::contains_text("", ""));
    assert!(!text::contains_text("ABCDEF", "ACE"));
    assert!(!text::contains_text("AB", "ABC"));
    assert!(text::contains_text("AAAB", "AAB"));
}

#[test]
fn bytes_are_copied() {
    assert_eq!(bytes::copy_of_all(&[1, 2, 3]), vec![1, 2, 3]);
    assert_eq!(bytes::copy_of_first(&[1, 2, 3], 2), vec![1, 2]);
    assert_eq!(bytes::copy_of_first(&[1, 2, 3], 0), Vec::<u8>::new());
}

#[test]
fn channels_are_put_in_order() {
    assert_eq!(channels::normalized(&[], 30), vec![5, 1]);
    assert_eq!(channels::normalized(&[0, 0], 255), vec![5, 1]);
    assert_eq!(channels::normalized(&[3, 0, 3, 9, 1, 9], 255), vec![3, 9, 1]);
    assert_eq!(channels::normalized(&[31, 30, 255, 2], 30), vec![30, 2]);
    assert_eq!(channels::normalized(&[31], 30), vec![5, 1]);
}

#[test]
fn an_order_of_channels_stays_as_it_is() {
    let once = channels::normalized(&[7, 7, 0, 2, 40], 30);
    assert_eq!(once, vec![7, 2]);
    assert_eq!(channels::normalized(&once, 30), once);
}

#[test]
fn address_fields_are_cut_and_read() {
    assert_eq!(mac_address::split_parts("A:BC:", ':'), vec!["A", "BC", ""]);
    assert_eq!(mac_address::split_parts("", ':'), vec![""]);
    assert_eq!(mac_address::hex_byte("fF"), Some(255));
    assert_eq!(mac_address::hex_byte("+7"), Some(7));
    assert_eq!(mac_address::hex_byte("00000a"), Some(10));
    assert_eq!(mac_address::hex_byte("100"), None);
    assert_eq!(mac_address::hex_byte(""), None);
    assert_eq!(mac_address::hex_byte("+"), None);
    assert_eq!(mac_address::hex_byte("-1"), None);
    assert_eq!(mac_address::hex_byte("0x"), None);
}

#[test]
fn an_address_map_holds_one_value_per_address() {
    let mut map: AddressMap<u64> = AddressMap::new();
    assert!(map.is_empty());
    map.insert("a".to_string(), 1);
    map.insert("b".to_string(), 2);
    map.insert("a".to_string(), 3);
    assert!(!map.is_empty());
    assert!(map.contains_key("a"));
    assert_eq!(map.get("a").copied(), Some(3));
    assert_eq!(map.get("b").copied(), Some(2));
    assert_eq!(map.get("c").copied(), None);
    let mut keys = map.keys();
    keys.sort();
    assert_eq!(keys, vec!["a", "b"]);
    assert_eq!(map.remove("a"), Some(3));
    assert_eq!(map.remove("a"), None);
    assert_eq!(map.drain(), vec![("b".to_string(), 2)]);
    assert!(map.is_empty());
}

#[test]
fn a_device_list_keeps_the_first_of_an_address() {
    let mut list = DeviceList::new();
    assert!(list.remember(device(Some("one"), "A")));
    assert!(!list.remember(device(Some("other"), "A")));
    assert!(list.remember(device(None, "B")));
    assert!(list.lists("A"));
    assert_eq!(list.snapshot(), vec![device(Some("one"), "A"), device(None, "B")]);
    list.forget("A");
    assert!(!list.lists("A"));
    assert_eq!(list.snapshot(), vec![device(None, "B")]);
    list.forget("A");
    list.clear();
    assert_eq!(list.snapshot(), Vec::<SPPDevice>::new());
}
