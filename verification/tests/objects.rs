use akarin::collections::IdTable;
use akarin::error::ObjectOrUnderlyingError;
use akarin::numeric::{exact_log2, next_power_of_two};
use akarin::object::{Capability, Handle, HandleTable, ObjectError};
use akarin::text::{push_decimal, push_hex_pair};

fn handle(object: u64) -> Handle {
    let mut capabilities = Capability::none();
    capabilities.read = true;
    Handle { object, capabilities, interface_caps: 7, clone_refusal: None, acquire_refusal: None, key_refusal: None, derive_refusal: None }
}

#[test]
fn table_finds_what_was_inserted() {
    let mut table: IdTable<u32> = IdTable::new();
    assert!(table.is_empty());
    assert_eq!(table.insert(9, 90), None);
    assert_eq!(table.insert(4, 40), None);
    assert_eq!(table.insert(9, 91), Some(90));
    assert_eq!(table.len(), 2);
    assert_eq!(table.get(9), Some(&91));
    assert_eq!(table.get(4), Some(&40));
    assert_eq!(table.get(5), None);
    assert_eq!(table.keys(), vec![9, 4]);
    assert!(table.contains(4));
}

#[test]
fn removed_entry_is_gone_and_the_last_takes_its_place() {
    let mut table: IdTable<u32> = IdTable::new();
    for id in 1..=4u64 {
        table.insert(id, id as u32 * 10);
    }
    assert_eq!(table.remove(2), Some(20));
    assert_eq!(table.remove(2), None);
    assert_eq!(table.get(2), None);
    assert_eq!(table.keys(), vec![1, 4, 3]);
    assert_eq!(table.key_at(1), 4);
    assert_eq!(*table.value_at(1), 40);
    assert_eq!(table.get(4), Some(&40));
    assert_eq!(table.len(), 3);
}

#[test]
fn capabilities_contain_and_lack() {
    let mut all = Capability::none();
    all.read = true;
    all.send = true;
    let mut send = Capability::none();
    send.send = true;
    assert!(all.contains(send));
    assert!(!send.contains(all));
    assert!(send.contains(Capability::none()));
    assert!(!all.without(send).send);
    assert!(all.without(send).read);
    assert!(!handle(1).can_send());
}

#[test]
fn handles_go_to_the_lowest_free_slot() {
    let mut table = HandleTable::new();
    assert_eq!(table.install_handle_auto(handle(1)), 0);
    assert_eq!(table.install_handle_auto(handle(2)), 1);
    assert_eq!(table.install_handle(3, handle(3)), None);
    assert_eq!(table.install_handle_auto(handle(4)), 2);
    assert_eq!(table.install_handle_auto(handle(5)), 4);
    assert_eq!(table.close_handle(1), Ok(()));
    assert_eq!(table.install_handle_auto(handle(6)), 1);
    assert_eq!(table.install_handle(1, handle(7)), Some(handle(6)));
    assert_eq!(table.get(1), Some(handle(7)));
}

#[test]
fn installed_handle_is_taken_back() {
    let mut table = HandleTable::new();
    let slot = table.install_handle_auto(handle(11));
    assert_eq!(table.take_handle(slot), Ok(handle(11)));
    assert_eq!(table.take_handle(slot), Err(ObjectError::ObjectNotFound));
    assert_eq!(table.close_handle(slot), Err(ObjectError::ObjectNotFound));
    assert_eq!(table.get(slot), None);
}

#[test]
fn installed_handles_are_discarded() {
    let mut table = HandleTable::new();
    table.install_handle(1, handle(1));
    let slots = table.install_handles(&vec![handle(2), handle(3), handle(4)]);
    assert_eq!(slots, vec![0, 2, 3]);
    table.discard_handles(&slots);
    assert_eq!(table.get(0), None);
    assert_eq!(table.get(1), Some(handle(1)));
    assert_eq!(table.get(2), None);
    assert_eq!(table.get(3), None);
}

#[test]
fn acquiring_and_cloning_follow_the_object_system() {
    let mut table = HandleTable::new();
    let mut stubborn = handle(2);
    stubborn.clone_refusal = Some(ObjectError::InsufficientCapabilities);
    stubborn.acquire_refusal = Some(ObjectError::ObjectDestroyed);
    table.install_handle(0, handle(1));
    table.install_handle(1, stubborn);
    assert_eq!(table.acquire_handle(0), Ok(handle(1)));
    assert_eq!(table.acquire_handle(1), Err(ObjectError::ObjectDestroyed));
    assert_eq!(table.acquire_handle(2), Err(ObjectError::ObjectNotFound));
    assert_eq!(table.clone_handle(0), Ok(2));
    assert_eq!(table.get(2), Some(handle(1)));
    assert_eq!(table.clone_handle(1), Err(ObjectError::InsufficientCapabilities));
    assert_eq!(table.clone_handle(9), Err(ObjectError::ObjectNotFound));
    assert_eq!(table.acquire_handles(&vec![0, 2]), Ok(vec![handle(1), handle(1)]));
    assert_eq!(table.acquire_handles(&vec![0, 1]), Err(ObjectError::ObjectDestroyed));
    assert!(table.refers_to(2));
    assert!(!table.refers_to(3));
}

#[test]
fn closing_stops_at_the_first_unused_slot() {
    let mut table = HandleTable::new();
    table.install_handles(&vec![handle(1), handle(2), handle(3)]);
    assert_eq!(table.close_handles(&vec![0, 7, 2]), Err(ObjectError::ObjectNotFound));
    assert_eq!(table.get(0), None);
    assert_eq!(table.get(2), Some(handle(3)));
    assert_eq!(table.close_handles(&vec![2, 1]), Ok(()));
    assert_eq!(table.get(1), None);
}

#[test]
fn errors_split_by_origin() {
    let object: ObjectOrUnderlyingError<u8> =
        ObjectOrUnderlyingError::Object(ObjectError::InvalidArgument);
    assert_eq!(object.into_object_or_underlying(), Ok(ObjectError::InvalidArgument));
    let other: ObjectOrUnderlyingError<u8> = ObjectOrUnderlyingError::Underlying(3);
    assert_eq!(other.into_object_or_underlying(), Err(3));
}

#[test]
fn numbers_are_written_out() {
    let mut text = String::new();
    push_hex_pair(&mut text, 0x0a);
    push_hex_pair(&mut text, 0xf9);
    assert_eq!(text, "0af9");
    let mut text = String::new();
    push_decimal(&mut text, 0);
    push_decimal(&mut text, 1024);
    assert_eq!(text, "01024");
}

#[test]
fn powers_of_two_are_found() {
    assert_eq!(exact_log2(1), Some(0));
    assert_eq!(exact_log2(32), Some(5));
    assert_eq!(exact_log2(33), None);
    assert_eq!(exact_log2(0), None);
    assert_eq!(next_power_of_two(0), Some(1));
    assert_eq!(next_power_of_two(5), Some(8));
    assert_eq!(next_power_of_two(8), Some(8));
    assert_eq!(next_power_of_two(usize::MAX), None);
}
