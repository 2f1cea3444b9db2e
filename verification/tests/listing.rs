use chmac::listing::{get_ifnames, render_names};
use chmac::wire::{IFREQ_SIZE, IF_NAMESIZE};

fn names(list: &[&str]) -> Vec<String> {
    list.iter().map(|name| name.to_string()).collect()
}

#[test]
fn single_line_listing_of_two_names() {
    assert_eq!(render_names(&names(&["eth0", "lo"]), true), "eth0 lo\n");
}

#[test]
fn listing_of_two_names_one_per_line() {
    assert_eq!(render_names(&names(&["eth0", "lo"]), false), "eth0\nlo\n");
}

#[test]
fn listing_of_one_name() {
    assert_eq!(render_names(&names(&["eth0"]), true), "eth0\n");
    assert_eq!(render_names(&names(&["eth0"]), false), "eth0\n");
}

#[test]
fn listing_of_no_name() {
    assert_eq!(render_names(&names(&[]), true), "\n");
    assert_eq!(render_names(&names(&[]), false), "");
}

#[test]
fn listing_keeps_empty_names() {
    assert_eq!(render_names(&names(&["", "lo", ""]), true), " lo \n");
    assert_eq!(render_names(&names(&["", "lo", ""]), false), "\nlo\n\n");
}

#[test]
fn get_ifnames_lists_the_records_of_a_buffer() {
    let mut buffer = vec![0u8; 3 * IFREQ_SIZE];
    buffer[..4].copy_from_slice(b"eth0");
    buffer[IFREQ_SIZE..IFREQ_SIZE + 2].copy_from_slice(b"lo");
    buffer[2 * IFREQ_SIZE..2 * IFREQ_SIZE + IF_NAMESIZE].copy_from_slice(b"0123456789abcdef");
    assert_eq!(get_ifnames(&buffer, true), "eth0 lo 0123456789abcdef\n");
    assert_eq!(get_ifnames(&buffer, false), "eth0\nlo\n0123456789abcdef\n");
    assert_eq!(get_ifnames(&[], true), "\n");
    assert_eq!(get_ifnames(&[], false), "");
}
