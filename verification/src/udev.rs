//! Udev rules that give a user access to a tablet.

use vstd::prelude::*;
use vstd::string::StringExecFns;

verus! {

/// The character that writes the hexadecimal digit `d`, in lowercase.
pub open spec fn hex_digit(d: nat) -> char {
    if d == 0 {
        '0'
    } else if d == 1 {
        '1'
    } else if d == 2 {
        '2'
    } else if d == 3 {
        '3'
    } else if d == 4 {
        '4'
    } else if d == 5 {
        '5'
    } else if d == 6 {
        '6'
    } else if d == 7 {
        '7'
    } else if d == 8 {
        '8'
    } else if d == 9 {
        '9'
    } else if d == 10 {
        'a'
    } else if d == 11 {
        'b'
    } else if d == 12 {
        'c'
    } else if d == 13 {
        'd'
    } else if d == 14 {
        'e'
    } else {
        'f'
    }
}

/// `n` written in base sixteen, without leading zeros.
pub open spec fn hexadecimal(n: nat) -> Seq<char>
    decreases n,
{
    if n < 16 {
        seq![hex_digit(n)]
    } else {
        hexadecimal(n / 16).push(hex_digit(n % 16))
    }
}

/// A device id as udev compares it: in base sixteen, with zeros in front
/// up to four digits.
pub open spec fn device_id(n: u64) -> Seq<char> {
    let digits = hexadecimal(n as nat);
    if digits.len() >= 4 {
        digits
    } else {
        Seq::new((4 - digits.len()) as nat, |i: int| '0') + digits
    }
}

/// `format!` of std with `{:04x}`: lowercase base sixteen, padded with zeros
/// to a width of four.
#[verifier::external_body]
fn device_id_string(n: u64) -> (id: String)
    ensures
        id@ == device_id(n),
{
    format!("{:04x}", n)
}

/// The rules that every installation needs.
pub const REQUIRED_UDEV_STR: &'static str =
    "\nKERNEL==\"uinput\", SUBSYSTEM==\"misc\", OPTIONS+=\"static_node=uinput\", TAG+=\"uaccess\", TAG+=\"udev-acl\"\nKERNEL==\"js[0-9]*\", SUBSYSTEM==\"input\", ATTRS{name}==\"OpenTabletDriver Virtual Tablet\", RUN+=\"/usr/bin/env rm %E{DEVNAME}\"\n";

/// The line between the required rules and those of the device.
pub const DEVICE_HEADING: &'static str = "\n# Generated by TabletBot\n";

pub const HIDRAW_RULE: &'static str = "KERNEL==\"hidraw*\", ATTRS{idVendor}==\"";

pub const USB_RULE: &'static str = "\nSUBSYSTEM==\"usb\", ATTRS{idVendor}==\"";

pub const INPUT_RULE: &'static str = "\nSUBSYSTEM==\"input\", ATTRS{idVendor}==\"";

pub const PRODUCT_MATCH: &'static str = "\", ATTRS{idProduct}==\"";

pub const GRANT_ACCESS: &'static str = "\", TAG+=\"uaccess\", TAG+=\"udev-acl\"";

pub const IGNORE_IN_LIBINPUT: &'static str = "\", ENV{LIBINPUT_IGNORE_DEVICE}=\"1\"";

/// One rule for the device: how it is matched up to the vendor id, the two
/// ids, and what the rule does.
pub open spec fn device_rule(head: Seq<char>, vendor: u64, product: u64, tail: Seq<char>) -> Seq<
    char,
> {
    head + device_id(vendor) + PRODUCT_MATCH@ + device_id(product) + tail
}

/// The udev rules for a device: the required rules, a heading, access to the
/// device as a raw HID device and as a USB device, and, where asked for, the
/// instruction that libinput leave the device alone.
pub open spec fn udev_rules(vendor: u64, product: u64, libinput_override: bool) -> Seq<char> {
    let rules = REQUIRED_UDEV_STR@ + DEVICE_HEADING@ + device_rule(
        HIDRAW_RULE@,
        vendor,
        product,
        GRANT_ACCESS@,
    ) + device_rule(USB_RULE@, vendor, product, GRANT_ACCESS@);
    if libinput_override {
        rules + device_rule(INPUT_RULE@, vendor, product, IGNORE_IN_LIBINPUT@)
    } else {
        rules
    }
}

fn push_rule(rules: &mut String, head: &str, vendor: &str, product: &str, tail: &str)
    ensures
        final(rules)@ == old(rules)@ + (head@ + vendor@ + PRODUCT_MATCH@ + product@ + tail@),
{
    rules.append(head);
    rules.append(vendor);
    rules.append(PRODUCT_MATCH);
    rules.append(product);
    rules.append(tail);
}

/// Writes the udev rules for the device with the given vendor and product
/// ids.
pub fn gen_udev(id_vendor: u64, id_product: u64, libinput_override: bool) -> (rules: String)
    ensures
        rules@ == udev_rules(id_vendor, id_product, libinput_override),
{
    let vendor = device_id_string(id_vendor);
    let product = device_id_string(id_product);
    let mut rules = REQUIRED_UDEV_STR.to_owned();
    rules.append(DEVICE_HEADING);
    push_rule(&mut rules, HIDRAW_RULE, vendor.as_str(), product.as_str(), GRANT_ACCESS);
    push_rule(&mut rules, USB_RULE, vendor.as_str(), product.as_str(), GRANT_ACCESS);
    if libinput_override {
        push_rule(&mut rules, INPUT_RULE, vendor.as_str(), product.as_str(), IGNORE_IN_LIBINPUT);
    }
    rules
}

} // verus!
