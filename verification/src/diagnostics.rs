//! Support threads: when a new thread is answered, which attachments are
//! read as diagnostics, and which devices call for a string dump.

use vstd::prelude::*;
use vstd::string::StringExecFns;
use crate::embed::{error_embed, notice_of, Embed, ERROR_COLOUR};
use crate::text::{contains_text, decimal, decimal_string, occurs_in};

verus! {

/// The forum whose threads are answered.
pub const SUPPORT_FORUM: u64 = 1149679256981479464;

/// A thread older than this many milliseconds is not new.
pub const NEW_THREAD_WINDOW: i64 = 5000;

/// How long the first message of a new thread is waited for, in seconds.
pub const FIRST_MESSAGE_TIMEOUT: u64 = 10;

/// An attachment above this many bytes is not read.
pub const MAX_DIAGNOSTIC_SIZE: u64 = 5000000;

/// Whether a thread is answered: it must belong to the support forum, must
/// not have been answered before, and must have been created just now.
pub open spec fn answers_thread(parent: Option<u64>, answered: bool, age_millis: i64) -> bool {
    parent == Some(SUPPORT_FORUM) && !answered && age_millis <= NEW_THREAD_WINDOW
}

/// Decides whether a thread is answered: see [`answers_thread`].
pub fn should_answer(parent: Option<u64>, answered: bool, age_millis: i64) -> (answer: bool)
    ensures
        answer == answers_thread(parent, answered, age_millis),
{
    match parent {
        Some(forum) => forum == SUPPORT_FORUM && !answered && age_millis <= NEW_THREAD_WINDOW,
        None => false,
    }
}

/// Whether an attachment with this content type may be a diagnostics file:
/// JSON and plain text may, and so may a file whose type is not given.
pub open spec fn may_be_diagnostics(content_type: Option<Seq<char>>) -> bool {
    match content_type {
        Some(t) => occurs_in("application/json"@, t) || occurs_in("text/plain"@, t),
        None => true,
    }
}

/// Whether an attachment is read as diagnostics: it must not be too large
/// and its content type must allow it.
pub fn reads_attachment(size: u64, content_type: Option<&str>) -> (reads: bool)
    ensures
        reads == (size <= MAX_DIAGNOSTIC_SIZE && may_be_diagnostics(
            match content_type {
                Some(t) => Some(t@),
                None => None,
            },
        )),
{
    if size > MAX_DIAGNOSTIC_SIZE {
        return false;
    }
    match content_type {
        Some(t) => contains_text(t, "application/json") || contains_text(t, "text/plain"),
        None => true,
    }
}

/// A HID device named in a diagnostics file.
#[derive(Clone, Copy, Debug, PartialEq, Eq, Structural)]
pub struct HidDevice {
    pub vendor_id: i16,
    pub product_id: i16,
}

impl HidDevice {
    /// Whether the device is known to identify itself in a way that takes a
    /// string dump to sort out.
    pub open spec fn is_troublesome(self) -> bool {
        ||| self.vendor_id == 21827 && self.product_id == 129
        ||| self.vendor_id == 9580 && (self.product_id == 97 || self.product_id == 100
            || self.product_id == 109 || self.product_id == 110 || self.product_id == 111)
    }

    /// Decides whether the device calls for a string dump.
    pub fn needs_string_dump(&self) -> (needed: bool)
        ensures
            needed == self.is_troublesome(),
    {
        (self.vendor_id == 21827 && self.product_id == 129) || (self.vendor_id == 9580 && (
        self.product_id == 97 || self.product_id == 100 || self.product_id == 109
            || self.product_id == 110 || self.product_id == 111))
    }
}

/// The first of the devices that calls for a string dump, if any does.
pub fn first_troublesome(devices: &Vec<HidDevice>) -> (found: Option<HidDevice>)
    ensures
        match found {
            Some(device) => exists|i: int|
                0 <= i < devices.len() && #[trigger] devices[i] == device
                    && device.is_troublesome() && forall|j: int|
                    0 <= j < i ==> !(#[trigger] devices[j]).is_troublesome(),
            None => forall|i: int|
                0 <= i < devices.len() ==> !(#[trigger] devices[i]).is_troublesome(),
        },
{
    let mut i: usize = 0;
    while i < devices.len()
        invariant
            i <= devices.len(),
            forall|j: int| 0 <= j < i ==> !(#[trigger] devices[j]).is_troublesome(),
        decreases devices.len() - i,
    {
        if devices[i].needs_string_dump() {
            return Some(devices[i]);
        }
        i += 1;
    }
    None
}

/// A number of sixteen bits in base ten, with a minus sign where it is
/// negative.
pub open spec fn signed_decimal(n: i16) -> Seq<char> {
    if n < 0 {
        seq!['-'] + decimal((-n) as nat)
    } else {
        decimal(n as nat)
    }
}

fn signed_decimal_string(n: i16) -> (text: String)
    ensures
        text@ == signed_decimal(n),
{
    if n < 0 {
        let magnitude: u64 = (-(n as i64)) as u64;
        let digits = decimal_string(magnitude);
        let mut text = "-".to_owned();
        text.append(digits.as_str());
        proof {
            reveal_strlit("-");
        }
        text
    } else {
        decimal_string(n as u64)
    }
}

/// What is asked of a user who opened a thread without diagnostics.
pub const DIAGNOSTICS_REQUEST: &'static str =
    "Sending diagnostics is a mandatory step! Please follow the instructions below or this request will be deleted.\n\n- Start OpenTabletDriver (if it is not already running)\n- Go to `Help` -> `Export Diagnostics` in the top menu\n- Save the file, then upload here.";

/// What is asked of a user with a troublesome device, up to the vendor id.
pub const STRING_DUMP_OPENING: &'static str =
    "Your device is known to have tricky identifiers to work with, and such a device string dump will help support this tablet faster. Please follow these instructions below.\n\n- Start OpenTabletDriver (if it is not already running)\n- Go to `Tablets` -> `Device string reader` in the top menu\n- Put `";

/// What stands between the vendor id and the product id.
pub const STRING_DUMP_MIDDLE: &'static str = "` in the top box\n- `";

/// What follows the product id.
pub const STRING_DUMP_CLOSING: &'static str =
    "` in the middle box\n- Press `Dump all`\n- Save the file, then upload here.";

/// The request for diagnostics.
pub fn diagnostics_request() -> (embed: Embed)
    ensures
        embed@ == notice_of("Exporting diagnostics"@, DIAGNOSTICS_REQUEST@, ERROR_COLOUR),
{
    error_embed("Exporting diagnostics", DIAGNOSTICS_REQUEST)
}

/// The request for a string dump of `device`.
pub fn string_dump_request(device: HidDevice) -> (embed: Embed)
    ensures
        embed@ == notice_of(
            "String dump required"@,
            STRING_DUMP_OPENING@ + signed_decimal(device.vendor_id) + STRING_DUMP_MIDDLE@
                + signed_decimal(device.product_id) + STRING_DUMP_CLOSING@,
            ERROR_COLOUR,
        ),
{
    let mut text = STRING_DUMP_OPENING.to_owned();
    let vendor = signed_decimal_string(device.vendor_id);
    text.append(vendor.as_str());
    text.append(STRING_DUMP_MIDDLE);
    let product = signed_decimal_string(device.product_id);
    text.append(product.as_str());
    text.append(STRING_DUMP_CLOSING);
    error_embed("String dump required", text.as_str())
}

} // verus!
