//! Telling the mouse's keyboard interface from the other input devices by
//! the name of its device file, and telling a failed read that is worth
//! another try from one that ends the run.

use vstd::prelude::*;
use vstd::string::*;
use crate::text::same_text;

verus! {

/// How the name of the device file begins.
pub open spec fn device_prefix() -> Seq<char> {
    "usb-Logitech_Gaming_Mouse_G600_"@
}

/// How the name of the device file ends.
pub open spec fn device_suffix() -> Seq<char> {
    "-if01-event-kbd"@
}

/// Whether `text` begins with `prefix`.
pub open spec fn begins_with(text: Seq<char>, prefix: Seq<char>) -> bool {
    prefix.len() <= text.len() && text.take(prefix.len() as int) == prefix
}

/// Whether `text` ends with `suffix`.
pub open spec fn ends_with(text: Seq<char>, suffix: Seq<char>) -> bool {
    suffix.len() <= text.len() && text.skip(text.len() - suffix.len()) == suffix
}

/// Whether a file of this name is the mouse's keyboard interface.
pub open spec fn is_device_name(name: Seq<char>) -> bool {
    begins_with(name, device_prefix()) && ends_with(name, device_suffix())
}

/// Whether `text` begins with `prefix`.
pub fn starts_with(text: &str, prefix: &str) -> (yes: bool)
    ensures
        yes == begins_with(text@, prefix@),
{
    let length: usize = text.unicode_len();
    let wanted: usize = prefix.unicode_len();
    if length < wanted {
        return false;
    }
    let head = text.substring_char(0, wanted);
    proof {
        assert(text@.subrange(0, wanted as int) =~= text@.take(wanted as int));
    }
    same_text(head, prefix)
}

/// Whether `text` ends with `suffix`.
pub fn finishes_with(text: &str, suffix: &str) -> (yes: bool)
    ensures
        yes == ends_with(text@, suffix@),
{
    let length: usize = text.unicode_len();
    let wanted: usize = suffix.unicode_len();
    if length < wanted {
        return false;
    }
    let tail = text.substring_char(length - wanted, length);
    proof {
        assert(text@.subrange(length - wanted, length as int) =~= text@.skip(length - wanted));
    }
    same_text(tail, suffix)
}

/// Whether a file of this name is the mouse's keyboard interface.
pub fn is_g600(name: &str) -> (yes: bool)
    ensures
        yes == is_device_name(name@),
{
    starts_with(name, "usb-Logitech_Gaming_Mouse_G600_") && finishes_with(name, "-if01-event-kbd")
}

/// Finds the mouse's keyboard interface among the names of the device
/// files: the first name that fits, by its place in the list.
pub fn find_g600(names: &Vec<String>) -> (found: Option<usize>)
    ensures
        match found {
            Some(index) => {
                &&& index < names@.len()
                &&& is_device_name(names@[index as int]@)
                &&& forall|earlier: int|
                    0 <= earlier < index ==> !is_device_name((#[trigger] names@[earlier])@)
            },
            None => forall|index: int|
                0 <= index < names@.len() ==> !is_device_name((#[trigger] names@[index])@),
        },
{
    let mut i: usize = 0;
    while i < names.len()
        invariant
            i <= names.len(),
            forall|earlier: int|
                0 <= earlier < i ==> !is_device_name((#[trigger] names@[earlier])@),
        decreases names.len() - i,
    {
        if is_g600(names[i].as_str()) {
            return Some(i);
        }
        i += 1;
    }
    None
}

/// The error number of a call that a signal interrupted.
pub const EINTR: i32 = 4;

/// The error number of a call that had nothing to read yet.
pub const EAGAIN: i32 = 11;

/// Whether a failed read is transient: the operating system says so by one
/// of the two error numbers that ask for another try.  A failure of any
/// other number, or of none, is fatal: the device is gone.
pub open spec fn is_transient(os_error: Option<i32>) -> bool {
    os_error == Some(EINTR) || os_error == Some(EAGAIN)
}

/// Whether a failed read is worth another try.
pub fn read_error_is_transient(os_error: Option<i32>) -> (transient: bool)
    ensures
        transient == is_transient(os_error),
{
    match os_error {
        Some(number) => number == EINTR || number == EAGAIN,
        None => false,
    }
}

} // verus!
