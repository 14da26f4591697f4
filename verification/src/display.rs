//! The lines the little front-panel display shows at boot and while
//! loading. Only the text is decided here; driving the panel, and the
//! address header it prints first, happen outside the core.

use vstd::prelude::*;

verus! {

/// Lines confirming a program update.
pub fn patch_success() -> (r: Vec<String>)
    ensures
        r@.len() == 3,
        r@[0]@ == "Update succeeded"@,
        r@[1]@ == ""@,
        r@[2]@ == "Please reboot"@,
{
    let mut r: Vec<String> = Vec::new();
    r.push("Update succeeded".to_owned());
    r.push("".to_owned());
    r.push("Please reboot".to_owned());
    r
}

/// Lines reporting a failed program update.
pub fn patch_failure() -> (r: Vec<String>)
    ensures
        r@.len() == 5,
        r@[0]@ == ""@,
        r@[1]@ == "Update failed"@,
        r@[2]@ == ""@,
        r@[3]@ == "Something"@,
        r@[4]@ == "went wrong"@,
{
    let mut r: Vec<String> = Vec::new();
    r.push("".to_owned());
    r.push("Update failed".to_owned());
    r.push("".to_owned());
    r.push("Something".to_owned());
    r.push("went wrong".to_owned());
    r
}

/// Lines reporting a failed show load, with the reason.
pub fn show_load_failure(err_str: &str) -> (r: Vec<String>)
    ensures
        r@.len() == 2,
        r@[0]@ == "Show load failed"@,
        r@[1]@ == err_str@,
{
    let mut r: Vec<String> = Vec::new();
    r.push("Show load failed".to_owned());
    r.push(err_str.to_owned());
    r
}

/// Lines asking whether to load from the removable medium.
pub fn ask_usb() -> (r: Vec<String>)
    ensures
        r@.len() == 5,
        r@[0]@ == ""@,
        r@[1]@ == "Load USB?"@,
        r@[2]@ == "Plug in now"@,
        r@[3]@ == ""@,
        r@[4]@ == "YES/NO"@,
{
    let mut r: Vec<String> = Vec::new();
    r.push("".to_owned());
    r.push("Load USB?".to_owned());
    r.push("Plug in now".to_owned());
    r.push("".to_owned());
    r.push("YES/NO".to_owned());
    r
}

/// Lines asking whether to apply a found update.
pub fn ask_patch() -> (r: Vec<String>)
    ensures
        r@.len() == 4,
        r@[0]@ == ""@,
        r@[1]@ == "Update found"@,
        r@[2]@ == ""@,
        r@[3]@ == "Update?"@,
{
    let mut r: Vec<String> = Vec::new();
    r.push("".to_owned());
    r.push("Update found".to_owned());
    r.push("".to_owned());
    r.push("Update?".to_owned());
    r
}

/// Lines asking whether to copy a found show.
pub fn ask_copy_show() -> (r: Vec<String>)
    ensures
        r@.len() == 4,
        r@[0]@ == ""@,
        r@[1]@ == "USB show found"@,
        r@[2]@ == ""@,
        r@[3]@ == "Load to core?"@,
{
    let mut r: Vec<String> = Vec::new();
    r.push("".to_owned());
    r.push("USB show found".to_owned());
    r.push("".to_owned());
    r.push("Load to core?".to_owned());
    r
}

/// Lines confirming a generic operation.
pub fn generic_success() -> (r: Vec<String>)
    ensures
        r@.len() == 3,
        r@[0]@ == ""@,
        r@[1]@ == "Success!"@,
        r@[2]@ == ""@,
{
    let mut r: Vec<String> = Vec::new();
    r.push("".to_owned());
    r.push("Success!".to_owned());
    r.push("".to_owned());
    r
}

/// Lines reporting a generic failure, with the reason.
pub fn generic_failure(err: String) -> (r: Vec<String>)
    ensures
        r@.len() == 2,
        r@[0]@ == "Op. failed"@,
        r@[1]@ == err@,
{
    let mut r: Vec<String> = Vec::new();
    r.push("Op. failed".to_owned());
    r.push(err);
    r
}

/// A free-form line for debugging.
pub fn debug_print(text: String) -> (r: Vec<String>)
    ensures
        r@.len() == 1,
        r@[0]@ == text@,
{
    let mut r: Vec<String> = Vec::new();
    r.push(text);
    r
}

/// What the front-panel buttons say: bit 0 is yes, bit 1 is no, and no
/// wins when both are down; neither means keep waiting. The poll loop
/// that reads the buttons lives outside the core and hands the byte in.
pub fn button_decision(bits: u8) -> (r: Option<bool>)
    ensures
        r == if bits & 0x2 != 0 {
            Some(false)
        } else if bits & 0x1 != 0 {
            Some(true)
        } else {
            None::<bool>
        },
{
    if bits & 0x2 != 0 {
        Some(false)
    } else if bits & 0x1 != 0 {
        Some(true)
    } else {
        None
    }
}

} // verus!
