//! Boot-time paths and errors, and the log housekeeping the engine needs
//! at start: where the show, the configuration and the logs live, what a
//! boot failure says, and the rotated log file's name. Reading and
//! writing the files themselves happens outside the core.

use vstd::prelude::*;
use vstd::string::StringExecFns;

verus! {

/// What can go wrong before the engine runs.
#[derive(Debug)]
pub enum BootError {
    FileFindFailure(String),
    FileDoesNotExist,
    BootProgramOrderFailure(String),
    ConfigWriteError(String),
    LogCopyFailure(String),
    FileReadError(String),
}

impl BootError {
    /// The error as one line of text.
    pub fn message(&self) -> (r: String)
        ensures
            r@ == match self {
                BootError::FileDoesNotExist =>
                    "Could not find show data. No results. Exiting."@,
                BootError::FileFindFailure(e) =>
                    "Could not find show data. Unknown error: "@ + e@,
                BootError::BootProgramOrderFailure(e) =>
                    "An error occured when reading boot program order: "@ + e@,
                BootError::ConfigWriteError(e) =>
                    "An error occured when writing configuration: "@ + e@,
                BootError::LogCopyFailure(e) =>
                    "An error occured when copying log files: "@ + e@,
                BootError::FileReadError(e) => "Could not read file: "@ + e@,
            },
    {
        match self {
            BootError::FileDoesNotExist => {
                "Could not find show data. No results. Exiting.".to_owned()
            }
            BootError::FileFindFailure(e) => {
                "Could not find show data. Unknown error: ".to_owned().concat(e.as_str())
            }
            BootError::BootProgramOrderFailure(e) => {
                "An error occured when reading boot program order: ".to_owned().concat(
                    e.as_str(),
                )
            }
            BootError::ConfigWriteError(e) => {
                "An error occured when writing configuration: ".to_owned().concat(e.as_str())
            }
            BootError::LogCopyFailure(e) => {
                "An error occured when copying log files: ".to_owned().concat(e.as_str())
            }
            BootError::FileReadError(e) => {
                "Could not read file: ".to_owned().concat(e.as_str())
            }
        }
    }
}

/// The removable medium's mount point.
pub fn get_usb_mountpoint() -> (r: Result<String, BootError>)
    ensures
        r matches Ok(p) && p@ == "/media/usb_mem/"@,
{
    Ok("/media/usb_mem/".to_owned())
}

/// Where a program update waits on the removable medium.
pub fn get_usb_update_path() -> (r: Result<String, BootError>)
    ensures
        r matches Ok(p) && p@ == "/media/usb_mem/"@ + "clicks.update"@,
{
    match get_usb_mountpoint() {
        Ok(base) => Ok(base.concat("clicks.update")),
        Err(e) => Err(e),
    }
}

/// Where a show waits on the removable medium.
pub fn get_usb_show_path() -> (r: Result<String, BootError>)
    ensures
        r matches Ok(p) && p@ == "/media/usb_mem/"@ + "clicks.show"@,
{
    match get_usb_mountpoint() {
        Ok(base) => Ok(base.concat("clicks.show")),
        Err(e) => Err(e),
    }
}

/// Where the installed show lives, under the program's own directory.
pub fn get_show_path(program_dir: &str) -> (r: Result<String, BootError>)
    ensures
        r matches Ok(p) && p@ == program_dir@ + "/program_memory/clicks.show"@,
{
    Ok(program_dir.to_owned().concat("/program_memory/clicks.show"))
}

/// Where the configuration file lives.
pub fn get_config_path() -> (r: String)
    ensures
        r@ == ".config/clicks/clicks.conf"@,
{
    ".config/clicks/clicks.conf".to_owned()
}

/// Where the logs live.
pub fn get_path() -> (r: String)
    ensures
        r@ == "logs"@,
{
    "logs".to_owned()
}

/// The little-endian base-32 digits of a number, least significant first,
/// as lowercase ASCII (digits then letters); empty for zero.
pub open spec fn base32_le(t: u64) -> Seq<u8>
    decreases t,
{
    if t == 0 {
        Seq::empty()
    } else {
        seq![base32_digit((t % 32) as u8)] + base32_le(t / 32)
    }
}

/// One base-32 digit as lowercase ASCII.
pub open spec fn base32_digit(d: u8) -> u8 {
    if d < 10 {
        (48 + d) as u8
    } else {
        (87 + d) as u8
    }
}

/// The rotated log file's name for a start time, as ASCII bytes:
/// `log_<base-32 of the epoch second, least significant digit first>.txt`.
pub fn log_rotation_name(epoch_s: u64) -> (r: Vec<u8>)
    ensures
        r@ == seq![108u8, 111u8, 103u8, 95u8] + base32_le(epoch_s) + seq![
            46u8,
            116u8,
            120u8,
            116u8,
        ],
{
    let mut r: Vec<u8> = Vec::new();
    r.push(108u8);
    r.push(111u8);
    r.push(103u8);
    r.push(95u8);
    proof {
        assert(r@ =~= seq![108u8, 111u8, 103u8, 95u8] + base32_le(epoch_s).subrange(0, 0));
    }
    let mut t: u64 = epoch_s;
    let ghost mut done: int = 0int;
    while t > 0
        invariant
            0 <= done <= base32_le(epoch_s).len(),
            r@ == seq![108u8, 111u8, 103u8, 95u8] + base32_le(epoch_s).subrange(0, done),
            base32_le(t) == base32_le(epoch_s).subrange(done, base32_le(epoch_s).len() as int),
        decreases t,
    {
        let d: u8 = (t % 32) as u8;
        let c: u8 = if d < 10 {
            48 + d
        } else {
            87 + d
        };
        r.push(c);
        proof {
            assert(base32_le(t).len() > 0);
            assert(base32_le(t)[0] == base32_digit(d));
            assert(base32_le(epoch_s)[done] == base32_digit(d));
            assert(r@ =~= seq![108u8, 111u8, 103u8, 95u8] + base32_le(epoch_s).subrange(
                0,
                done + 1,
            ));
            assert(base32_le(t) =~= seq![base32_digit(d)] + base32_le(t / 32));
            assert forall|j: int| 0 <= j < base32_le(t / 32).len() implies #[trigger] base32_le(
                t / 32,
            )[j] == base32_le(epoch_s).subrange(done + 1, base32_le(epoch_s).len() as int)[j] by {
                assert(base32_le(t / 32)[j] == base32_le(t)[j + 1]);
                assert(base32_le(t)[j + 1] == base32_le(epoch_s)[done + 1 + j]);
            }
            assert(base32_le(t / 32) =~= base32_le(epoch_s).subrange(
                done + 1,
                base32_le(epoch_s).len() as int,
            ));
            done = done + 1;
        }
        t = t / 32;
    }
    proof {
        assert(base32_le(t).len() == 0);
        assert(done == base32_le(epoch_s).len());
        assert(base32_le(epoch_s).subrange(0, done) =~= base32_le(epoch_s));
    }
    r.push(46u8);
    r.push(116u8);
    r.push(120u8);
    r.push(116u8);
    proof {
        assert(r@ =~= seq![108u8, 111u8, 103u8, 95u8] + base32_le(epoch_s) + seq![
            46u8,
            116u8,
            120u8,
            116u8,
        ]);
    }
    r
}

} // verus!
