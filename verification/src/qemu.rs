//! Assembly of the virtual-machine invocation.
//!
//! The argument vector must match the standard firmware-boot shape:
//! `-bios <firmware> -drive file=<image>,index=<i>,media=<m>,format=<f> ...`
//! followed by whatever extra arguments the caller forwards.  Spawning the
//! process and waiting on it is the caller's business; this module only
//! computes the exact argument strings.

use vstd::prelude::*;
use vstd::string::*;

verus! {

/// One drive handed to the virtual machine.
#[derive(Clone, Debug)]
pub struct QemuDriveConfig {
    /// Path of the backing file on the host.
    pub file: String,
    /// The media kind, such as `disk`.
    pub media: String,
    /// The on-disk format, such as `raw`.
    pub format: String,
}

impl QemuDriveConfig {
    /// A drive over the given backing file.
    pub fn new(file: &str, media: &str, format: &str) -> (r: QemuDriveConfig)
        ensures
            r.file@ == file@,
            r.media@ == media@,
            r.format@ == format@,
    {
        QemuDriveConfig {
            file: file.to_owned(),
            media: media.to_owned(),
            format: format.to_owned(),
        }
    }
}

/// A full virtual-machine run configuration.
#[derive(Clone, Debug)]
pub struct QemuConfig {
    /// Path of the virtual-machine executable.
    pub qemu_path: String,
    /// Path of the firmware image.
    pub bios_path: String,
    /// The drives, in index order.
    pub drives: Vec<QemuDriveConfig>,
    /// Extra arguments appended verbatim after the drives.
    pub additional_args: Vec<String>,
}

impl Default for QemuConfig {
    /// The conventional defaults: the stock machine executable and firmware
    /// names, no drives, and networking disabled.
    fn default() -> (r: QemuConfig)
        ensures
            r.qemu_path@ == "qemu-system-x86_64"@,
            r.bios_path@ == "OVMF.fd"@,
            r.drives@.len() == 0,
            r.additional_args.deep_view() =~= seq!["-net"@, "none"@],
    {
        let mut additional_args: Vec<String> = Vec::new();
        additional_args.push(String::from_str("-net"));
        additional_args.push(String::from_str("none"));
        proof {
            assert(additional_args.deep_view() =~= seq!["-net"@, "none"@]);
        }
        QemuConfig {
            qemu_path: String::from_str("qemu-system-x86_64"),
            bios_path: String::from_str("OVMF.fd"),
            drives: Vec::new(),
            additional_args,
        }
    }
}

/// The character of one decimal digit.
pub open spec fn dec_digit(d: nat) -> char {
    if d == 0 {
        '0'
    } else if d == 1 {
        '1'
    } else if d == 2 {
        '2'
    } else if d == 3 {
        '3'
    } else if d == 4 {
        '4'
    } else if d == 5 {
        '5'
    } else if d == 6 {
        '6'
    } else if d == 7 {
        '7'
    } else if d == 8 {
        '8'
    } else {
        '9'
    }
}

/// The decimal form of a number: no sign, no leading zeroes (except for the
/// number zero itself).
pub open spec fn dec_string(n: nat) -> Seq<char>
    decreases n,
{
    if n < 10 {
        seq![dec_digit(n)]
    } else {
        dec_string(n / 10).push(dec_digit(n % 10))
    }
}

/// Appends one decimal digit.
fn append_digit(out: &mut String, d: u64)
    requires
        d < 10,
    ensures
        final(out)@ == old(out)@ + seq![dec_digit(d as nat)],
{
    let ghost before = out@;
    if d == 0 {
        out.append("0");
    } else if d == 1 {
        out.append("1");
    } else if d == 2 {
        out.append("2");
    } else if d == 3 {
        out.append("3");
    } else if d == 4 {
        out.append("4");
    } else if d == 5 {
        out.append("5");
    } else if d == 6 {
        out.append("6");
    } else if d == 7 {
        out.append("7");
    } else if d == 8 {
        out.append("8");
    } else {
        out.append("9");
    }
    proof {
        reveal_strlit("0");
        reveal_strlit("1");
        reveal_strlit("2");
        reveal_strlit("3");
        reveal_strlit("4");
        reveal_strlit("5");
        reveal_strlit("6");
        reveal_strlit("7");
        reveal_strlit("8");
        reveal_strlit("9");
        assert(out@ =~= before + seq![dec_digit(d as nat)]);
    }
}

/// Appends the decimal form of `n`.
fn append_dec(out: &mut String, n: u64)
    ensures
        final(out)@ == old(out)@ + dec_string(n as nat),
    decreases n,
{
    let ghost before = out@;
    if n >= 10 {
        append_dec(out, n / 10);
        append_digit(out, n % 10);
        proof {
            assert(out@ =~= before + dec_string(n as nat));
        }
    } else {
        append_digit(out, n);
    }
}

/// The `-drive` argument for one drive at one index.
pub open spec fn drive_arg_spec(d: QemuDriveConfig, index: nat) -> Seq<char> {
    "file="@ + d.file@ + ",index="@ + dec_string(index) + ",media="@ + d.media@ + ",format="@
        + d.format@
}

/// Builds the `-drive` argument for one drive at one index.
fn drive_arg(d: &QemuDriveConfig, index: u64) -> (r: String)
    ensures
        r@ == drive_arg_spec(*d, index as nat),
{
    let mut out = String::from_str("file=");
    out.append(d.file.as_str());
    out.append(",index=");
    append_dec(&mut out, index);
    out.append(",media=");
    out.append(d.media.as_str());
    out.append(",format=");
    out.append(d.format.as_str());
    proof {
        assert(out@ =~= drive_arg_spec(*d, index as nat));
    }
    out
}

/// The argument pairs for the first `k` drives.
pub open spec fn drive_args_upto(drives: Seq<QemuDriveConfig>, k: int) -> Seq<Seq<char>>
    decreases k,
{
    if k <= 0 {
        Seq::empty()
    } else {
        drive_args_upto(drives, k - 1) + seq!["-drive"@, drive_arg_spec(drives[k - 1], (k - 1) as nat)]
    }
}

/// The full argument vector of the invocation: the firmware, then every
/// drive in index order, then the extra arguments verbatim.
pub open spec fn qemu_args_spec(c: QemuConfig) -> Seq<Seq<char>> {
    seq!["-bios"@, c.bios_path@] + drive_args_upto(c.drives@, c.drives@.len() as int)
        + c.additional_args.deep_view()
}

impl QemuConfig {
    /// Assembles the argument vector for this configuration.  The caller
    /// launches the executable at `qemu_path` with exactly these arguments.
    pub fn build_args(&self) -> (r: Vec<String>)
        ensures
            r.deep_view() == qemu_args_spec(*self),
    {
        let mut out: Vec<String> = Vec::new();
        out.push(String::from_str("-bios"));
        out.push(self.bios_path.clone());
        proof {
            assert(out.deep_view() =~= seq!["-bios"@, self.bios_path@]);
        }
        let mut i: usize = 0;
        while i < self.drives.len()
            invariant
                i <= self.drives@.len(),
                out.deep_view() =~= seq!["-bios"@, self.bios_path@] + drive_args_upto(
                    self.drives@,
                    i as int,
                ),
            decreases self.drives@.len() - i,
        {
            let ghost before = out.deep_view();
            out.push(String::from_str("-drive"));
            out.push(drive_arg(&self.drives[i], i as u64));
            proof {
                assert(out.deep_view() =~= before + seq![
                    "-drive"@,
                    drive_arg_spec(self.drives@[i as int], i as nat),
                ]);
            }
            i = i + 1;
        }
        let mut j: usize = 0;
        while j < self.additional_args.len()
            invariant
                j <= self.additional_args@.len(),
                out.deep_view() =~= seq!["-bios"@, self.bios_path@] + drive_args_upto(
                    self.drives@,
                    self.drives@.len() as int,
                ) + self.additional_args.deep_view().take(j as int),
            decreases self.additional_args@.len() - j,
        {
            let ghost before = out.deep_view();
            out.push(self.additional_args[j].clone());
            proof {
                assert(out.deep_view() =~= before.push(self.additional_args@[j as int]@));
                assert(self.additional_args.deep_view().take(j as int + 1)
                    =~= self.additional_args.deep_view().take(j as int).push(
                    self.additional_args@[j as int]@,
                ));
            }
            j = j + 1;
        }
        proof {
            assert(self.additional_args.deep_view().take(self.additional_args@.len() as int)
                =~= self.additional_args.deep_view());
            assert(out.deep_view() =~= qemu_args_spec(*self));
        }
        out
    }
}

} // verus!
