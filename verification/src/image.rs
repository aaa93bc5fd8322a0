//! The boot image builder.
//!
//! An [`EfiImage`] owns a fixed-size byte buffer holding a FAT volume.  Its
//! contents are modelled by the uninterpreted map [`fat_files`] from
//! lower-cased normalized destination paths to file contents; the volume
//! wrappers state how each operation changes that map.  Once populated, the
//! buffer is taken out whole and handed to whatever boots it, so no handle
//! outlives the builder.

use vstd::prelude::*;
use crate::path::component_ok;
use crate::path::components_of;
use crate::path::join_components;
use crate::path::join_prefix;
use crate::path::lemma_split_join;
use crate::path::norm_key;
use crate::path::normalized_path;
use crate::path::split_image_path;
use crate::path::to_lower;
use crate::path::valid_image_path;

verus! {

/// Why an image operation failed.
#[derive(Clone, Copy, Debug, PartialEq, Eq, Structural)]
pub enum ImageError {
    /// The destination path cannot name a file in the image.
    InvalidPath,
    /// The backing buffer could not be formatted as a FAT volume.
    Format,
    /// The volume refused the operation (for example, it is full).
    Io,
    /// A host file to be placed could not be read.  The builder itself takes
    /// plain bytes; callers that read host files report failures with this.
    HostIo,
}

/// An image with no files at all.
pub open spec fn no_files() -> Map<Seq<char>, Seq<u8>> {
    Map::empty()
}

/// The files a FAT volume image holds, keyed by lower-cased normalized
/// destination path.  What bytes encode which files is fixed by the FAT
/// format; the volume wrappers below state how each call changes this map.
///
/// The wrappers' preconditions admit any buffer, but the builder applies
/// them only to its private buffer, which always holds a volume produced by
/// `fat_format` and changed by these wrappers alone: read the three
/// contracts as one contract on that hidden state.
pub uninterp spec fn fat_files(disk: Seq<u8>) -> Map<Seq<char>, Seq<u8>>;

/// Whether the volume formatter accepts a buffer of the given length.
/// `fatfs::format_volume` reads nothing from the buffer — only its length —
/// so whether formatting succeeds is a function of that length alone.
pub uninterp spec fn fat_format_ok(len: nat) -> bool;

/// Relies on `fatfs::format_volume`: formats the buffer as an empty FAT
/// volume spanning the buffer's length, writing only within it.
#[verifier::external_body]
fn fat_format(disk: &mut Vec<u8>) -> (r: Result<(), ImageError>)
    ensures
        r is Ok <==> fat_format_ok(old(disk)@.len()),
        r is Ok ==> fat_files(final(disk)@) == no_files(),
        r is Err ==> r === Err(ImageError::Format),
        final(disk)@.len() == old(disk)@.len(),
{
    fatfs::format_volume(std::io::Cursor::new(&mut *disk), fatfs::FormatVolumeOptions::new()).map_err(
        |_| ImageError::Format,
    )
}

/// Relies on `fatfs::FileSystem::new`, `fatfs::Dir::create_dir` and
/// `fatfs::FileSystem::unmount`: opens the FAT volume over the buffer,
/// creates the directory at `path` (opening, not failing, if it already
/// exists — only the final component is created, so callers create parents
/// first), and closes the volume.  Directories never hold file contents, so
/// the file map is unchanged whatever happens.
#[verifier::external_body]
fn fat_create_dir(disk: &mut Vec<u8>, path: &str) -> (r: Result<(), ImageError>)
    requires
        normalized_path(path@),
    ensures
        final(disk)@.len() == old(disk)@.len(),
        fat_files(final(disk)@) == fat_files(old(disk)@),
        r is Err ==> r === Err(ImageError::Io),
{
    let fs = match fatfs::FileSystem::new(std::io::Cursor::new(&mut *disk), fatfs::FsOptions::new()) {
        Ok(fs) => fs,
        Err(_) => return Err(ImageError::Io),
    };
    let made = fs.root_dir().create_dir(path).map(|_| ());
    made.and(fs.unmount()).map_err(|_| ImageError::Io)
}

/// Relies on `fatfs::FileSystem::new`, `fatfs::Dir::create_file`,
/// `fatfs::File::truncate`, `std::io::Write::write_all` and
/// `fatfs::FileSystem::unmount`: opens the FAT volume over the buffer,
/// creates or opens the file at `path` (whose parent directories must
/// already exist), truncates it, writes `contents`, and closes the volume.
/// Names are matched case-insensitively, so on success the file map gains
/// exactly the lower-cased path, superseding any earlier contents under it.
#[verifier::external_body]
fn fat_set_file(disk: &mut Vec<u8>, path: &str, contents: &[u8]) -> (r: Result<(), ImageError>)
    requires
        normalized_path(path@),
    ensures
        final(disk)@.len() == old(disk)@.len(),
        r is Ok ==> fat_files(final(disk)@) == fat_files(old(disk)@).insert(
            to_lower(path@),
            contents@,
        ),
        r is Err ==> r === Err(ImageError::Io),
{
    let fs = match fatfs::FileSystem::new(std::io::Cursor::new(&mut *disk), fatfs::FsOptions::new()) {
        Ok(fs) => fs,
        Err(_) => return Err(ImageError::Io),
    };
    let written = fs.root_dir().create_file(path).and_then(|mut f| {
        f.truncate()?;
        std::io::Write::write_all(&mut f, contents)
    });
    written.and(fs.unmount()).map_err(|_| ImageError::Io)
}

/// How many bytes one mebibyte holds.
pub const BYTES_PER_MIB: u64 = 0x10_0000;

/// Converts a size requested in whole mebibytes to bytes, by multiplying by
/// 1,048,576 exactly — no rounding.  `None` exactly when the product does
/// not fit in a `u64`.
pub fn mib_to_bytes(size_mib: u64) -> (r: Option<u64>)
    ensures
        r is Some <==> size_mib * BYTES_PER_MIB <= u64::MAX,
        r matches Some(b) ==> b == size_mib * BYTES_PER_MIB,
{
    size_mib.checked_mul(BYTES_PER_MIB)
}

/// The destination of the user-supplied executable: the image root in
/// default mode, or the firmware's default boot-manager path in direct-boot
/// mode.
pub open spec fn exec_path_spec(direct_boot: bool) -> Seq<char> {
    if direct_boot {
        "EFI/Boot/BootX64.efi"@
    } else {
        "run.efi"@
    }
}

/// The name of the fixed startup script at the image root.
pub open spec fn startup_script_name() -> Seq<char> {
    "startup.nsh"@
}

/// The fixed startup script: a plain-text command file the firmware's shell
/// runs on boot, which invokes the placed executable.
pub open spec fn startup_script_text() -> Seq<char> {
    "run.efi\n"@
}

/// The startup script's bytes: its ASCII text, one byte per character.
pub open spec fn startup_script_bytes() -> Seq<u8> {
    startup_script_text().map_values(|c: char| c as u8)
}

/// Builds the startup script's contents.
pub fn build_startup_script() -> (r: Vec<u8>)
    ensures
        r@ == startup_script_bytes(),
{
    let text: &str = "run.efi\n";
    let bytes = text.as_bytes_vec();
    proof {
        reveal_strlit("run.efi\n");
        vstd::string::is_ascii_spec_bytes(text);
        assert(vstd::string::is_ascii(text));
        assert(bytes@ =~= startup_script_bytes());
    }
    bytes
}

/// A fixed-size FAT boot volume being populated.
#[derive(Debug)]
pub struct EfiImage {
    disk: Vec<u8>,
}

impl EfiImage {
    /// The files the image holds, keyed by lower-cased normalized path.
    pub closed spec fn files(&self) -> Map<Seq<char>, Seq<u8>> {
        fat_files(self.disk@)
    }

    /// The size of the backing buffer in bytes, fixed at creation.
    pub closed spec fn size_spec(&self) -> nat {
        self.disk@.len()
    }

    /// Creates a new image of exactly `size_bytes` bytes, formatted as an
    /// empty FAT volume.  It succeeds exactly when the formatter accepts a
    /// buffer of that length.
    pub fn new(size_bytes: usize) -> (r: Result<EfiImage, ImageError>)
        ensures
            r is Ok <==> fat_format_ok(size_bytes as nat),
            r matches Ok(img) ==> img.size_spec() == size_bytes && img.files() == no_files(),
            r is Err ==> r === Err(ImageError::Format),
    {
        let mut disk = vec![0u8; size_bytes];
        match fat_format(&mut disk) {
            Ok(()) => Ok(EfiImage { disk }),
            Err(e) => Err(e),
        }
    }

    /// Writes `contents` to `path` inside the image, creating every missing
    /// intermediate directory (root separators are skipped, and creating an
    /// existing directory is a no-op).  Writing the same destination again
    /// overwrites: later placements deliberately supersede earlier ones.
    pub fn set_file_contents(&mut self, path: &str, contents: &[u8]) -> (r: Result<
        (),
        ImageError,
    >)
        ensures
            final(self).size_spec() == old(self).size_spec(),
            r is Ok ==> valid_image_path(path@) && final(self).files() == old(self).files().insert(
                norm_key(path@),
                contents@,
            ),
            r == Err::<(), ImageError>(ImageError::InvalidPath) <==> !valid_image_path(path@),
            !valid_image_path(path@) ==> *final(self) == *old(self),
    {
        let comps = match split_image_path(path) {
            Some(comps) => comps,
            None => {
                return Err(ImageError::InvalidPath);
            },
        };
        proof {
            lemma_components_joinable(path@);
        }
        let n = comps.len();
        let mut k: usize = 1;
        while k < n
            invariant
                n == comps@.len(),
                1 <= k,
                k <= n || n == 0,
                comps.deep_view() == components_of(path@),
                valid_image_path(path@),
                self.size_spec() == old(self).size_spec(),
                self.files() == old(self).files(),
            decreases n - k,
        {
            let prefix = join_prefix(&comps, k);
            proof {
                lemma_prefix_normalized(path@, k as int);
            }
            match fat_create_dir(&mut self.disk, prefix.as_str()) {
                Ok(()) => {},
                Err(e) => {
                    return Err(e);
                },
            }
            k = k + 1;
        }
        let full = join_prefix(&comps, n);
        proof {
            lemma_prefix_normalized(path@, n as int);
            assert(components_of(path@).take(n as int) =~= components_of(path@));
        }
        match fat_set_file(&mut self.disk, full.as_str(), contents) {
            Ok(()) => {
                proof {
                    lemma_split_join(components_of(path@));
                }
                Ok(())
            },
            Err(e) => Err(e),
        }
    }

    /// Places the two mandatory entries: the user-supplied executable (at
    /// the image root in default mode, or at the firmware's boot-manager
    /// path in direct-boot mode) and the fixed startup script at the image
    /// root.  The builder owes these before any user entry is written.
    pub fn write_mandatory_entries(&mut self, efi_contents: &[u8], direct_boot: bool) -> (r:
        Result<(), ImageError>)
        ensures
            final(self).size_spec() == old(self).size_spec(),
            r is Ok ==> final(self).files() == old(self).files().insert(
                norm_key(exec_path_spec(direct_boot)),
                efi_contents@,
            ).insert(norm_key(startup_script_name()), startup_script_bytes()),
            r is Ok ==> final(self).files().contains_key(norm_key(exec_path_spec(direct_boot)))
                && final(self).files().contains_key(norm_key(startup_script_name())),
            r !== Err(ImageError::InvalidPath),
    {
        proof {
            lemma_mandatory_paths();
        }
        let exec_path: &str = if direct_boot {
            "EFI/Boot/BootX64.efi"
        } else {
            "run.efi"
        };
        match self.set_file_contents(exec_path, efi_contents) {
            Ok(()) => {},
            Err(e) => {
                return Err(e);
            },
        }
        let script = build_startup_script();
        match self.set_file_contents("startup.nsh", script.as_slice()) {
            Ok(()) => Ok(()),
            Err(e) => Err(e),
        }
    }

    /// Takes the finished volume out of the builder.  Every handle the
    /// builder held is gone once this returns, so the caller may hand the
    /// bytes to a process that wants unshared access.
    pub fn into_bytes(self) -> (r: Vec<u8>)
        ensures
            r@.len() == self.size_spec(),
            fat_files(r@) == self.files(),
    {
        self.disk
    }
}

/// The mandatory destinations are acceptable image paths, and their keys in
/// the image model are simply their lower-cased spellings.
pub proof fn lemma_mandatory_paths()
    ensures
        valid_image_path(exec_path_spec(false)),
        valid_image_path(exec_path_spec(true)),
        valid_image_path(startup_script_name()),
        norm_key(exec_path_spec(false)) == "run.efi"@,
        norm_key(startup_script_name()) == "startup.nsh"@,
        norm_key(exec_path_spec(true)) == "efi/boot/bootx64.efi"@,
{
    reveal_strlit("run.efi");
    reveal_strlit("startup.nsh");
    reveal_strlit("EFI/Boot/BootX64.efi");
    reveal_strlit("EFI");
    reveal_strlit("Boot");
    reveal_strlit("BootX64.efi");
    reveal_strlit("efi/boot/bootx64.efi");

    let r = "run.efi"@;
    crate::path::lemma_components_no_sep(r);
    assert(component_ok(r));
    assert(join_components(seq![r]) == r);
    assert(to_lower(r) =~= r);

    let s = "startup.nsh"@;
    crate::path::lemma_components_no_sep(s);
    assert(component_ok(s));
    assert(join_components(seq![s]) == s);
    assert(to_lower(s) =~= s);

    let e = "EFI/Boot/BootX64.efi"@;
    let e1 = "EFI"@;
    let e2 = "Boot"@;
    let e3 = "BootX64.efi"@;
    assert(e =~= e1 + seq!['/'] + (e2 + seq!['/'] + e3));
    crate::path::lemma_components_append_sep(e1, e2 + seq!['/'] + e3);
    crate::path::lemma_components_append_sep(e2, e3);
    crate::path::lemma_components_no_sep(e1);
    crate::path::lemma_components_no_sep(e2);
    crate::path::lemma_components_no_sep(e3);
    assert(components_of(e) =~= seq![e1, e2, e3]);
    assert(component_ok(e1));
    assert(component_ok(e2));
    assert(component_ok(e3));
    assert(seq![e1, e2, e3].drop_last() =~= seq![e1, e2]);
    assert(seq![e1, e2].drop_last() =~= seq![e1]);
    assert(join_components(seq![e1]) == e1);
    assert(join_components(seq![e1, e2]) =~= e1 + seq!['/'] + e2);
    assert(join_components(seq![e1, e2, e3]) =~= e);
    assert(to_lower(e) =~= "efi/boot/bootx64.efi"@);
}

/// Law: writing a destination twice overwrites rather than duplicates or
/// errors: the image then holds exactly what a single write of the second
/// contents would give, and a key appears at most once in a map.
pub proof fn lemma_overwrite_idempotent(
    files: Map<Seq<char>, Seq<u8>>,
    key: Seq<char>,
    first: Seq<u8>,
    second: Seq<u8>,
)
    ensures
        files.insert(key, first).insert(key, second) =~= files.insert(key, second),
{
}

/// Law: the mandatory entries survive any later placement: however many user
/// files are written (including none), the executable and the startup script
/// stay present in the image.
pub proof fn lemma_mandatory_preserved(
    files: Map<Seq<char>, Seq<u8>>,
    direct_boot: bool,
    user_key: Seq<char>,
    user_bytes: Seq<u8>,
)
    requires
        files.contains_key(norm_key(exec_path_spec(direct_boot))),
        files.contains_key(norm_key(startup_script_name())),
    ensures
        files.insert(user_key, user_bytes).contains_key(norm_key(exec_path_spec(direct_boot))),
        files.insert(user_key, user_bytes).contains_key(norm_key(startup_script_name())),
{
}

/// Law: a user placement that targets neither mandatory destination leaves
/// their bytes intact, not merely their presence.  (A placement that does
/// target one deliberately supersedes its contents, as the overwrite policy
/// prescribes, while the entry itself stays present.)
pub proof fn lemma_mandatory_bytes_preserved(
    files: Map<Seq<char>, Seq<u8>>,
    direct_boot: bool,
    user_key: Seq<char>,
    user_bytes: Seq<u8>,
)
    requires
        files.contains_key(norm_key(exec_path_spec(direct_boot))),
        files.contains_key(norm_key(startup_script_name())),
        user_key != norm_key(exec_path_spec(direct_boot)),
        user_key != norm_key(startup_script_name()),
    ensures
        files.insert(user_key, user_bytes)[norm_key(exec_path_spec(direct_boot))] == files[norm_key(
            exec_path_spec(direct_boot),
        )],
        files.insert(user_key, user_bytes)[norm_key(startup_script_name())] == files[norm_key(
            startup_script_name(),
        )],
{
}

/// A valid path's components can be rejoined: every prefix of them is a
/// normalized path with the same components.
proof fn lemma_prefix_normalized(s: Seq<char>, k: int)
    requires
        valid_image_path(s),
        1 <= k <= components_of(s).len(),
    ensures
        normalized_path(join_components(components_of(s).take(k))),
        components_of(join_components(components_of(s).take(k))) == components_of(s).take(k),
    decreases k,
{
    lemma_components_joinable(s);
    let cs = components_of(s).take(k);
    assert(forall|j: int| 0 <= j < cs.len() ==> component_ok(#[trigger] cs[j]));
    assert(forall|j: int|
        0 <= j < cs.len() ==> (#[trigger] cs[j]).len() > 0 && (forall|i: int|
            0 <= i < cs[j].len() ==> cs[j][i] != '/'));
    lemma_split_join(cs);
}

/// Acceptable components never hold a separator.
proof fn lemma_components_joinable(s: Seq<char>)
    requires
        valid_image_path(s),
    ensures
        forall|j: int|
            0 <= j < components_of(s).len() ==> (#[trigger] components_of(s)[j]).len() > 0 && (
            forall|i: int| 0 <= i < components_of(s)[j].len() ==> components_of(s)[j][i] != '/'),
{
    assert forall|j: int| 0 <= j < components_of(s).len() implies (#[trigger] components_of(s)[j]).len()
        > 0 && (forall|i: int|
        0 <= i < components_of(s)[j].len() ==> components_of(s)[j][i] != '/') by {
        assert(component_ok(components_of(s)[j]));
        assert forall|i: int| 0 <= i < components_of(s)[j].len() implies components_of(s)[j][i]
            != '/' by {
            assert(crate::path::component_char_ok(components_of(s)[j][i]));
        }
    }
}

} // verus!
