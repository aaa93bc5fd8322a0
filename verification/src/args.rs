//! Command-line level data and the file-placement token resolver.
//!
//! A file-placement token is `<host-path>[:<image-path>]`.  Without a colon
//! the host file goes to the image root under the host path's final filename
//! component; with exactly one colon the token splits there into host and
//! image paths; more than one colon is malformed — the split point must be
//! unambiguous, so extra segments are rejected rather than silently folded
//! into the image path.

use vstd::prelude::*;
use vstd::string::*;
use crate::path::components_of;
use crate::path::split_components;

verus! {

/// Why a file-placement token was rejected.  Parsing is pure: these are
/// reported before any file is touched.
#[derive(Clone, Copy, Debug, PartialEq, Eq, Structural)]
pub enum ParseError {
    /// The token holds more than one `:`.
    Malformed,
    /// The host path is empty (which includes an empty token).
    EmptyHost,
    /// The image path is empty, or no final filename component exists to
    /// give an implicit one.
    EmptyImage,
}

/// A resolved file placement: which host file goes where inside the image.
#[derive(Clone, Debug, PartialEq, Eq)]
pub struct PathSpec {
    /// The path of the source file on the host.
    pub host_path: String,
    /// The destination path inside the image; never empty, and always with a
    /// final (leaf) component.
    pub image_path: String,
}

/// How many times `c` occurs in `s`.
pub open spec fn count_occurrences(s: Seq<char>, c: char) -> nat
    decreases s.len(),
{
    if s.len() == 0 {
        0
    } else {
        (if s.last() == c {
            1nat
        } else {
            0nat
        }) + count_occurrences(s.drop_last(), c)
    }
}

/// The special entry `.`: it names the directory itself, so it never serves
/// as a final filename component.
pub open spec fn is_dot_component(c: Seq<char>) -> bool {
    c.len() == 1 && c[0] == '.'
}

/// The special entry `..`: it names the parent directory, so it never serves
/// as a final filename component either.
pub open spec fn is_dotdot_component(c: Seq<char>) -> bool {
    c.len() == 2 && c[0] == '.' && c[1] == '.'
}

/// The components with the trailing `.` entries removed: the platform's
/// final-component rule strips them (`foo.txt/.` has the final filename
/// component `foo.txt`), so the implicit image path is chosen the same way.
pub open spec fn drop_trailing_dots(cs: Seq<Seq<char>>) -> Seq<Seq<char>>
    decreases cs.len(),
{
    if cs.len() > 0 && is_dot_component(cs.last()) {
        drop_trailing_dots(cs.drop_last())
    } else {
        cs
    }
}

/// What a file-placement token resolves to: the host path and the image
/// path, or the reason the token is rejected.
pub open spec fn parse_spec(t: Seq<char>) -> Result<(Seq<char>, Seq<char>), ParseError> {
    let colons = count_occurrences(t, ':');
    if colons > 1 {
        Err(ParseError::Malformed)
    } else if colons == 1 {
        let k = choose|k: int| 0 <= k < t.len() && t[k] == ':';
        if k == 0 {
            Err(ParseError::EmptyHost)
        } else if k + 1 == t.len() {
            Err(ParseError::EmptyImage)
        } else {
            Ok((t.take(k), t.skip(k + 1)))
        }
    } else {
        if t.len() == 0 {
            Err(ParseError::EmptyHost)
        } else {
            let trimmed = drop_trailing_dots(components_of(t));
            if trimmed.len() == 0 || is_dotdot_component(trimmed.last()) {
                Err(ParseError::EmptyImage)
            } else {
                Ok((t, trimmed.last()))
            }
        }
    }
}

/// Whether the resolver's answer `r` is the one the model gives.
pub open spec fn parse_result_matches(
    r: Result<PathSpec, ParseError>,
    s: Result<(Seq<char>, Seq<char>), ParseError>,
) -> bool {
    match (r, s) {
        (Ok(p), Ok(pair)) => p.host_path@ == pair.0 && p.image_path@ == pair.1,
        (Err(e1), Err(e2)) => e1 == e2,
        _ => false,
    }
}

/// A character that occurs in `s` is counted at least once.
proof fn lemma_count_ge_one(s: Seq<char>, c: char, i: int)
    requires
        0 <= i < s.len(),
        s[i] == c,
    ensures
        count_occurrences(s, c) >= 1,
    decreases s.len(),
{
    if i < s.len() - 1 {
        lemma_count_ge_one(s.drop_last(), c, i);
    }
}

/// Two distinct occurrences are counted at least twice; so a count of one
/// determines the occurrence's position.
proof fn lemma_count_two(s: Seq<char>, c: char, i: int, j: int)
    requires
        0 <= i < j < s.len(),
        s[i] == c,
        s[j] == c,
    ensures
        count_occurrences(s, c) >= 2,
    decreases s.len(),
{
    if j == s.len() - 1 {
        lemma_count_ge_one(s.drop_last(), c, i);
    } else {
        lemma_count_two(s.drop_last(), c, i, j);
    }
}

/// Law: a token without a separator places the host file at the image root,
/// under the host path's final filename component — the last component once
/// trailing `.` entries are stripped.
pub proof fn lemma_no_colon_token(t: Seq<char>)
    requires
        count_occurrences(t, ':') == 0,
        t.len() > 0,
        drop_trailing_dots(components_of(t)).len() > 0,
        !is_dotdot_component(drop_trailing_dots(components_of(t)).last()),
    ensures
        parse_spec(t) == Ok::<(Seq<char>, Seq<char>), ParseError>(
            (t, drop_trailing_dots(components_of(t)).last()),
        ),
{
}

/// Whether a component is the special entry `.`.
fn is_dot_exec(s: &str) -> (b: bool)
    ensures
        b == is_dot_component(s@),
{
    s.unicode_len() == 1 && s.get_char(0) == '.'
}

/// Whether a component is the special entry `..`.
fn is_dotdot_exec(s: &str) -> (b: bool)
    ensures
        b == is_dotdot_component(s@),
{
    s.unicode_len() == 2 && s.get_char(0) == '.' && s.get_char(1) == '.'
}

/// Resolves one file-placement token into a [`PathSpec`], or the reason it
/// is rejected.
pub fn parse_file_arg(token: &str) -> (r: Result<PathSpec, ParseError>)
    ensures
        parse_result_matches(r, parse_spec(token@)),
{
    let n = token.unicode_len();
    let mut i: usize = 0;
    let mut cnt: usize = 0;
    let mut first: usize = 0;
    while i < n
        invariant
            n == token@.len(),
            i <= n,
            cnt <= i,
            cnt == count_occurrences(token@.take(i as int), ':'),
            cnt > 0 ==> first < i && token@[first as int] == ':',
        decreases n - i,
    {
        proof {
            assert(token@.take(i as int + 1).drop_last() =~= token@.take(i as int));
        }
        let c = token.get_char(i);
        if c == ':' {
            if cnt == 0 {
                first = i;
            }
            cnt = cnt + 1;
        }
        i = i + 1;
    }
    proof {
        assert(token@.take(n as int) =~= token@);
    }
    if cnt > 1 {
        return Err(ParseError::Malformed);
    }
    if cnt == 1 {
        proof {
            assert(exists|k: int| 0 <= k < token@.len() && token@[k] == ':') by {
                assert(token@[first as int] == ':');
            }
            let k = choose|k: int| 0 <= k < token@.len() && token@[k] == ':';
            if k < first as int {
                lemma_count_two(token@, ':', k, first as int);
            } else if k > first as int {
                lemma_count_two(token@, ':', first as int, k);
            }
        }
        if first == 0 {
            return Err(ParseError::EmptyHost);
        }
        if first + 1 == n {
            return Err(ParseError::EmptyImage);
        }
        let host = token.substring_char(0, first).to_owned();
        let image = token.substring_char(first + 1, n).to_owned();
        return Ok(PathSpec { host_path: host, image_path: image });
    }
    if n == 0 {
        return Err(ParseError::EmptyHost);
    }
    let mut comps = split_components(token);
    let mut trimming = true;
    while trimming
        invariant
            drop_trailing_dots(comps.deep_view()) == drop_trailing_dots(components_of(token@)),
            !trimming ==> comps@.len() == 0 || !is_dot_component(comps.deep_view().last()),
        decreases comps@.len() + (if trimming {
            1int
        } else {
            0int
        }),
    {
        if comps.len() == 0 {
            trimming = false;
        } else {
            let dot = is_dot_exec(comps[comps.len() - 1].as_str());
            if dot {
                let ghost before = comps.deep_view();
                comps.pop();
                proof {
                    assert(comps.deep_view() =~= before.drop_last());
                }
            } else {
                trimming = false;
            }
        }
    }
    proof {
        assert(comps.deep_view() == drop_trailing_dots(components_of(token@)));
    }
    if comps.len() == 0 {
        return Err(ParseError::EmptyImage);
    }
    let leaf = &comps[comps.len() - 1];
    proof {
        assert(leaf@ == drop_trailing_dots(components_of(token@)).last());
    }
    if is_dotdot_exec(leaf.as_str()) {
        return Err(ParseError::EmptyImage);
    }
    Ok(PathSpec { host_path: token.to_owned(), image_path: leaf.clone() })
}

/// The command-line surface the orchestrator consumes: resolved by an
/// external argument-parsing collaborator and handed in as plain values.
#[derive(Clone, Debug, PartialEq)]
pub struct Args {
    /// Path of the firmware image the virtual machine loads.
    pub bios_path: String,
    /// Path of the virtual-machine executable.
    pub qemu_path: String,
    /// Size of the boot image in MiB.
    pub size: u64,
    /// File-placement tokens, `<host>[:<image-dest>]` each.
    pub add_file: Vec<String>,
    /// The UEFI executable to place and run.
    pub efi_exe: String,
    /// Trailing arguments forwarded verbatim to the virtual machine.
    pub qemu_args: Vec<String>,
    /// Whether to place the executable at the firmware's default
    /// boot-manager path instead of the image root.
    pub boot: bool,
}

impl Default for Args {
    /// The empty argument set: every path empty, no placements, size 0.
    fn default() -> (r: Args)
        ensures
            r.bios_path@.len() == 0,
            r.qemu_path@.len() == 0,
            r.size == 0,
            r.add_file@.len() == 0,
            r.efi_exe@.len() == 0,
            r.qemu_args@.len() == 0,
            r.boot == false,
    {
        Args {
            bios_path: String::new(),
            qemu_path: String::new(),
            size: 0,
            add_file: Vec::new(),
            efi_exe: String::new(),
            qemu_args: Vec::new(),
            boot: false,
        }
    }
}

impl Args {
    /// Resolves every file-placement token, in order; each token resolves or
    /// is rejected independently of the others.
    pub fn parse_add_file_args(&self) -> (r: Vec<Result<PathSpec, ParseError>>)
        ensures
            r@.len() == self.add_file@.len(),
            forall|i: int|
                0 <= i < r@.len() ==> parse_result_matches(
                    #[trigger] r@[i],
                    parse_spec(self.add_file@[i]@),
                ),
    {
        let mut out: Vec<Result<PathSpec, ParseError>> = Vec::new();
        let mut i: usize = 0;
        while i < self.add_file.len()
            invariant
                i <= self.add_file@.len(),
                out@.len() == i,
                forall|j: int|
                    0 <= j < i ==> parse_result_matches(
                        #[trigger] out@[j],
                        parse_spec(self.add_file@[j]@),
                    ),
            decreases self.add_file@.len() - i,
        {
            let parsed = parse_file_arg(self.add_file[i].as_str());
            out.push(parsed);
            i = i + 1;
        }
        out
    }
}

} // verus!
