//! The filesystem safety layer's decision logic: the checks guarding hardlink
//! creation and target removal, the disk-space preflight, backup naming, the
//! hash sidecar, and backup retention. The digest itself comes from an
//! outside hasher; everything around it is stated and proved here.

use vstd::prelude::*;

use sha2::Digest;

use crate::model::{FileKind, Message, MetaProbe};
use crate::pathing::{path_join, spec_path_join};

verus! {

/// The checks that must pass before a hardlink may be created: the source is
/// readable and a regular file, the target's parent directory is readable, and
/// both live on the same device (hardlinks cannot cross filesystems).
pub open spec fn spec_create_check(source: MetaProbe, target_parent: MetaProbe) -> Result<
    (),
    Message,
> {
    match source {
        MetaProbe::Missing(e) => Err(Message::SourceInspectFailed(e)),
        MetaProbe::Denied(e) => Err(Message::SourceInspectFailed(e)),
        MetaProbe::Present(smeta) => {
            if smeta.kind != FileKind::Regular {
                Err(Message::SourceNotRegular)
            } else {
                match target_parent {
                    MetaProbe::Missing(e) => Err(Message::ParentInspectFailed(e)),
                    MetaProbe::Denied(e) => Err(Message::ParentInspectFailed(e)),
                    MetaProbe::Present(pmeta) => {
                        if smeta.dev != pmeta.dev {
                            Err(Message::CrossFilesystem {
                                source_dev: smeta.dev,
                                parent_dev: pmeta.dev,
                            })
                        } else {
                            Ok(())
                        }
                    },
                }
            }
        },
    }
}

/// Decide whether a hardlink may be created, from the source's link-aware
/// metadata (re-read at link time) and the target parent directory's
/// (link-following) metadata.
pub fn create_hard_link_checked(source: &MetaProbe, target_parent: &MetaProbe) -> (r: Result<
    (),
    Message,
>)
    ensures
        r == spec_create_check(*source, *target_parent),
{
    match source {
        MetaProbe::Missing(e) => Err(Message::SourceInspectFailed(e.clone())),
        MetaProbe::Denied(e) => Err(Message::SourceInspectFailed(e.clone())),
        MetaProbe::Present(smeta) => {
            if smeta.kind != FileKind::Regular {
                Err(Message::SourceNotRegular)
            } else {
                match target_parent {
                    MetaProbe::Missing(e) => Err(Message::ParentInspectFailed(e.clone())),
                    MetaProbe::Denied(e) => Err(Message::ParentInspectFailed(e.clone())),
                    MetaProbe::Present(pmeta) => {
                        if smeta.dev != pmeta.dev {
                            Err(Message::CrossFilesystem {
                                source_dev: smeta.dev,
                                parent_dev: pmeta.dev,
                            })
                        } else {
                            Ok(())
                        }
                    },
                }
            }
        },
    }
}

/// What must happen to the target path before a replacement hardlink can be
/// created there.
#[derive(PartialEq, Eq, Structural, Debug)]
pub enum RemovalPlan {
    /// Nothing occupies the target path.
    AlreadyAbsent,
    /// Delete the target outright: no backup directory is configured.
    DeleteOutright,
    /// Move the target (of the given byte size) into the backup directory.
    BackupFirst { size: u64 },
}

/// How an existing target is displaced: directories are refused, anything
/// else is backed up when a backup directory is configured and deleted
/// otherwise.
pub open spec fn spec_plan_removal(target: MetaProbe, backup_configured: bool) -> Result<
    RemovalPlan,
    Message,
> {
    match target {
        MetaProbe::Missing(_) => Ok(RemovalPlan::AlreadyAbsent),
        MetaProbe::Denied(e) => Err(Message::TargetInspectFailed(e)),
        MetaProbe::Present(meta) => {
            if meta.kind == FileKind::Directory {
                Err(Message::RefusingDirectory)
            } else if backup_configured {
                Ok(RemovalPlan::BackupFirst { size: meta.size })
            } else {
                Ok(RemovalPlan::DeleteOutright)
            }
        },
    }
}

/// Decide how the existing target is displaced, from its link-aware metadata.
pub fn plan_target_removal(target: &MetaProbe, backup_configured: bool) -> (r: Result<
    RemovalPlan,
    Message,
>)
    ensures
        r == spec_plan_removal(*target, backup_configured),
{
    match target {
        MetaProbe::Missing(_) => Ok(RemovalPlan::AlreadyAbsent),
        MetaProbe::Denied(e) => Err(Message::TargetInspectFailed(e.clone())),
        MetaProbe::Present(meta) => {
            if meta.kind == FileKind::Directory {
                Err(Message::RefusingDirectory)
            } else if backup_configured {
                Ok(RemovalPlan::BackupFirst { size: meta.size })
            } else {
                Ok(RemovalPlan::DeleteOutright)
            }
        },
    }
}

/// The disk-space preflight: backing up a file of `required` bytes needs at
/// least that much space available on the backup directory's filesystem.
pub fn check_disk_space(available: u64, required: u64) -> (r: Result<(), Message>)
    ensures
        available >= required ==> r is Ok,
        available < required ==> r == Err::<(), Message>(
            Message::InsufficientSpace { required, available },
        ),
{
    if available < required {
        Err(Message::InsufficientSpace { required, available })
    } else {
        Ok(())
    }
}

/// The character for one digit value, `0` through `f`.
pub open spec fn spec_digit(d: nat) -> char {
    if d == 0 {
        '0'
    } else if d == 1 {
        '1'
    } else if d == 2 {
        '2'
    } else if d == 3 {
        '3'
    } else if d == 4 {
        '4'
    } else if d == 5 {
        '5'
    } else if d == 6 {
        '6'
    } else if d == 7 {
        '7'
    } else if d == 8 {
        '8'
    } else if d == 9 {
        '9'
    } else if d == 10 {
        'a'
    } else if d == 11 {
        'b'
    } else if d == 12 {
        'c'
    } else if d == 13 {
        'd'
    } else if d == 14 {
        'e'
    } else {
        'f'
    }
}

/// The digit's character as a one-character string.
fn digit_str(d: u8) -> (r: &'static str)
    requires
        d < 16,
    ensures
        r@ == seq![spec_digit(d as nat)],
{
    match d {
        0 => {
            proof {
                reveal_strlit("0");
                assert("0"@ =~= seq!['0']);
            }
            "0"
        },
        1 => {
            proof {
                reveal_strlit("1");
                assert("1"@ =~= seq!['1']);
            }
            "1"
        },
        2 => {
            proof {
                reveal_strlit("2");
                assert("2"@ =~= seq!['2']);
            }
            "2"
        },
        3 => {
            proof {
                reveal_strlit("3");
                assert("3"@ =~= seq!['3']);
            }
            "3"
        },
        4 => {
            proof {
                reveal_strlit("4");
                assert("4"@ =~= seq!['4']);
            }
            "4"
        },
        5 => {
            proof {
                reveal_strlit("5");
                assert("5"@ =~= seq!['5']);
            }
            "5"
        },
        6 => {
            proof {
                reveal_strlit("6");
                assert("6"@ =~= seq!['6']);
            }
            "6"
        },
        7 => {
            proof {
                reveal_strlit("7");
                assert("7"@ =~= seq!['7']);
            }
            "7"
        },
        8 => {
            proof {
                reveal_strlit("8");
                assert("8"@ =~= seq!['8']);
            }
            "8"
        },
        9 => {
            proof {
                reveal_strlit("9");
                assert("9"@ =~= seq!['9']);
            }
            "9"
        },
        10 => {
            proof {
                reveal_strlit("a");
                assert("a"@ =~= seq!['a']);
            }
            "a"
        },
        11 => {
            proof {
                reveal_strlit("b");
                assert("b"@ =~= seq!['b']);
            }
            "b"
        },
        12 => {
            proof {
                reveal_strlit("c");
                assert("c"@ =~= seq!['c']);
            }
            "c"
        },
        13 => {
            proof {
                reveal_strlit("d");
                assert("d"@ =~= seq!['d']);
            }
            "d"
        },
        14 => {
            proof {
                reveal_strlit("e");
                assert("e"@ =~= seq!['e']);
            }
            "e"
        },
        _ => {
            proof {
                reveal_strlit("f");
                assert("f"@ =~= seq!['f']);
            }
            "f"
        },
    }
}

/// The decimal representation of a number, most significant digit first.
pub open spec fn spec_decimal(n: nat) -> Seq<char>
    decreases n,
{
    if n < 10 {
        seq![spec_digit(n)]
    } else {
        spec_decimal(n / 10) + seq![spec_digit(n % 10)]
    }
}

/// Render a number in decimal.
pub fn u64_to_decimal(n: u64) -> (r: String)
    ensures
        r@ == spec_decimal(n as nat),
    decreases n,
{
    if n < 10 {
        digit_str(n as u8).to_owned()
    } else {
        let mut r = u64_to_decimal(n / 10);
        r.append(digit_str((n % 10) as u8));
        r
    }
}

/// The lower-case hexadecimal representation of a byte string, two digits per
/// byte.
pub open spec fn spec_hex(bytes: Seq<u8>) -> Seq<char>
    decreases bytes.len(),
{
    if bytes.len() == 0 {
        Seq::empty()
    } else {
        spec_hex(bytes.drop_last()) + seq![
            spec_digit((bytes.last() / 16) as nat),
            spec_digit((bytes.last() % 16) as nat),
        ]
    }
}

/// Render a byte string in lower-case hexadecimal.
pub fn to_hex_lower(bytes: &Vec<u8>) -> (r: String)
    ensures
        r@ == spec_hex(bytes@),
{
    let mut r = String::new();
    let mut i: usize = 0;
    proof {
        assert(bytes@.take(0) =~= Seq::<u8>::empty());
    }
    while i < bytes.len()
        invariant
            i <= bytes.len(),
            r@ == spec_hex(bytes@.take(i as int)),
        decreases bytes.len() - i,
    {
        let b = bytes[i];
        r.append(digit_str(b / 16));
        r.append(digit_str(b % 16));
        proof {
            assert(bytes@.take(i + 1).drop_last() =~= bytes@.take(i as int));
            assert(bytes@.take(i + 1).last() == bytes@[i as int]);
            assert(r@ =~= spec_hex(bytes@.take(i + 1)));
        }
        i = i + 1;
    }
    proof {
        assert(bytes@.take(bytes@.len() as int) =~= bytes@);
    }
    r
}

/// The SHA-256 digest of a byte string. A function of the bytes alone; what
/// it is on given bytes is known only to the outside hasher.
pub uninterp spec fn sha256_of(data: Seq<u8>) -> Seq<u8>;

/// Relies on sha2::Sha256 (through the Digest trait): the 32-byte SHA-256
/// digest of the input, a function of the input bytes alone.
#[verifier::external_body]
fn sha256_digest(data: &Vec<u8>) -> (r: Vec<u8>)
    ensures
        r@ == sha256_of(data@),
        r@.len() == 32,
{
    sha2::Sha256::digest(data.as_slice()).to_vec()
}

proof fn lemma_hex_len(bytes: Seq<u8>)
    ensures
        spec_hex(bytes).len() == 2 * bytes.len(),
    decreases bytes.len(),
{
    if bytes.len() > 0 {
        lemma_hex_len(bytes.drop_last());
    }
}

/// The SHA-256 digest of the given content, as 64 lower-case hexadecimal
/// characters.
pub fn calculate_sha256(data: &Vec<u8>) -> (r: String)
    ensures
        r@ == spec_hex(sha256_of(data@)),
        r@.len() == 64,
{
    let digest = sha256_digest(data);
    proof {
        lemma_hex_len(digest@);
    }
    to_hex_lower(&digest)
}

/// The characters after the last separator (the whole string when it has
/// none).
pub open spec fn suffix_after_slash(s: Seq<char>) -> Seq<char>
    decreases s.len(),
{
    if s.len() == 0 {
        Seq::empty()
    } else if s.last() == '/' {
        Seq::empty()
    } else {
        suffix_after_slash(s.drop_last()).push(s.last())
    }
}

/// The character position where the final path component of `s`'s first `i`
/// characters begins.
fn file_name_start(s: &str, i: usize) -> (r: usize)
    requires
        i <= s@.len(),
    ensures
        r <= i,
        suffix_after_slash(s@.take(i as int)) =~= s@.subrange(r as int, i as int),
    decreases i,
{
    if i == 0 {
        return 0;
    }
    proof {
        assert(s@.take(i as int).drop_last() =~= s@.take(i - 1));
        assert(s@.take(i as int).last() == s@[i - 1]);
    }
    if s.get_char(i - 1) == '/' {
        i
    } else {
        let r = file_name_start(s, i - 1);
        proof {
            assert(s@.subrange(r as int, i - 1).push(s@[i - 1]) =~= s@.subrange(
                r as int,
                i as int,
            ));
        }
        r
    }
}

/// The prefix that remains once trailing separators, and trailing
/// current-directory components, are removed.
pub open spec fn strip_dot_slash_tail(s: Seq<char>) -> Seq<char>
    decreases s.len(),
{
    if s.len() > 0 && s.last() == '/' {
        strip_dot_slash_tail(s.drop_last())
    } else if s.len() > 0 && s.last() == '.' && (s.len() == 1 || s[s.len() - 2] == '/') {
        strip_dot_slash_tail(s.drop_last())
    } else {
        s
    }
}

/// The path's final component, as the platform's file-name rule gives it:
/// trailing separators and trailing current-directory components are ignored,
/// and a path that ends at the root or in a parent-directory component has
/// none.
pub open spec fn spec_file_name(p: Seq<char>) -> Option<Seq<char>> {
    let name = suffix_after_slash(strip_dot_slash_tail(p));
    if name.len() == 0 {
        None
    } else if name == seq!['.', '.'] {
        None
    } else {
        Some(name)
    }
}

/// The character position at which the trailing separators and
/// current-directory components of `s`'s first `i` characters begin.
fn tail_start(s: &str, i: usize) -> (r: usize)
    requires
        i <= s@.len(),
    ensures
        r <= i,
        strip_dot_slash_tail(s@.take(i as int)) == s@.take(r as int),
    decreases i,
{
    if i == 0 {
        proof {
            assert(s@.take(0) =~= Seq::<char>::empty());
        }
        return 0;
    }
    proof {
        assert(s@.take(i as int).drop_last() =~= s@.take(i - 1));
        assert(s@.take(i as int).last() == s@[i - 1]);
        if i >= 2 {
            assert(s@.take(i as int)[i - 2] == s@[i - 2]);
        }
    }
    let c = s.get_char(i - 1);
    if c == '/' {
        tail_start(s, i - 1)
    } else if c == '.' && (i == 1 || s.get_char(i - 2) == '/') {
        tail_start(s, i - 1)
    } else {
        i
    }
}

/// The backup file's name inside the backup directory: a timestamp prefix,
/// a separator, and the target's file name (or a fixed placeholder when the
/// target path has no file name).
pub open spec fn spec_backup_path(
    backup_root: Seq<char>,
    target: Seq<char>,
    timestamp: nat,
) -> Seq<char> {
    let base_name = match spec_file_name(target) {
        Some(name) => name,
        None => "target"@,
    };
    spec_path_join(backup_root, spec_decimal(timestamp) + "-"@ + base_name)
}

/// Where the displaced target is preserved: the backup directory joined with
/// a timestamp-disambiguated copy of the target's file name.
pub fn build_backup_path(backup_root: &str, target: &str, timestamp: u64) -> (r: String)
    ensures
        r@ == spec_backup_path(backup_root@, target@, timestamp as nat),
{
    let n = target.unicode_len();
    let tail = tail_start(target, n);
    let start = file_name_start(target, tail);
    let mut name = u64_to_decimal(timestamp);
    name.append("-");
    let ghost trimmed = strip_dot_slash_tail(target@);
    let ghost fname = suffix_after_slash(trimmed);
    proof {
        assert(target@.take(n as int) =~= target@);
        assert(trimmed == target@.take(tail as int));
        assert(fname =~= target@.subrange(start as int, tail as int));
    }
    let parent_component = tail - start == 2 && target.get_char(start) == '.' && target.get_char(
        start + 1,
    ) == '.';
    if start == tail || parent_component {
        name.append("target");
        proof {
            if start != tail {
                assert(fname =~= seq!['.', '.']);
            }
            assert(spec_file_name(target@) is None);
        }
    } else {
        name.append(target.substring_char(start, tail));
        proof {
            assert(fname.len() > 0);
            assert(fname != seq!['.', '.']) by {
                if fname == seq!['.', '.'] {
                    assert(fname[0] == '.' && fname[1] == '.' && fname.len() == 2);
                    assert(target@[start as int] == '.' && target@[start + 1] == '.');
                }
            }
            assert(spec_file_name(target@) == Some(fname));
        }
    }
    path_join(backup_root, name.as_str())
}

/// Where a displaced target was preserved, if anywhere.
#[derive(Debug, PartialEq)]
pub struct BackupOutcome {
    pub backup_path: Option<String>,
}

impl BackupOutcome {
    /// No backup was made: no directory is configured, or nothing occupied
    /// the target path.
    pub fn none() -> (r: BackupOutcome)
        ensures
            r.backup_path is None,
    {
        BackupOutcome { backup_path: None }
    }
}

/// The metadata file written beside a backup: its path and its contents.
#[derive(Debug, PartialEq)]
pub struct SidecarFile {
    pub path: String,
    pub content: String,
}

/// The sidecar's contents: plain key=value lines recording the hash
/// algorithm, the content hash, the byte size and the timestamp.
pub open spec fn spec_sidecar_content(
    hash: Seq<char>,
    size: nat,
    timestamp: Seq<char>,
) -> Seq<char> {
    "algorithm=sha256\nhash="@ + hash + "\nsize="@ + spec_decimal(size) + "\ntimestamp="@
        + timestamp + "\n"@
}

/// Describe the hash sidecar for a backup file: its path (the backup's path
/// with the sidecar suffix) and its key=value contents.
pub fn build_hash_sidecar(backup_path: &str, hash: &str, file_size: u64, timestamp: &str) -> (r:
    SidecarFile)
    ensures
        r.path@ == backup_path@ + ".sha256"@,
        r.content@ == spec_sidecar_content(hash@, file_size as nat, timestamp@),
{
    let mut path = backup_path.to_owned();
    path.append(".sha256");
    let mut content = "algorithm=sha256\nhash=".to_owned();
    content.append(hash);
    content.append("\nsize=");
    content.append(u64_to_decimal(file_size).as_str());
    content.append("\ntimestamp=");
    content.append(timestamp);
    content.append("\n");
    SidecarFile { path, content }
}

/// Complete a backup whose file now sits at `backup_path`: the outcome that
/// the replace action reports, and — exactly when the backup's content hash
/// could be computed — the sidecar to write beside it.
pub fn finalize_backup(
    backup_path: String,
    hash: Option<String>,
    file_size: u64,
    timestamp: &str,
) -> (r: (BackupOutcome, Option<SidecarFile>))
    ensures
        r.0.backup_path == Some(backup_path),
        hash matches Some(h) ==> r.1 matches Some(sc) && sc.path@ == backup_path@ + ".sha256"@
            && sc.content@ == spec_sidecar_content(h@, file_size as nat, timestamp@),
        hash is None ==> r.1 is None,
{
    let sidecar = match &hash {
        Some(h) => Some(build_hash_sidecar(backup_path.as_str(), h.as_str(), file_size, timestamp)),
        None => None,
    };
    (BackupOutcome { backup_path: Some(backup_path) }, sidecar)
}

/// One file seen in the backup directory: its path and its modification time.
#[derive(Debug, PartialEq)]
pub struct BackupEntry {
    pub path: String,
    pub mtime: u64,
}

/// Whether a path carries the backup extension: it ends in `.bak`, and that
/// suffix is a real extension (some file-name character precedes it).
pub open spec fn is_bak_path(p: Seq<char>) -> bool {
    p.len() >= 5 && p.skip(p.len() - 4) == ".bak"@ && p[p.len() - 5] != '/'
}

/// The entries that carry the backup extension, in their original order.
pub open spec fn bak_entries(s: Seq<BackupEntry>) -> Seq<BackupEntry>
    decreases s.len(),
{
    if s.len() == 0 {
        Seq::empty()
    } else if is_bak_path(s.last().path@) {
        bak_entries(s.drop_last()).push(s.last())
    } else {
        bak_entries(s.drop_last())
    }
}

/// Non-decreasing modification times.
pub open spec fn sorted_by_mtime(s: Seq<BackupEntry>) -> bool {
    forall|i: int, j: int| 0 <= i < j < s.len() ==> s[i].mtime <= s[j].mtime
}

/// Whether the path ends with the backup extension.
fn has_bak_extension(p: &str) -> (r: bool)
    ensures
        r == is_bak_path(p@),
{
    let n = p.unicode_len();
    if n < 5 {
        return false;
    }
    let r = p.get_char(n - 5) != '/' && p.get_char(n - 4) == '.' && p.get_char(n - 3) == 'b'
        && p.get_char(n - 2) == 'a' && p.get_char(n - 1) == 'k';
    proof {
        reveal_strlit(".bak");
        let s = p@.skip(n - 4);
        assert(s.len() == 4);
        assert(s[0] == p@[n - 4] && s[1] == p@[n - 3] && s[2] == p@[n - 2] && s[3] == p@[n - 1]);
        assert(".bak"@[0] == '.' && ".bak"@[1] == 'b' && ".bak"@[2] == 'a' && ".bak"@[3] == 'k');
        if r {
            assert(s =~= ".bak"@);
        }
    }
    r
}

/// Duplicate a backup-directory entry, preserving its value.
fn copy_backup_entry(e: &BackupEntry) -> (r: BackupEntry)
    ensures
        r == *e,
{
    BackupEntry { path: e.path.clone(), mtime: e.mtime }
}

/// Order the entries by modification time, oldest first.
fn sort_entries_by_mtime(input: Vec<BackupEntry>) -> (r: Vec<BackupEntry>)
    ensures
        r@.to_multiset() == input@.to_multiset(),
        sorted_by_mtime(r@),
{
    broadcast use vstd::seq_lib::group_to_multiset_ensures;

    let ghost orig = input@;
    let mut rest = input;
    let mut out: Vec<BackupEntry> = Vec::new();
    proof {
        assert(out@.to_multiset().add(rest@.to_multiset()) =~= orig.to_multiset());
    }
    while rest.len() > 0
        invariant
            out@.to_multiset().add(rest@.to_multiset()) == orig.to_multiset(),
            sorted_by_mtime(out@),
            forall|i: int, j: int|
                0 <= i < out@.len() && 0 <= j < rest@.len() ==> out@[i].mtime <= rest@[j].mtime,
        decreases rest.len(),
    {
        let mut min_idx: usize = 0;
        let mut k: usize = 1;
        while k < rest.len()
            invariant
                rest@.len() > 0,
                min_idx < rest@.len(),
                k <= rest@.len(),
                forall|j: int| 0 <= j < k ==> rest@[min_idx as int].mtime <= rest@[j].mtime,
            decreases rest.len() - k,
        {
            if rest[k].mtime < rest[min_idx].mtime {
                min_idx = k;
            }
            k = k + 1;
        }
        let ghost old_out = out@;
        let ghost old_rest = rest@;
        let e = rest.remove(min_idx);
        out.push(e);
        proof {
            broadcast use vstd::multiset::group_multiset_axioms;
            broadcast use vstd::seq_lib::group_to_multiset_ensures;

            assert(old_rest.contains(old_rest[min_idx as int]));
            assert(old_rest.to_multiset().count(old_rest[min_idx as int]) > 0);
            assert(out@ == old_out.push(e));
            assert(old_out.push(e).to_multiset() =~= old_out.to_multiset().insert(e));
            assert(rest@.to_multiset() == old_rest.remove(min_idx as int).to_multiset());
            assert(rest@.to_multiset() =~= old_rest.to_multiset().remove(e));
            assert(out@.to_multiset().add(rest@.to_multiset()) =~= old_out.to_multiset().add(
                old_rest.to_multiset(),
            ));
            assert forall|i: int, j: int|
                0 <= i < out@.len() && 0 <= j < rest@.len() implies out@[i].mtime
                <= rest@[j].mtime by {
                if j < min_idx {
                    assert(rest@[j] == old_rest[j]);
                } else {
                    assert(rest@[j] == old_rest[j + 1]);
                }
            }
        }
    }
    out
}

/// Retention planning: the backup-extension files that a retention pass must
/// delete (each together with its hash sidecar) to bring the backup directory
/// down to at most `max_versions` such files, oldest by modification time
/// first. The result is a prefix of some oldest-first ordering of those
/// files; nothing is deleted while the count is within the limit.
pub fn plan_backup_cleanup(entries: &Vec<BackupEntry>, max_versions: usize) -> (r: Vec<
    BackupEntry,
>)
    ensures
        ({
            let baks = bak_entries(entries@);
            &&& baks.len() <= max_versions ==> r@.len() == 0
            &&& baks.len() > max_versions ==> r@.len() == baks.len() - max_versions
            &&& exists|ordered: Seq<BackupEntry>|
                {
                    &&& ordered.to_multiset() == baks.to_multiset()
                    &&& sorted_by_mtime(ordered)
                    &&& r@ == ordered.take(r@.len() as int)
                }
        }),
{
    broadcast use vstd::seq_lib::group_to_multiset_ensures;

    let mut baks: Vec<BackupEntry> = Vec::new();
    let mut i: usize = 0;
    proof {
        assert(entries@.take(0) =~= Seq::<BackupEntry>::empty());
    }
    while i < entries.len()
        invariant
            i <= entries.len(),
            baks@ == bak_entries(entries@.take(i as int)),
        decreases entries.len() - i,
    {
        proof {
            assert(entries@.take(i + 1).drop_last() =~= entries@.take(i as int));
            assert(entries@.take(i + 1).last() == entries@[i as int]);
        }
        if has_bak_extension(entries[i].path.as_str()) {
            let e = copy_backup_entry(&entries[i]);
            baks.push(e);
        }
        i = i + 1;
    }
    proof {
        assert(entries@.take(entries@.len() as int) =~= entries@);
    }
    let ghost all_baks = baks@;
    let total = baks.len();
    let sorted = sort_entries_by_mtime(baks);
    proof {
        assert(sorted@.to_multiset().len() == sorted@.len());
        assert(all_baks.to_multiset().len() == all_baks.len());
    }
    let count = if total > max_versions {
        total - max_versions
    } else {
        0
    };
    let mut r: Vec<BackupEntry> = Vec::new();
    let mut j: usize = 0;
    proof {
        assert(r@ =~= sorted@.take(0));
    }
    while j < count
        invariant
            j <= count,
            count <= sorted@.len(),
            r@ == sorted@.take(j as int),
        decreases count - j,
    {
        let e = copy_backup_entry(&sorted[j]);
        r.push(e);
        proof {
            assert(sorted@.take(j + 1).drop_last() =~= sorted@.take(j as int));
            assert(sorted@.take(j + 1).last() == sorted@[j as int]);
            assert(r@ =~= sorted@.take(j + 1));
        }
        j = j + 1;
    }
    proof {
        let ghost baks_of_all = bak_entries(entries@);
        assert(r@ == sorted@.take(r@.len() as int));
        assert(exists|ordered: Seq<BackupEntry>|
            {
                &&& ordered.to_multiset() == baks_of_all.to_multiset()
                &&& sorted_by_mtime(ordered)
                &&& r@ == ordered.take(r@.len() as int)
            }) by {
            assert(sorted@.to_multiset() == baks_of_all.to_multiset() && sorted_by_mtime(sorted@)
                && r@ == sorted@.take(r@.len() as int));
        }
    }
    r
}

} // verus!
