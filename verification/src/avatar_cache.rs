//! File naming and entry validation of the on-disk avatar cache. Names are
//! hashes, so no target or picture id can escape the cache directory.
use vstd::prelude::*;
use vstd::string::StringSliceAdditionalSpecFns;

verus! {

/// The largest picture kept on disk, in bytes.
pub const MAX_PERSISTED_BYTES: usize = 524288;

/// The longest picture id kept on disk, in bytes.
pub const MAX_PICTURE_ID_BYTES: usize = 1024;

/// The FNV-1a offset basis and prime for 64-bit hashes.
pub const FNV_OFFSET: u64 = 0xcbf29ce484222325;

pub const FNV_PRIME: u64 = 0x100000001b3;

/// The 64-bit FNV-1a hash of `bytes`.
pub open spec fn fnv1a(bytes: Seq<u8>) -> u64
    decreases bytes.len(),
{
    if bytes.len() == 0 {
        FNV_OFFSET
    } else {
        (fnv1a(bytes.drop_last()) ^ (bytes.last() as u64)).wrapping_mul(FNV_PRIME)
    }
}

/// The lowercase hexadecimal digit of a value below 16.
pub open spec fn hex_char(d: u64) -> char {
    if d < 10 {
        ((d as u32) + 48) as char
    } else {
        ((d as u32) + 87) as char
    }
}

/// The nibble of `h` at position `i`, most significant first.
pub open spec fn nibble(h: u64, i: int) -> u64 {
    (h >> ((60 - 4 * i) as u64)) & 0xf
}

/// `h` as sixteen lowercase hexadecimal digits, zero-padded.
pub open spec fn hex16(h: u64) -> Seq<char> {
    Seq::new(16, |i: int| hex_char(nibble(h, i)))
}

fn digit_text(d: u64) -> (t: &'static str)
    requires
        d < 16,
    ensures
        t@ == seq![hex_char(d)],
{
    proof {
        reveal_strlit("0");
        reveal_strlit("1");
        reveal_strlit("2");
        reveal_strlit("3");
        reveal_strlit("4");
        reveal_strlit("5");
        reveal_strlit("6");
        reveal_strlit("7");
        reveal_strlit("8");
        reveal_strlit("9");
        reveal_strlit("a");
        reveal_strlit("b");
        reveal_strlit("c");
        reveal_strlit("d");
        reveal_strlit("e");
        reveal_strlit("f");
    }
    let t = if d == 0 {
        "0"
    } else if d == 1 {
        "1"
    } else if d == 2 {
        "2"
    } else if d == 3 {
        "3"
    } else if d == 4 {
        "4"
    } else if d == 5 {
        "5"
    } else if d == 6 {
        "6"
    } else if d == 7 {
        "7"
    } else if d == 8 {
        "8"
    } else if d == 9 {
        "9"
    } else if d == 10 {
        "a"
    } else if d == 11 {
        "b"
    } else if d == 12 {
        "c"
    } else if d == 13 {
        "d"
    } else if d == 14 {
        "e"
    } else {
        "f"
    };
    assert(t@ =~= seq![hex_char(d)]);
    t
}

fn fnv1a_bytes(bytes: &[u8]) -> (h: u64)
    ensures
        h == fnv1a(bytes@),
{
    let mut hash: u64 = FNV_OFFSET;
    let mut i: usize = 0;
    assert(bytes@.subrange(0, 0) =~= Seq::<u8>::empty());
    while i < bytes.len()
        invariant
            0 <= i <= bytes.len(),
            hash == fnv1a(bytes@.subrange(0, i as int)),
        decreases bytes.len() - i,
    {
        assert(bytes@.subrange(0, i + 1).drop_last() =~= bytes@.subrange(0, i as int));
        hash = (hash ^ (bytes[i] as u64)).wrapping_mul(FNV_PRIME);
        i += 1;
    }
    assert(bytes@.subrange(0, bytes.len() as int) =~= bytes@);
    hash
}

fn hex_text(h: u64) -> (s: String)
    ensures
        s@ == hex16(h),
{
    let mut s = String::new();
    let mut i: u64 = 0;
    while i < 16
        invariant
            0 <= i <= 16,
            s@ == hex16(h).subrange(0, i as int),
        decreases 16 - i,
    {
        let shift: u64 = 60 - 4 * i;
        let d = (h >> shift) & 0xf;
        assert(d < 16) by (bit_vector)
            requires
                d == (h >> shift) & 0xf,
        ;
        assert(d == nibble(h, i as int));
        s.append(digit_text(d));
        assert(s@ =~= hex16(h).subrange(0, i + 1));
        i += 1;
    }
    assert(hex16(h).subrange(0, 16) =~= hex16(h));
    s
}

/// The name of `value` in the cache: its FNV-1a hash as sixteen hex digits.
pub open spec fn safe_key_spec(value: &str) -> Seq<char> {
    hex16(fnv1a(value.spec_bytes()))
}

/// Hashes a target or picture id into a file name part made only of hex
/// digits.
pub fn safe_key(value: &str) -> (k: String)
    ensures
        k@ == safe_key_spec(value),
        k@.len() == 16,
{
    hex_text(fnv1a_bytes(value.as_bytes()))
}

/// The file holding a picture of a target.
pub open spec fn picture_file_name_spec(target: &str, picture_id: &str) -> Seq<char> {
    safe_key_spec(target) + "-"@ + safe_key_spec(picture_id) + ".image"@
}

/// The file naming a target's current picture id.
pub open spec fn current_file_name_spec(target: &str) -> Seq<char> {
    safe_key_spec(target) + ".current"@
}

/// The file name of a target's picture: both parts hashed, so the name
/// never holds a path separator.
pub fn picture_file_name(target: &str, picture_id: &str) -> (name: String)
    ensures
        name@ == picture_file_name_spec(target, picture_id),
{
    proof {
        reveal_strlit("-");
        reveal_strlit(".image");
    }
    let mut name = safe_key(target);
    name.append("-");
    name.append(safe_key(picture_id).as_str());
    name.append(".image");
    name
}

/// The file name that records which picture of a target is current.
pub fn current_file_name(target: &str) -> (name: String)
    ensures
        name@ == current_file_name_spec(target),
{
    proof {
        reveal_strlit(".current");
    }
    let mut name = safe_key(target);
    name.append(".current");
    name
}

/// A cache file name made of hex digits, '-' and '.' holds no '/'.
pub proof fn lemma_file_names_stay_in_directory(target: &str, picture_id: &str)
    ensures
        !picture_file_name_spec(target, picture_id).contains('/'),
        !current_file_name_spec(target).contains('/'),
{
    reveal_strlit("-");
    reveal_strlit(".image");
    reveal_strlit(".current");
    let a = safe_key_spec(target);
    let b = safe_key_spec(picture_id);
    assert forall|i: int| 0 <= i < 16 implies a[i] != '/' && b[i] != '/' by {
        let h1 = fnv1a(target.spec_bytes());
        let h2 = fnv1a(picture_id.spec_bytes());
        let sh: u64 = (60 - 4 * i) as u64;
        let x = nibble(h1, i);
        let y = nibble(h2, i);
        assert(x < 16 && y < 16) by (bit_vector)
            requires
                x == (h1 >> sh) & 0xf,
                y == (h2 >> sh) & 0xf,
        ;
    }
    let p = picture_file_name_spec(target, picture_id);
    assert forall|i: int| 0 <= i < p.len() implies p[i] != '/' by {
        if i < 16 {
            assert(p[i] == a[i]);
        } else if i == 16 {
        } else if i < 33 {
            assert(p[i] == b[i - 17]);
        } else {
        }
    }
    let c = current_file_name_spec(target);
    assert forall|i: int| 0 <= i < c.len() implies c[i] != '/' by {
        if i < 16 {
            assert(c[i] == a[i]);
        }
    }
}

/// A picture and its id may be stored: the picture is not empty and not
/// larger than the limit, and the id is not longer than its limit.
pub fn valid_store_entry(picture_bytes: usize, picture_id_bytes: usize) -> (ok: bool)
    ensures
        ok == (picture_bytes > 0 && picture_bytes <= MAX_PERSISTED_BYTES && picture_id_bytes
            <= MAX_PICTURE_ID_BYTES),
{
    !(picture_bytes == 0 || picture_bytes > MAX_PERSISTED_BYTES || picture_id_bytes
        > MAX_PICTURE_ID_BYTES)
}

/// A recorded current picture id is used when it is not empty and not
/// longer than the limit.
pub fn valid_current_id(id_bytes: usize) -> (ok: bool)
    ensures
        ok == (id_bytes > 0 && id_bytes <= MAX_PICTURE_ID_BYTES),
{
    id_bytes <= MAX_PICTURE_ID_BYTES && id_bytes != 0
}

/// A picture read from disk is used when it is not empty and not larger
/// than the limit.
pub fn valid_loaded_picture(picture_bytes: usize) -> (ok: bool)
    ensures
        ok == (picture_bytes > 0 && picture_bytes <= MAX_PERSISTED_BYTES),
{
    !(picture_bytes == 0 || picture_bytes > MAX_PERSISTED_BYTES)
}

/// The path `std::path::Path::join` gives for a directory and a file name.
pub uninterp spec fn joined_path(root: Seq<char>, name: Seq<char>) -> Seq<char>;

/// Calls `Path::join` on a directory and a file name given as text; the
/// result is named by `joined_path` and nothing more is claimed of it.
#[verifier::external_body]
fn join_path(root: &str, name: &str) -> (r: String)
    ensures
        r@ == joined_path(root@, name@),
{
    std::path::Path::new(root).join(name).to_string_lossy().into_owned()
}

/// The on-disk avatar cache: one directory with a picture file per target
/// and picture, and a file per target naming its current picture.
#[derive(Debug)]
pub struct AvatarDiskCache {
    root: String,
}

impl AvatarDiskCache {
    /// A cache in the directory `root`, which the caller has created.
    pub fn with_root(root: String) -> (c: AvatarDiskCache)
        ensures
            c.root_spec() == root@,
    {
        AvatarDiskCache { root }
    }

    /// The cache directory.
    pub closed spec fn root_spec(&self) -> Seq<char> {
        self.root@
    }

    /// The cache directory.
    pub fn root(&self) -> (r: &str)
        ensures
            r@ == self.root_spec(),
    {
        self.root.as_str()
    }

    /// The file of a target's picture.
    pub fn picture_path(&self, target: &str, picture_id: &str) -> (p: String)
        ensures
            p@ == joined_path(self.root_spec(), picture_file_name_spec(target, picture_id)),
    {
        let name = picture_file_name(target, picture_id);
        join_path(self.root.as_str(), name.as_str())
    }

    /// The file naming a target's current picture.
    pub fn current_path(&self, target: &str) -> (p: String)
        ensures
            p@ == joined_path(self.root_spec(), current_file_name_spec(target)),
    {
        let name = current_file_name(target);
        join_path(self.root.as_str(), name.as_str())
    }
}

} // verus!
