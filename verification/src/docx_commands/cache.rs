//! The cache of converted documents: a document's name in the cache is the
//! hash of its bytes.

use crate::order::{in_order, key_views, stable_order};
use crate::text::{string_of, views};
use vstd::prelude::*;

verus! {

/// The most files the cache holds.
pub const MAX_CACHE_FILES: usize = 50;

/// The hash of the empty input.
pub const FNV_OFFSET: u64 = 14_695_981_039_346_656_037;

/// The multiplier of the hash.
pub const FNV_PRIME: u64 = 1_099_511_628_211;

/// The 64-bit FNV-1a hash: from the offset, each byte in turn is mixed in by
/// exclusive or, and the sum is multiplied by the prime, modulo 2^64.
pub open spec fn fnv1a_hash(data: Seq<u8>) -> u64
    decreases data.len(),
{
    if data.len() == 0 {
        FNV_OFFSET
    } else {
        (((fnv1a_hash(data.drop_last()) ^ (data.last() as u64)) as int * FNV_PRIME as int)
            % 0x1_0000_0000_0000_0000) as u64
    }
}

/// The character of a hexadecimal digit, in lower case.
pub open spec fn hex_char(d: u64) -> char
    recommends
        d < 16,
{
    if d < 10 {
        (('0' as u8) + (d as u8)) as char
    } else {
        (('a' as u8) + ((d - 10) as u8)) as char
    }
}

/// The number as 16 hexadecimal digits, the highest first.
pub open spec fn hex16(h: u64) -> Seq<char> {
    Seq::new(16, |i: int| hex_char((h >> ((60 - 4 * i) as u64)) & 0xf))
}

/// The number as 16 hexadecimal digits.
pub fn hex16_chars(h: u64) -> (out: Vec<char>)
    ensures
        out@ == hex16(h),
{
    let mut out: Vec<char> = Vec::new();
    let mut i: u64 = 0;
    while i < 16
        invariant
            i <= 16,
            out.len() == i,
            forall|k: int| 0 <= k < i ==> out@[k] == hex16(h)[k],
        decreases 16 - i,
    {
        let shift: u64 = 60 - 4 * i;
        let d: u64 = (h >> shift) & 0xf;
        assert(d < 16) by (bit_vector)
            requires
                d == (h >> shift) & 0xf,
        ;
        let c: char = if d < 10 {
            (48u8 + (d as u8)) as char
        } else {
            (97u8 + ((d - 10) as u8)) as char
        };
        assert(c == hex_char(d));
        out.push(c);
        i += 1;
    }
    assert(out@ =~= hex16(h));
    out
}

/// The name of a document in the cache: the FNV-1a hash of its bytes, as 16
/// hexadecimal digits.
pub fn fnv1a(data: &[u8]) -> (name: String)
    ensures
        name@ == hex16(fnv1a_hash(data@)),
{
    let mut h: u64 = FNV_OFFSET;
    let mut i: usize = 0;
    while i < data.len()
        invariant
            i <= data.len(),
            h == fnv1a_hash(data@.take(i as int)),
        decreases data.len() - i,
    {
        proof {
            assert(data@.take(i + 1).drop_last() == data@.take(i as int));
        }
        h = h ^ (data[i] as u64);
        h = h.wrapping_mul(FNV_PRIME);
        i += 1;
    }
    assert(data@.take(data.len() as int) == data@);
    string_of(&hex16_chars(h))
}

/// How many of the cache's files are given up before one more is added: none
/// below the limit, else as many as leave room for one.
pub open spec fn eviction_count(files: nat) -> nat {
    if files < MAX_CACHE_FILES {
        0
    } else {
        (files - MAX_CACHE_FILES + 1) as nat
    }
}

/// How many of the oldest files to remove from a cache of `files` files.
pub fn files_to_evict(files: usize) -> (count: usize)
    ensures
        count == eviction_count(files as nat),
        count <= files,
{
    if files < MAX_CACHE_FILES {
        0
    } else {
        files - MAX_CACHE_FILES + 1
    }
}

/// A file of the cache: its path, and when it was last changed, in seconds
/// and nanoseconds.
#[derive(Debug)]
pub struct CachedFile {
    pub path: String,
    pub modified_secs: u64,
    pub modified_nanos: u32,
}

/// The key by which cached files are given up: the time of the last change.
pub open spec fn age_key(f: CachedFile) -> Seq<u64> {
    seq![f.modified_secs, f.modified_nanos as u64]
}

/// The keys of the files, in order.
pub open spec fn age_keys(files: Seq<CachedFile>) -> Seq<Seq<u64>> {
    files.map_values(|f: CachedFile| age_key(f))
}

/// The files to remove before one more is added to the cache: none while the
/// cache is below its limit, else the oldest, as many as leave room for one.
/// Of files that are equally old, those that come first in `files` go first.
pub fn evict_lru(files: &Vec<CachedFile>) -> (gone: Vec<String>)
    ensures
        gone.len() == eviction_count(files.len() as nat),
        exists|order: Seq<usize>|
            {
                &&& #[trigger] in_order(age_keys(files@), order)
                &&& forall|i: int| 0 <= i < gone.len() ==> (#[trigger] gone@[i])@ == files@[order[i] as int].path@
            },
{
    let count = files_to_evict(files.len());
    let mut keys: Vec<Vec<u64>> = Vec::new();
    let mut i: usize = 0;
    while i < files.len()
        invariant
            i <= files.len(),
            keys.len() == i,
            forall|k: int| 0 <= k < i ==> (#[trigger] keys@[k])@ == age_key(files@[k]),
        decreases files.len() - i,
    {
        let mut key: Vec<u64> = Vec::new();
        key.push(files[i].modified_secs);
        key.push(files[i].modified_nanos as u64);
        assert(key@ =~= age_key(files@[i as int]));
        keys.push(key);
        i += 1;
    }
    assert(key_views(keys@) =~= age_keys(files@));
    let order = stable_order(&keys);
    let mut gone: Vec<String> = Vec::new();
    let mut k: usize = 0;
    while k < count
        invariant
            k <= count <= files.len(),
            gone.len() == k,
            order.len() == files.len(),
            forall|j: int| 0 <= j < order.len() ==> #[trigger] order@[j] < files.len(),
            forall|j: int| 0 <= j < k ==> (#[trigger] gone@[j])@ == files@[order@[j] as int].path@,
        decreases count - k,
    {
        gone.push(files[order[k]].path.clone());
        k += 1;
    }
    gone
}

/// Where an application would be installed: among the user's applications,
/// and among the system's.
pub open spec fn app_places(app: Seq<char>) -> (Seq<char>, Seq<char>) {
    ("/Applications/"@ + app + ".app"@, "/System/Applications/"@ + app + ".app"@)
}

/// Whether the application is installed: one of its places is among
/// `existing`.
pub open spec fn app_installed(app: Seq<char>, existing: Seq<Seq<char>>) -> bool {
    existing.contains(app_places(app).0) || existing.contains(app_places(app).1)
}

/// The places where the application would be installed.
pub fn app_locations(app: &str) -> (places: (String, String))
    ensures
        (places.0@, places.1@) == app_places(app@),
{
    let mut user = "/Applications/".to_string();
    user.append(app);
    user.append(".app");
    let mut system = "/System/Applications/".to_string();
    system.append(app);
    system.append(".app");
    (user, system)
}

/// The first of the candidates that is installed, going by `existing`, the
/// places that were found on disk.
pub fn find_office_app(candidates: &Vec<&'static str>, existing: &Vec<String>) -> (found: Option<
    &'static str,
>)
    ensures
        match found {
            Some(app) => exists|i: int|
                0 <= i < candidates.len() && #[trigger] candidates@[i] == app && app_installed(
                    app@,
                    views(existing@),
                ) && forall|k: int|
                    0 <= k < i ==> !app_installed((#[trigger] candidates@[k])@, views(existing@)),
            None => forall|k: int|
                0 <= k < candidates.len() ==> !app_installed(
                    (#[trigger] candidates@[k])@,
                    views(existing@),
                ),
        },
{
    let mut i: usize = 0;
    while i < candidates.len()
        invariant
            i <= candidates.len(),
            forall|k: int|
                0 <= k < i ==> !app_installed((#[trigger] candidates@[k])@, views(existing@)),
        decreases candidates.len() - i,
    {
        let (user, system) = app_locations(candidates[i]);
        if crate::text::contains_text(existing, user.as_str()) || crate::text::contains_text(
            existing,
            system.as_str(),
        ) {
            return Some(candidates[i]);
        }
        i += 1;
    }
    None
}

} // verus!
