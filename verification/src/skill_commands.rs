//! Skills the user writes: what a skill may be called.

use crate::text::{chars_of, verdict_view};
use vstd::prelude::*;
use vstd::utf8::encode_utf8;

verus! {

/// The longest name a skill can have, in bytes.
pub const MAX_SKILL_NAME_BYTES: usize = 64;

/// Whether the character may stand in a skill name: a lower-case ASCII
/// letter, a digit or a hyphen.
pub open spec fn is_skill_char(c: char) -> bool {
    ('a' <= c && c <= 'z') || ('0' <= c && c <= '9') || c == '-'
}

/// What is wrong with a skill name, if anything. The first fault found is
/// named: empty, too long, a character that is not allowed, a hyphen at
/// either end.
pub open spec fn skill_name_fault(name: Seq<char>) -> Option<Seq<char>> {
    if name.len() == 0 {
        Some("Skill name cannot be empty"@)
    } else if encode_utf8(name).len() > MAX_SKILL_NAME_BYTES {
        Some("Skill name too long (max 64 chars)"@)
    } else if exists|i: int| 0 <= i < name.len() && !is_skill_char(#[trigger] name[i]) {
        Some("Skill name may only contain lowercase letters, digits, and hyphens"@)
    } else if name[0] == '-' || name.last() == '-' {
        Some("Skill name cannot start or end with a hyphen"@)
    } else {
        None
    }
}

/// Accepts a skill name, or says what is wrong with it.
pub fn validate_skill_name(name: &str) -> (verdict: Result<(), String>)
    ensures
        verdict_view(verdict) == skill_name_fault(name@),
{
    let chars = chars_of(name);
    if chars.len() == 0 {
        return Err("Skill name cannot be empty".to_string());
    }
    if name.as_bytes().len() > MAX_SKILL_NAME_BYTES {
        return Err("Skill name too long (max 64 chars)".to_string());
    }
    let mut i: usize = 0;
    while i < chars.len()
        invariant
            i <= chars.len(),
            chars@ == name@,
            name@.len() > 0,
            encode_utf8(name@).len() <= MAX_SKILL_NAME_BYTES,
            forall|k: int| 0 <= k < i ==> is_skill_char(#[trigger] name@[k]),
        decreases chars.len() - i,
    {
        let c = chars[i];
        let allowed = ('a' <= c && c <= 'z') || ('0' <= c && c <= '9') || c == '-';
        if !allowed {
            assert(!is_skill_char(name@[i as int]));
            return Err(
                "Skill name may only contain lowercase letters, digits, and hyphens".to_string(),
            );
        }
        i += 1;
    }
    if chars[0] == '-' || chars[chars.len() - 1] == '-' {
        return Err("Skill name cannot start or end with a hyphen".to_string());
    }
    Ok(())
}

/// Where the user's skills are kept: `.cove/skills` below the home
/// directory.
pub open spec fn skills_dir_of(home: Seq<char>) -> Seq<char> {
    crate::paths::joined(home, ".cove/skills"@)
}

/// The view of a path or a complaint.
pub open spec fn dir_view(dir: Result<String, String>) -> Result<Seq<char>, Seq<char>> {
    match dir {
        Ok(d) => Ok(d@),
        Err(message) => Err(message@),
    }
}

/// Where the user's skills are kept, or the complaint that there is no home
/// directory.
pub fn cove_skills_dir(home: Option<&str>) -> (dir: Result<String, String>)
    ensures
        dir_view(dir) == (match home {
            Some(h) => Ok::<Seq<char>, Seq<char>>(skills_dir_of(h@)),
            None => Err("Cannot determine home directory"@),
        }),
{
    match home {
        Some(h) => Ok(crate::paths::join_path(h, ".cove/skills")),
        None => Err("Cannot determine home directory".to_string()),
    }
}

/// The directory of the skill `name`, for a name that is valid; else what is
/// wrong with the name.
pub fn skill_dir(skills_dir: &str, name: &str) -> (dir: Result<String, String>)
    ensures
        dir_view(dir) == (match skill_name_fault(name@) {
            Some(fault) => Err::<Seq<char>, Seq<char>>(fault),
            None => Ok(crate::paths::joined(skills_dir@, name@)),
        }),
{
    match validate_skill_name(name) {
        Err(fault) => Err(fault),
        Ok(_) => Ok(crate::paths::join_path(skills_dir, name)),
    }
}

/// Whether a skill's canonical directory lies in the canonical skills
/// directory; if not, the name was used to climb out of it.
pub fn check_skill_inside(canonical_base: &str, canonical: &str) -> (verdict: Result<(), String>)
    ensures
        verdict_view(verdict) == (if crate::paths::components(canonical_base@).is_prefix_of(
            crate::paths::components(canonical@),
        ) {
            None
        } else {
            Some("Path traversal detected"@)
        }),
{
    let base = crate::paths::path_components(&chars_of(canonical_base));
    let parts = crate::paths::path_components(&chars_of(canonical));
    if crate::paths::starts_with_parts(&parts, &base) {
        Ok(())
    } else {
        Err("Path traversal detected".to_string())
    }
}

} // verus!
