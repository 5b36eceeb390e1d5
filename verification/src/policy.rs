//! Which paths a keyboard update targets, and which path seeds the UI.
//!
//! Discovery happens outside the library and hands in an ordered list of
//! device paths as plain byte strings. This module decides, once at
//! startup, the fixed write policy: with one discovered path that path is
//! written; the write-all flag, or the absence of the primary-only flag,
//! selects every discovered path; only the primary-only flag alone narrows
//! writing to the primary path. The primary path itself is the first one
//! whose final component is the canonical keyboard backlight name, else the
//! first discovered path.

use vstd::prelude::*;

use crate::writer::copy_bytes;

verus! {

/// Whether an environment flag value enables its option: the variable is
/// set, non-empty and not the single digit zero.
pub open spec fn flag_enabled(v: Option<Seq<u8>>) -> bool {
    v matches Some(s) && s.len() > 0 && s != seq![48u8]
}

/// Whether the write-all flag forces writing every discovered keyboard
/// path. `v` is the flag variable's value, if the environment holds one.
pub fn should_write_all_keyboard_paths(v: &Option<Vec<u8>>) -> (r: bool)
    ensures
        r == flag_enabled(match v {
            Some(b) => Some(b@),
            None => None,
        }),
{
    match v {
        Some(b) => {
            let zero_only = b.len() == 1 && b[0] == 48;
            proof {
                if b@.len() == 1 && b@[0] == 48 {
                    assert(b@ =~= seq![48u8]);
                }
            }
            b.len() > 0 && !zero_only
        },
        None => false,
    }
}

/// Whether the primary-only flag narrows keyboard writes to the primary
/// path. Same flag convention as `should_write_all_keyboard_paths`.
pub fn should_write_primary_only_keyboard_path(v: &Option<Vec<u8>>) -> (r: bool)
    ensures
        r == flag_enabled(match v {
            Some(b) => Some(b@),
            None => None,
        }),
{
    should_write_all_keyboard_paths(v)
}

/// Whether the write policy selects every discovered path: always with at
/// most one path, and otherwise unless the primary-only flag stands alone.
pub open spec fn selects_all_paths(n_paths: nat, write_all: bool, primary_only: bool) -> bool {
    n_paths <= 1 || write_all || !primary_only
}

/// The paths one keyboard update writes, fixed at startup. Devices often
/// expose one entry per key or zone, where writing only the primary path
/// leaves the rest of the backlight unchanged, so the default with several
/// paths is to write them all; the primary-only flag, when the write-all
/// flag does not override it, narrows the writes to the primary path.
pub fn keyboard_write_paths(
    all_paths: &Vec<Vec<u8>>,
    primary_path: &Vec<u8>,
    write_all: bool,
    primary_only: bool,
) -> (r: Vec<Vec<u8>>)
    ensures
        selects_all_paths(all_paths@.len(), write_all, primary_only) ==> r@.len()
            == all_paths@.len() && (forall|i: int|
            0 <= i < r@.len() ==> (#[trigger] r@[i])@ == all_paths@[i]@),
        !selects_all_paths(all_paths@.len(), write_all, primary_only) ==> r@.len() == 1
            && r@[0]@ == primary_path@,
{
    if all_paths.len() <= 1 || write_all || !primary_only {
        let n = all_paths.len();
        let mut r: Vec<Vec<u8>> = Vec::new();
        let mut i: usize = 0;
        while i < n
            invariant
                i <= n == all_paths@.len(),
                r@.len() == i,
                forall|j: int| 0 <= j < i ==> (#[trigger] r@[j])@ == all_paths@[j]@,
            decreases n - i,
        {
            let p = copy_bytes(&all_paths[i]);
            r.push(p);
            i = i + 1;
        }
        r
    } else {
        let mut r: Vec<Vec<u8>> = Vec::new();
        r.push(copy_bytes(primary_path));
        r
    }
}

/// The canonical name of the keyboard backlight device node.
pub open spec fn canonical_kb_name() -> Seq<u8> {
    // the bytes of the name `rgb:kbd_backlight`
    seq![114u8, 103u8, 98u8, 58u8, 107u8, 98u8, 100u8, 95u8, 98u8, 97u8, 99u8, 107u8, 108u8, 105u8, 103u8, 104u8, 116u8]
}

/// Where the final path component starts: the position right after the
/// last separator before `i`, or zero when no separator stands there.
pub open spec fn name_start(s: Seq<u8>, i: int) -> int
    decreases i,
{
    if i <= 0 {
        0
    } else if s[i - 1] == 47 {
        i
    } else {
        name_start(s, i - 1)
    }
}

/// The final component of a path: the bytes after its last separator.
pub open spec fn file_name_of(s: Seq<u8>) -> Seq<u8> {
    s.subrange(name_start(s, s.len() as int), s.len() as int)
}

/// Whether a path's final component is the canonical keyboard name.
pub open spec fn is_canonical_path(s: Seq<u8>) -> bool {
    file_name_of(s) == canonical_kb_name()
}

proof fn lemma_name_start_bounds(s: Seq<u8>, i: int)
    requires
        0 <= i <= s.len(),
    ensures
        0 <= name_start(s, i) <= i,
    decreases i,
{
    if i > 0 && s[i - 1] != 47 {
        lemma_name_start_bounds(s, i - 1);
    }
}

/// Whether the final component of `p` is exactly `name`.
fn file_name_matches(p: &Vec<u8>, name: &Vec<u8>) -> (r: bool)
    ensures
        r == (file_name_of(p@) == name@),
{
    let n = p.len();
    let mut j = n;
    while j > 0 && p[j - 1] != 47
        invariant
            j <= n == p@.len(),
            name_start(p@, n as int) == name_start(p@, j as int),
        decreases j,
    {
        j = j - 1;
    }
    proof {
        lemma_name_start_bounds(p@, n as int);
        assert(name_start(p@, j as int) == j);
    }
    if n - j != name.len() {
        proof {
            assert(file_name_of(p@).len() == n - j);
        }
        return false;
    }
    let m = name.len();
    let mut k: usize = 0;
    while k < m
        invariant
            k <= m == name@.len(),
            j + m == n == p@.len(),
            j == name_start(p@, n as int),
            forall|t: int| 0 <= t < k ==> p@[j + t] == name@[t],
        decreases m - k,
    {
        if p[j + k] != name[k] {
            proof {
                assert(file_name_of(p@)[k as int] == p@[j + k]);
            }
            return false;
        }
        k = k + 1;
    }
    proof {
        assert(file_name_of(p@) =~= name@);
    }
    true
}

/// The primary path of a target set: the first path whose final component
/// is the canonical keyboard name, else the first discovered path; nothing
/// when discovery found nothing. Initial-state reads use this path.
pub fn pick_primary(paths: &Vec<Vec<u8>>) -> (r: Option<Vec<u8>>)
    ensures
        r is None <==> paths@.len() == 0,
        r matches Some(p) ==> (if (exists|i: int|
            0 <= i < paths@.len() && is_canonical_path((#[trigger] paths@[i])@)) {
            exists|i: int|
                0 <= i < paths@.len() && is_canonical_path((#[trigger] paths@[i])@) && p@
                    == paths@[i]@ && (forall|j: int|
                    0 <= j < i ==> !is_canonical_path((#[trigger] paths@[j])@))
        } else {
            p@ == paths@[0]@
        }),
{
    if paths.len() == 0 {
        return None;
    }
    let canonical = canonical_kb_name_bytes();
    let n = paths.len();
    let mut i: usize = 0;
    while i < n
        invariant
            i <= n == paths@.len(),
            canonical@ == canonical_kb_name(),
            forall|j: int| 0 <= j < i ==> !is_canonical_path((#[trigger] paths@[j])@),
        decreases n - i,
    {
        if file_name_matches(&paths[i], &canonical) {
            return Some(copy_bytes(&paths[i]));
        }
        i = i + 1;
    }
    Some(copy_bytes(&paths[0]))
}

/// The canonical keyboard backlight name as bytes.
fn canonical_kb_name_bytes() -> (r: Vec<u8>)
    ensures
        r@ == canonical_kb_name(),
{
    let mut r: Vec<u8> = Vec::new();
    r.push(114);
    r.push(103);
    r.push(98);
    r.push(58);
    r.push(107);
    r.push(98);
    r.push(100);
    r.push(95);
    r.push(98);
    r.push(97);
    r.push(99);
    r.push(107);
    r.push(108);
    r.push(105);
    r.push(103);
    r.push(104);
    r.push(116);
    assert(r@ =~= canonical_kb_name());
    r
}

/// The full path of one attribute file: the device path, a separator, and
/// the attribute leaf name.
pub open spec fn spec_attr_path(dir: Seq<u8>, leaf: Seq<u8>) -> Seq<u8> {
    dir + seq![47u8] + leaf
}

/// Join a device path with an attribute leaf name.
pub fn attr_path(dir: &Vec<u8>, leaf: &Vec<u8>) -> (r: Vec<u8>)
    ensures
        r@ == spec_attr_path(dir@, leaf@),
{
    let mut r = copy_bytes(dir);
    r.push(47);
    let mut l = copy_bytes(leaf);
    r.append(&mut l);
    assert(r@ =~= spec_attr_path(dir@, leaf@));
    r
}

} // verus!
