//! Path-name rules for source discovery, over the path's UTF-8 bytes.

use vstd::prelude::*;
use crate::text::str_eq;
use vstd::string::StringSliceAdditionalSpecFns;

verus! {

/// Byte of the path separator `/`.
pub const SLASH: u8 = 47;

/// Byte of `.`.
pub const DOT: u8 = 46;

/// Directory names that discovery never descends into.
pub const EXCLUDED_DIRS: [&'static str; 10] = [
    "node_modules",
    ".git",
    "dist",
    "build",
    ".next",
    "coverage",
    "__pycache__",
    ".svn",
    ".hg",
    "vendor",
];

/// Index of the last occurrence of `c` in `s`, if any.
pub open spec fn last_index_of(s: Seq<u8>, c: u8) -> Option<int>
    decreases s.len(),
{
    if s.len() == 0 {
        None
    } else if s.last() == c {
        Some(s.len() - 1)
    } else {
        last_index_of(s.drop_last(), c)
    }
}

/// The final component of a path: what follows its last `/`.
pub open spec fn file_name_of(p: Seq<u8>) -> Seq<u8> {
    match last_index_of(p, SLASH) {
        Some(i) => p.subrange(i + 1, p.len() as int),
        None => p,
    }
}

/// The extension of a path: what follows the last `.` of its file name,
/// where that dot is not the name's first byte.
pub open spec fn extension_of(p: Seq<u8>) -> Option<Seq<u8>> {
    let n = file_name_of(p);
    match last_index_of(n, DOT) {
        Some(d) => if d > 0 {
            Some(n.subrange(d + 1, n.len() as int))
        } else {
            None
        },
        None => None,
    }
}

/// `s` ends with `suffix`.
pub open spec fn bytes_end_with(s: Seq<u8>, suffix: Seq<u8>) -> bool {
    suffix.len() <= s.len() && s.subrange(s.len() - suffix.len(), s.len() as int) == suffix
}

/// The analysed extensions: `ts`, `tsx`, `js`, `jsx`.
pub open spec fn is_target_ext_spec(e: Seq<u8>) -> bool {
    e == "ts".spec_bytes() || e == "tsx".spec_bytes() || e == "js".spec_bytes() || e
        == "jsx".spec_bytes()
}

proof fn lemma_last_index_found(s: Seq<u8>, c: u8, i: int)
    requires
        0 <= i < s.len(),
        s[i] == c,
        forall|j: int| i < j < s.len() ==> s[j] != c,
    ensures
        last_index_of(s, c) == Some(i),
    decreases s.len(),
{
    if s.len() - 1 != i {
        lemma_last_index_found(s.drop_last(), c, i);
    }
}

proof fn lemma_last_index_absent(s: Seq<u8>, c: u8)
    requires
        forall|j: int| 0 <= j < s.len() ==> s[j] != c,
    ensures
        last_index_of(s, c) == None::<int>,
    decreases s.len(),
{
    if s.len() > 0 {
        lemma_last_index_absent(s.drop_last(), c);
    }
}

/// Position of the last byte equal to `c`.
pub fn find_last(s: &[u8], c: u8) -> (r: Option<usize>)
    ensures
        match r {
            Some(i) => i < s@.len() && last_index_of(s@, c) == Some(i as int),
            None => last_index_of(s@, c) == None::<int>,
        },
{
    let mut i: usize = s.len();
    while i > 0
        invariant
            i <= s@.len(),
            forall|j: int| i <= j < s@.len() ==> s@[j] != c,
        decreases i,
    {
        if s[i - 1] == c {
            proof {
                lemma_last_index_found(s@, c, i - 1);
            }
            return Some(i - 1);
        }
        i = i - 1;
    }
    proof {
        lemma_last_index_absent(s@, c);
    }
    None
}

/// Copies `s[lo..]` into a new vector.
fn tail_from(s: &[u8], lo: usize) -> (r: Vec<u8>)
    requires
        lo <= s@.len(),
    ensures
        r@ == s@.subrange(lo as int, s@.len() as int),
{
    let mut r: Vec<u8> = Vec::new();
    let mut i: usize = lo;
    while i < s.len()
        invariant
            lo <= i <= s@.len(),
            r@ == s@.subrange(lo as int, i as int),
        decreases s@.len() - i,
    {
        r.push(s[i]);
        i = i + 1;
        assert(r@ =~= s@.subrange(lo as int, i as int));
    }
    r
}

/// The file name of a path, as bytes.
pub fn file_name_bytes(path: &str) -> (r: Vec<u8>)
    ensures
        r@ == file_name_of(path.spec_bytes()),
{
    let b = path.as_bytes();
    let n = b.len();
    match find_last(b, SLASH) {
        Some(i) => {
            assert(i < n);
            tail_from(b, i + 1)
        },
        None => {
            let r = tail_from(b, 0);
            assert(r@ =~= b@);
            r
        },
    }
}

/// Whether `s` equals the bytes of `lit`.
fn bytes_eq_lit(s: &[u8], lit: &str) -> (r: bool)
    ensures
        r == (s@ == lit.spec_bytes()),
{
    let l = lit.as_bytes();
    if s.len() != l.len() {
        return false;
    }
    let mut i: usize = 0;
    while i < s.len()
        invariant
            i <= s@.len(),
            s@.len() == l@.len(),
            l@ == lit.spec_bytes(),
            forall|j: int| 0 <= j < i ==> s@[j] == l@[j],
        decreases s@.len() - i,
    {
        if s[i] != l[i] {
            return false;
        }
        i = i + 1;
    }
    assert(s@ =~= l@);
    true
}

/// Whether `s` ends with the bytes of `lit`.
fn bytes_end_with_lit(s: &[u8], lit: &str) -> (r: bool)
    ensures
        r == bytes_end_with(s@, lit.spec_bytes()),
{
    let l = lit.as_bytes();
    if l.len() > s.len() {
        return false;
    }
    let off = s.len() - l.len();
    let mut i: usize = 0;
    while i < l.len()
        invariant
            i <= l@.len(),
            off + l@.len() == s@.len(),
            s@.len() == s.len(),
            l@.len() == l.len(),
            l@ == lit.spec_bytes(),
            forall|j: int| 0 <= j < i ==> s@[off + j] == l@[j],
        decreases l@.len() - i,
    {
        if s[off + i] != l[i] {
            assert(s@.subrange(off as int, s@.len() as int)[i as int] != l@[i as int]);
            return false;
        }
        i = i + 1;
    }
    assert(s@.subrange(off as int, s@.len() as int) =~= l@);
    true
}

/// The extension of a path, as bytes.
pub fn extension_bytes(path: &str) -> (r: Option<Vec<u8>>)
    ensures
        match r {
            Some(e) => extension_of(path.spec_bytes()) == Some(e@),
            None => extension_of(path.spec_bytes()) == None::<Seq<u8>>,
        },
{
    let name = file_name_bytes(path);
    let n = name.len();
    match find_last(name.as_slice(), DOT) {
        Some(d) => {
            if d > 0 {
                assert(d < n);
                Some(tail_from(name.as_slice(), d + 1))
            } else {
                None
            }
        },
        None => None,
    }
}

/// Whether the path names a TypeScript or JavaScript source (`.ts`, `.tsx`,
/// `.js`, `.jsx`).
pub fn is_target_extension(path: &str) -> (r: bool)
    ensures
        r == (extension_of(path.spec_bytes()) is Some && is_target_ext_spec(
            extension_of(path.spec_bytes())->0,
        )),
{
    match extension_bytes(path) {
        Some(e) => {
            let s = e.as_slice();
            bytes_eq_lit(s, "ts") || bytes_eq_lit(s, "tsx") || bytes_eq_lit(s, "js")
                || bytes_eq_lit(s, "jsx")
        },
        None => false,
    }
}

/// Whether the path names a TypeScript declaration file (`.d.ts`, `.d.tsx`).
pub fn is_declaration_file(path: &str) -> (r: bool)
    ensures
        r == (bytes_end_with(file_name_of(path.spec_bytes()), ".d.ts".spec_bytes())
            || bytes_end_with(file_name_of(path.spec_bytes()), ".d.tsx".spec_bytes())),
{
    let name = file_name_bytes(path);
    bytes_end_with_lit(name.as_slice(), ".d.ts") || bytes_end_with_lit(name.as_slice(), ".d.tsx")
}

/// Whether the path names one of the recognised configuration files.
pub fn is_json_config(path: &str) -> (r: bool)
    ensures
        r == (file_name_of(path.spec_bytes()) == ".complexityguard.json".spec_bytes()
            || file_name_of(path.spec_bytes()) == "complexityguard.config.json".spec_bytes()),
{
    let name = file_name_bytes(path);
    bytes_eq_lit(name.as_slice(), ".complexityguard.json") || bytes_eq_lit(
        name.as_slice(),
        "complexityguard.config.json",
    )
}

/// Whether a directory of this name is pruned from discovery.
pub fn is_excluded_dir(name: &str) -> (r: bool)
    ensures
        r == (name@ == "node_modules"@ || name@ == ".git"@ || name@ == "dist"@ || name@
            == "build"@ || name@ == ".next"@ || name@ == "coverage"@ || name@ == "__pycache__"@
            || name@ == ".svn"@ || name@ == ".hg"@ || name@ == "vendor"@),
{
    str_eq(name, "node_modules") || str_eq(name, ".git") || str_eq(name, "dist") || str_eq(
        name,
        "build",
    ) || str_eq(name, ".next") || str_eq(name, "coverage") || str_eq(name, "__pycache__")
        || str_eq(name, ".svn") || str_eq(name, ".hg") || str_eq(name, "vendor")
}

} // verus!
