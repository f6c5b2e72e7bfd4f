//! Parsing of package file paths.
//!
//! A source handed to the store under a path of the form
//! `@namespace/name/major.minor.patch/path/inside/package` belongs to a
//! package; this module parses that shape into its plain parts. Malformed
//! paths — a missing slash, a version that is not three dot-separated
//! decimal numbers — parse to nothing rather than failing.

use vstd::prelude::*;
use vstd::slice::slice_subrange;
use vstd::string::StringExecFns;

use crate::text::dec_digits;
use crate::text::dec_parses;
use crate::text::find_byte;
use crate::text::find_byte_from;
use crate::text::lemma_find_byte_in_range;
use crate::text::u32_from_dec;
use crate::text::u64_to_string;

verus! {

/// A package file reference parsed from a store path: the package
/// namespace, name and version, and the file's path inside the package.
/// Text fields hold the path's UTF-8 bytes.
#[derive(Debug)]
pub struct PackageFileRef {
    pub namespace: Vec<u8>,
    pub name: Vec<u8>,
    pub major: u32,
    pub minor: u32,
    pub patch: u32,
    pub vpath: Vec<u8>,
}

/// The parsed value of a package file reference.
pub ghost struct PackageFileValue {
    pub namespace: Seq<u8>,
    pub name: Seq<u8>,
    pub major: u32,
    pub minor: u32,
    pub patch: u32,
    pub vpath: Seq<u8>,
}

/// The version numbers a `major.minor.patch` byte string denotes: the three
/// dot-separated decimal fields, anything after a third dot ignored.
pub open spec fn version_triple(ver: Seq<u8>) -> Option<(u32, u32, u32)> {
    match find_byte_from(ver, 46, 0) {
        Option::None => Option::None,
        Option::Some(d1) => match find_byte_from(ver, 46, d1 + 1) {
            Option::None => Option::None,
            Option::Some(d2) => {
                let major_s = ver.subrange(0, d1);
                let minor_s = ver.subrange(d1 + 1, d2);
                let patch_s = match find_byte_from(ver, 46, d2 + 1) {
                    Option::Some(d3) => ver.subrange(d2 + 1, d3),
                    Option::None => ver.subrange(d2 + 1, ver.len() as int),
                };
                match (dec_parses(major_s), dec_parses(minor_s), dec_parses(patch_s)) {
                    (
                        Option::Some(ma),
                        Option::Some(mi),
                        Option::Some(pa),
                    ) => Option::Some((ma, mi, pa)),
                    _ => Option::None,
                }
            },
        },
    }
}

/// How a store path parses: it must start with `@` and hold at least three
/// slashes, cutting it into namespace, name, version and in-package path,
/// and the version field must be three dot-separated decimal numbers.
pub open spec fn package_path_parses(path: Seq<u8>) -> Option<PackageFileValue> {
    if path.len() == 0 || path[0] != 64 {
        Option::None
    } else {
        match find_byte_from(path, 47, 1) {
            Option::None => Option::None,
            Option::Some(s1) => match find_byte_from(path, 47, s1 + 1) {
                Option::None => Option::None,
                Option::Some(s2) => match find_byte_from(path, 47, s2 + 1) {
                    Option::None => Option::None,
                    Option::Some(s3) => match version_triple(path.subrange(s2 + 1, s3)) {
                        Option::None => Option::None,
                        Option::Some((ma, mi, pa)) => Option::Some(
                            PackageFileValue {
                                namespace: path.subrange(1, s1),
                                name: path.subrange(s1 + 1, s2),
                                major: ma,
                                minor: mi,
                                patch: pa,
                                vpath: path.subrange(s3 + 1, path.len() as int),
                            },
                        ),
                    },
                },
            },
        }
    }
}

/// Parse a `@namespace/name/major.minor.patch/vpath` store path into its
/// parts; any malformed path parses to `None`.
pub fn parse_package_path(path: &[u8]) -> (r: Option<PackageFileRef>)
    ensures
        match package_path_parses(path@) {
            Option::Some(v) => r matches Some(p) && {
                &&& p.namespace@ == v.namespace
                &&& p.name@ == v.name
                &&& p.major == v.major
                &&& p.minor == v.minor
                &&& p.patch == v.patch
                &&& p.vpath@ == v.vpath
            },
            Option::None => r is None,
        },
{
    let path_len = path.len();
    if path_len == 0 {
        return None;
    }
    if path[0] != 64 {
        return None;
    }
    let s1 = match find_byte(path, 47, 1) {
        Some(i) => i,
        None => {
            return None;
        },
    };
    proof {
        lemma_find_byte_in_range(path@, 47, 1);
    }
    let s2 = match find_byte(path, 47, s1 + 1) {
        Some(i) => i,
        None => {
            return None;
        },
    };
    proof {
        lemma_find_byte_in_range(path@, 47, s1 + 1);
    }
    let s3 = match find_byte(path, 47, s2 + 1) {
        Some(i) => i,
        None => {
            return None;
        },
    };
    proof {
        lemma_find_byte_in_range(path@, 47, s2 + 1);
    }
    let ver = slice_subrange(path, s2 + 1, s3);
    let triple = parse_version_triple(ver);
    let (major, minor, patch) = match triple {
        Some(t) => t,
        None => {
            return None;
        },
    };
    let namespace = bytes_to_vec(slice_subrange(path, 1, s1));
    let name = bytes_to_vec(slice_subrange(path, s1 + 1, s2));
    let vpath = bytes_to_vec(slice_subrange(path, s3 + 1, path_len));
    Some(PackageFileRef { namespace, name, major, minor, patch, vpath })
}

/// Copy a byte slice into an owned vector.
fn bytes_to_vec(s: &[u8]) -> (r: Vec<u8>)
    ensures
        r@ == s@,
{
    let mut r: Vec<u8> = Vec::new();
    let mut i: usize = 0;
    while i < s.len()
        invariant
            0 <= i <= s@.len(),
            r@ == s@.subrange(0, i as int),
        decreases s@.len() - i,
    {
        r.push(s[i]);
        proof {
            assert(r@ =~= s@.subrange(0, i + 1));
        }
        i = i + 1;
    }
    proof {
        assert(s@.subrange(0, s@.len() as int) =~= s@);
    }
    r
}

/// Parse a `major.minor.patch` version field.
pub fn parse_version_triple(ver: &[u8]) -> (r: Option<(u32, u32, u32)>)
    ensures
        match version_triple(ver@) {
            Option::Some(t) => r matches Some(u) && u == t,
            Option::None => r is None,
        },
{
    let ver_len = ver.len();
    let d1 = match find_byte(ver, 46, 0) {
        Some(i) => i,
        None => {
            return None;
        },
    };
    proof {
        lemma_find_byte_in_range(ver@, 46, 0);
    }
    let d2 = match find_byte(ver, 46, d1 + 1) {
        Some(i) => i,
        None => {
            return None;
        },
    };
    proof {
        lemma_find_byte_in_range(ver@, 46, d1 + 1);
    }
    let patch_end = match find_byte(ver, 46, d2 + 1) {
        Some(d3) => d3,
        None => ver_len,
    };
    proof {
        lemma_find_byte_in_range(ver@, 46, d2 + 1);
    }
    let major = u32_from_dec(slice_subrange(ver, 0, d1));
    let minor = u32_from_dec(slice_subrange(ver, d1 + 1, d2));
    let patch = u32_from_dec(slice_subrange(ver, d2 + 1, patch_end));
    match (major, minor, patch) {
        (Some(ma), Some(mi), Some(pa)) => Some((ma, mi, pa)),
        _ => None,
    }
}

/// A version formatted as `major.minor.patch`.
pub open spec fn version_digits(major: int, minor: int, patch: int) -> Seq<char> {
    dec_digits(major) + seq!['.'] + dec_digits(minor) + seq!['.'] + dec_digits(patch)
}

/// Format a version as `major.minor.patch`.
pub fn version_string(major: u32, minor: u32, patch: u32) -> (r: String)
    ensures
        r@ == version_digits(major as int, minor as int, patch as int),
{
    proof {
        reveal_strlit(".");
    }
    let mut s = u64_to_string(major as u64);
    s.append(".");
    let minor_s = u64_to_string(minor as u64);
    s.append(minor_s.as_str());
    s.append(".");
    let patch_s = u64_to_string(patch as u64);
    s.append(patch_s.as_str());
    proof {
        assert("."@ =~= seq!['.']);
        assert(s@ =~= version_digits(major as int, minor as int, patch as int));
    }
    s
}

} // verus!
