//! The version stamp of the preferences file: three dotted integers,
//! ordered lexicographically, read from and written as text.

use vstd::prelude::*;

verus! {

use core::cmp::Ordering;
use crate::decimal::{
    DecParseError,
    parse_i32,
    i32_to_decimal,
    spec_i32_ok,
    spec_i32_value,
    spec_signed_decimal,
};

/// A `major.minor.patch` version of the preferences file format.
#[derive(Clone, Copy, Debug, PartialEq, Eq, Structural)]
pub struct FileVersion {
    pub major: i32,
    pub minor: i32,
    pub patch: i32,
}

impl From<[i32; 3]> for FileVersion {
    /// Build a version from `[major, minor, patch]`.
    fn from(value: [i32; 3]) -> (r: Self) {
        FileVersion { major: value[0], minor: value[1], patch: value[2] }
    }
}

impl vstd::std_specs::convert::FromSpecImpl<[i32; 3]> for FileVersion {
    open spec fn obeys_from_spec() -> bool {
        true
    }

    open spec fn from_spec(value: [i32; 3]) -> FileVersion {
        FileVersion { major: value[0], minor: value[1], patch: value[2] }
    }
}

/// Lexicographic order: by major, then minor, then patch.
pub open spec fn spec_version_cmp(a: FileVersion, b: FileVersion) -> Option<Ordering> {
    if a.major != b.major {
        Some(
            if a.major < b.major {
                Ordering::Less
            } else {
                Ordering::Greater
            },
        )
    } else if a.minor != b.minor {
        Some(
            if a.minor < b.minor {
                Ordering::Less
            } else {
                Ordering::Greater
            },
        )
    } else if a.patch != b.patch {
        Some(
            if a.patch < b.patch {
                Ordering::Less
            } else {
                Ordering::Greater
            },
        )
    } else {
        Some(Ordering::Equal)
    }
}

impl PartialOrd for FileVersion {
    /// Versions compare lexicographically and are always comparable.
    fn partial_cmp(&self, other: &FileVersion) -> (r: Option<Ordering>) {
        if self.major != other.major {
            Some(
                if self.major < other.major {
                    Ordering::Less
                } else {
                    Ordering::Greater
                },
            )
        } else if self.minor != other.minor {
            Some(
                if self.minor < other.minor {
                    Ordering::Less
                } else {
                    Ordering::Greater
                },
            )
        } else if self.patch != other.patch {
            Some(
                if self.patch < other.patch {
                    Ordering::Less
                } else {
                    Ordering::Greater
                },
            )
        } else {
            Some(Ordering::Equal)
        }
    }
}

impl vstd::std_specs::cmp::PartialOrdSpecImpl for FileVersion {
    open spec fn obeys_partial_cmp_spec() -> bool {
        true
    }

    open spec fn partial_cmp_spec(&self, other: &FileVersion) -> Option<Ordering> {
        spec_version_cmp(*self, *other)
    }
}

/// The text form of a version: the three components in decimal, dot
/// separated.
pub open spec fn spec_version_string(v: FileVersion) -> Seq<char> {
    spec_signed_decimal(v.major as int) + seq!['.'] + spec_signed_decimal(v.minor as int)
        + seq!['.'] + spec_signed_decimal(v.patch as int)
}

/// `s` splits at a first dot `d1`, a second dot `d2`, and `e3`, the position
/// of the next dot after that or the end of the string; the first three
/// fields are the text between those marks.
pub open spec fn spec_version_split(s: Seq<char>, d1: int, d2: int, e3: int) -> bool {
    &&& 0 <= d1 < d2 < e3 <= s.len()
    &&& s[d1] == '.'
    &&& s[d2] == '.'
    &&& (e3 == s.len() || s[e3] == '.')
    &&& forall|j: int| 0 <= j < d1 ==> #[trigger] s[j] != '.'
    &&& forall|j: int| d1 < j < d2 ==> #[trigger] s[j] != '.'
    &&& forall|j: int| d2 < j < e3 ==> #[trigger] s[j] != '.'
}

/// There is at most one way to split a string this way.
proof fn lemma_split_unique(s: Seq<char>, d1: int, d2: int, e3: int, a1: int, a2: int, b3: int)
    requires
        spec_version_split(s, d1, d2, e3),
        spec_version_split(s, a1, a2, b3),
    ensures
        d1 == a1,
        d2 == a2,
        e3 == b3,
{
}

/// Why a version string could not be read.
#[derive(Clone, Copy, Debug, PartialEq, Eq, Structural)]
pub enum VersionParseError {
    /// Fewer than three dot-separated fields.
    MissingField,
    /// One of the first three fields is no `i32`.
    Number(DecParseError),
}

impl FileVersion {
    /// The version as text, `major.minor.patch`.
    pub fn version_string(&self) -> (r: String)
        ensures
            r@ == spec_version_string(*self),
    {
        let mut r = i32_to_decimal(self.major);
        r.append(".");
        let minor = i32_to_decimal(self.minor);
        r.append(minor.as_str());
        r.append(".");
        let patch = i32_to_decimal(self.patch);
        r.append(patch.as_str());
        proof {
            reveal_strlit(".");
            assert(r@ =~= spec_version_string(*self));
        }
        r
    }

    /// Read a version from text: the first three dot-separated fields as the
    /// components; anything after a fourth dot is ignored, as a version
    /// stamp with trailing qualifiers still names its first three numbers.
    ///
    /// Succeeds exactly when two dots are present and each of the three
    /// fields reads as an `i32`.
    pub fn from_str(version: &str) -> (r: Result<FileVersion, VersionParseError>)
        ensures
            r is Ok <==> exists|d1: int, d2: int, e3: int|
                #[trigger] spec_version_split(version@, d1, d2, e3) && spec_i32_ok(
                    version@.subrange(0, d1),
                ) && spec_i32_ok(version@.subrange(d1 + 1, d2)) && spec_i32_ok(
                    version@.subrange(d2 + 1, e3),
                ),
            r matches Ok(v) ==> exists|d1: int, d2: int, e3: int|
                #[trigger] spec_version_split(version@, d1, d2, e3) && v.major as int
                    == spec_i32_value(version@.subrange(0, d1)) && v.minor as int == spec_i32_value(
                    version@.subrange(d1 + 1, d2),
                ) && v.patch as int == spec_i32_value(version@.subrange(d2 + 1, e3)),
            r == Err::<FileVersion, VersionParseError>(VersionParseError::MissingField) <==> !(
            exists|d1: int, d2: int|
                #![trigger version@[d1], version@[d2]]
                0 <= d1 < d2 < version@.len() && version@[d1] == '.' && version@[d2] == '.'),
    {
        let n = version.unicode_len();
        let mut d1: usize = 0;
        while d1 < n && version.get_char(d1) != '.'
            invariant
                n == version@.len(),
                0 <= d1 <= n,
                forall|j: int| 0 <= j < d1 ==> #[trigger] version@[j] != '.',
            decreases n - d1,
        {
            d1 = d1 + 1;
        }
        if d1 == n {
            return Err(VersionParseError::MissingField);
        }
        let mut d2: usize = d1 + 1;
        while d2 < n && version.get_char(d2) != '.'
            invariant
                n == version@.len(),
                d1 < d2 <= n,
                version@[d1 as int] == '.',
                forall|j: int| d1 < j < d2 ==> #[trigger] version@[j] != '.',
            decreases n - d2,
        {
            d2 = d2 + 1;
        }
        if d2 == n {
            return Err(VersionParseError::MissingField);
        }
        let mut e3: usize = d2 + 1;
        while e3 < n && version.get_char(e3) != '.'
            invariant
                n == version@.len(),
                d2 < e3 <= n,
                forall|j: int| d2 < j < e3 ==> #[trigger] version@[j] != '.',
            decreases n - e3,
        {
            e3 = e3 + 1;
        }
        proof {
            assert(spec_version_split(version@, d1 as int, d2 as int, e3 as int));
        }
        let f1 = version.substring_char(0, d1);
        let f2 = version.substring_char(d1 + 1, d2);
        let f3 = version.substring_char(d2 + 1, e3);
        let major = (match parse_i32(f1) {
            Ok(v) => v,
            Err(e) => {
                proof {
                    lemma_no_other_split(version@, d1 as int, d2 as int, e3 as int);
                }
                return Err(VersionParseError::Number(e));
            },
        });
        let minor = (match parse_i32(f2) {
            Ok(v) => v,
            Err(e) => {
                proof {
                    lemma_no_other_split(version@, d1 as int, d2 as int, e3 as int);
                }
                return Err(VersionParseError::Number(e));
            },
        });
        let patch = (match parse_i32(f3) {
            Ok(v) => v,
            Err(e) => {
                proof {
                    lemma_no_other_split(version@, d1 as int, d2 as int, e3 as int);
                }
                return Err(VersionParseError::Number(e));
            },
        });
        proof {
            lemma_no_other_split(version@, d1 as int, d2 as int, e3 as int);
        }
        Ok(FileVersion { major, minor, patch })
    }
}

/// Any split of `s` equals the given one, so field conditions transfer.
proof fn lemma_no_other_split(s: Seq<char>, d1: int, d2: int, e3: int)
    requires
        spec_version_split(s, d1, d2, e3),
    ensures
        forall|a1: int, a2: int, b3: int|
            #[trigger] spec_version_split(s, a1, a2, b3) ==> a1 == d1 && a2 == d2 && b3 == e3,
{
    assert forall|a1: int, a2: int, b3: int|
        #[trigger] spec_version_split(s, a1, a2, b3) implies a1 == d1 && a2 == d2 && b3 == e3 by {
        lemma_split_unique(s, d1, d2, e3, a1, a2, b3);
    }
}

} // verus!
