//! Archive entries and the safety rules on their names.
//!
//! An entry name is a relative path with forward-slash separators. A name is
//! *safe* when joining it under a destination directory cannot escape that
//! directory on any host: it is non-empty, starts with no separator of either
//! kind, holds no NUL character and no `..` path component (delimited by
//! either separator), and carries no `:` drive marker in its first component.

use vstd::prelude::*;

verus! {

/// One unit of an archive: a relative path plus either file bytes or a
/// directory marker (`data` is `None` for a directory).
pub struct ArchiveEntry {
    pub name: String,
    pub data: Option<Vec<u8>>,
}

/// The longest entry name the archiver accepts, in characters. The archive
/// format stores a name's byte length in 16 bits, and a character encodes to
/// at most four bytes, so this keeps every accepted name (even with a
/// separator appended) inside that field.
pub const MAX_ENTRY_NAME_CHARS: usize = 16383;

/// The most bytes one archived file may hold. The archive format keeps entry
/// sizes in 32-bit fields unless its large-file extension is enabled, and
/// this archiver does not enable it; the field limit binds the *compressed*
/// size too, and deflate can expand incompressible data by a few bytes per
/// 64 KiB block, so the bound leaves about a mebibyte of headroom under the
/// 32-bit limit to cover that worst case.
pub const MAX_ENTRY_DATA_BYTES: usize = 0xFFEF_0000;

/// A path separator of either kind.
pub open spec fn is_path_sep(c: char) -> bool {
    c == '/' || c == '\\'
}

/// A `..` path component starts at index `i` of `s`: two dots bounded by the
/// string ends or by separators.
pub open spec fn dotdot_component_at(s: Seq<char>, i: int) -> bool {
    &&& 0 <= i
    &&& i + 2 <= s.len()
    &&& s[i] == '.'
    &&& s[i + 1] == '.'
    &&& (i == 0 || is_path_sep(s[i - 1]))
    &&& (i + 2 == s.len() || is_path_sep(s[i + 2]))
}

/// The name holds a parent-directory component somewhere.
pub open spec fn has_dotdot_component(s: Seq<char>) -> bool {
    exists|i: int| dotdot_component_at(s, i)
}

/// No separator stands before index `j` of `s`.
pub open spec fn no_sep_before(s: Seq<char>, j: int) -> bool {
    forall|k: int| 0 <= k < j ==> !is_path_sep(#[trigger] s[k])
}

/// The name's first component holds a `:`, as a drive letter would — a name
/// that some hosts resolve outside the destination.
pub open spec fn drive_marked(s: Seq<char>) -> bool {
    exists|j: int| 0 <= j < s.len() && s[j] == ':' && no_sep_before(s, j)
}

/// A name that is safe to join under a destination directory on any host:
/// non-empty, relative, free of NUL, of `..` components and of a drive
/// marker.
pub open spec fn entry_name_safe(s: Seq<char>) -> bool {
    &&& s.len() > 0
    &&& !is_path_sep(s[0])
    &&& !s.contains('\0')
    &&& !has_dotdot_component(s)
    &&& !drive_marked(s)
}

/// A name the archiver may write: safe, not over-long, and without a
/// trailing separator of either kind (directories are marked by the entry,
/// not by the name).
pub open spec fn archivable_name(s: Seq<char>) -> bool {
    &&& entry_name_safe(s)
    &&& s.len() <= MAX_ENTRY_NAME_CHARS
    &&& s[s.len() - 1] != '/'
    &&& s[s.len() - 1] != '\\'
}

impl ArchiveEntry {
    /// A well-formed entry: its name is one the archiver may write and its
    /// bytes fit one archived file.
    pub open spec fn wf(&self) -> bool {
        &&& archivable_name(self.name@)
        &&& (self.data matches Some(d) ==> d@.len() <= MAX_ENTRY_DATA_BYTES)
    }

    /// The pair the entry becomes inside an archive: directories are stored
    /// under their name with a trailing slash and empty data.
    pub open spec fn zip_model(&self) -> (Seq<char>, Seq<u8>) {
        match self.data {
            Some(d) => (self.name@, d@),
            None => (self.name@ + seq!['/'], Seq::<u8>::empty()),
        }
    }
}

/// Decides `entry_name_safe` for a real string.
pub fn entry_name_is_safe(name: &str) -> (r: bool)
    ensures
        r == entry_name_safe(name@),
{
    let n = name.unicode_len();
    if n == 0 {
        return false;
    }
    let first = name.get_char(0);
    if first == '/' || first == '\\' {
        return false;
    }
    let mut seen_sep: bool = false;
    let mut i: usize = 0;
    while i < n
        invariant
            n == name@.len(),
            0 <= i <= n,
            seen_sep == !no_sep_before(name@, i as int),
            forall|j: int| 0 <= j < i ==> name@[j] != '\0',
            forall|j: int| 0 <= j < i ==> !dotdot_component_at(name@, j),
            forall|j: int| 0 <= j < i ==> !(name@[j] == ':' && no_sep_before(name@, j)),
        decreases n - i,
    {
        let c = name.get_char(i);
        if c == '\0' {
            return false;
        }
        if c == ':' && !seen_sep {
            proof {
                assert(name@[i as int] == ':' && no_sep_before(name@, i as int));
            }
            return false;
        }
        if c == '.' && i + 1 < n && name.get_char(i + 1) == '.' {
            let before_ok = i == 0 || {
                let b = name.get_char(i - 1);
                b == '/' || b == '\\'
            };
            let after_ok = i + 2 == n || {
                let a = name.get_char(i + 2);
                a == '/' || a == '\\'
            };
            if before_ok && after_ok {
                proof {
                    assert(dotdot_component_at(name@, i as int));
                }
                return false;
            }
        }
        proof {
            assert(!dotdot_component_at(name@, i as int));
            if !(c == '/' || c == '\\') && no_sep_before(name@, i as int) {
                assert forall|k: int| 0 <= k < i + 1 implies !is_path_sep(#[trigger] name@[k]) by {
                    if k == i {
                        assert(!is_path_sep(name@[k]));
                    }
                }
            }
            if c == '/' || c == '\\' {
                assert(is_path_sep(name@[i as int]));
                assert(!no_sep_before(name@, i + 1));
            }
        }
        if c == '/' || c == '\\' {
            seen_sep = true;
        }
        i = i + 1;
    }
    proof {
        if name@.contains('\0') {
            let j = choose|j: int| 0 <= j < name@.len() && name@[j] == '\0';
            assert(name@[j] != '\0');
        }
        if has_dotdot_component(name@) {
            let j = choose|j: int| dotdot_component_at(name@, j);
            assert(0 <= j < n);
            assert(!dotdot_component_at(name@, j));
        }
        if drive_marked(name@) {
            let j = choose|j: int| 0 <= j < name@.len() && name@[j] == ':' && no_sep_before(
                name@,
                j,
            );
            assert(!(name@[j] == ':' && no_sep_before(name@, j)));
        }
    }
    true
}

/// Decides `archivable_name` for a real string.
pub fn entry_name_is_archivable(name: &str) -> (r: bool)
    ensures
        r == archivable_name(name@),
{
    if !entry_name_is_safe(name) {
        return false;
    }
    let n = name.unicode_len();
    if n > MAX_ENTRY_NAME_CHARS {
        return false;
    }
    let last = name.get_char(n - 1);
    last != '/' && last != '\\'
}

/// Appending a trailing separator to a safe name that lacks one keeps the
/// name safe: the new character is a separator, so it can neither be NUL,
/// complete a `..` component, nor put a `:` into the first component.
pub proof fn lemma_safe_name_trailing_slash(s: Seq<char>)
    requires
        entry_name_safe(s),
        s[s.len() - 1] != '/',
    ensures
        entry_name_safe(s + seq!['/']),
{
    let t = s + seq!['/'];
    assert(t.len() == s.len() + 1);
    assert(t[0] == s[0]);
    if t.contains('\0') {
        let j = choose|j: int| 0 <= j < t.len() && t[j] == '\0';
        if j < s.len() {
            assert(s[j] == '\0');
            assert(s.contains('\0'));
        } else {
            assert(t[j] == '/');
        }
    }
    if has_dotdot_component(t) {
        let i = choose|i: int| dotdot_component_at(t, i);
        assert(i + 2 <= s.len() + 1);
        assert(t[i] == '.');
        assert(i < s.len());
        assert(t[i + 1] == '.');
        assert(i + 1 < s.len());
        assert(s[i] == '.');
        assert(s[i + 1] == '.');
        if i > 0 {
            assert(t[i - 1] == s[i - 1]);
        }
        if i + 2 == s.len() + 1 {
            assert(false);
        } else {
            if i + 2 == s.len() {
                assert(dotdot_component_at(s, i));
            } else {
                assert(t[i + 2] == s[i + 2]);
                assert(dotdot_component_at(s, i));
            }
        }
        assert(has_dotdot_component(s));
    }
    if drive_marked(t) {
        let j = choose|j: int| 0 <= j < t.len() && t[j] == ':' && no_sep_before(t, j);
        assert(j < s.len());
        assert(s[j] == ':');
        assert forall|k: int| 0 <= k < j implies !is_path_sep(#[trigger] s[k]) by {
            assert(t[k] == s[k]);
            assert(!is_path_sep(t[k]));
        }
        assert(drive_marked(s));
    }
}

} // verus!
