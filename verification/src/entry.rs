//! Directory entries, and the byte order by which names are compared.
use vstd::prelude::*;
use vstd::utf8::encode_utf8;

verus! {

/// What kind of filesystem object an entry is.
#[derive(Clone, Copy, Debug, PartialEq, Eq, Structural)]
pub enum EntryKind {
    File,
    Directory,
    Symlink,
    Socket,
    Other,
}

/// One child of a directory, as it was when the directory was read.
#[derive(Debug)]
pub struct Entry {
    pub name: String,
    pub kind: EntryKind,
    pub size: u64,
    pub modified_time: u64,
    pub permissions: u32,
}

/// The byte that separates a name from its extension, and marks a hidden name.
pub const DOT: u8 = 46;

/// A name denotes a hidden entry when it begins with a dot.
pub open spec fn denotes_hidden(name: Seq<char>) -> bool {
    name.len() > 0 && name[0] == '.'
}

/// Lexicographic order on byte strings: the first differing byte decides, and
/// a proper prefix comes first.
pub open spec fn bytes_le(a: Seq<u8>, b: Seq<u8>) -> bool
    decreases a.len(),
{
    if a.len() == 0 {
        true
    } else if b.len() == 0 {
        false
    } else if a[0] != b[0] {
        a[0] < b[0]
    } else {
        bytes_le(a.skip(1), b.skip(1))
    }
}

/// Scanning `name` downwards from `upto`, the offset behind the last dot that
/// is not the first byte; the length of `name` when there is no such dot.
pub open spec fn extension_start(name: Seq<u8>, upto: int) -> int
    decreases upto,
{
    if upto <= 1 {
        name.len() as int
    } else if name[upto - 1] == DOT {
        upto
    } else {
        extension_start(name, upto - 1)
    }
}

/// The extension of a name: what follows its last dot, where that dot is not
/// the first byte; empty when there is none.
pub open spec fn extension_of(name: Seq<u8>) -> Seq<u8> {
    name.skip(extension_start(name, name.len() as int))
}

/// Of two byte strings one does not sort behind the other.
pub proof fn lemma_bytes_le_total(a: Seq<u8>, b: Seq<u8>)
    ensures
        bytes_le(a, b) || bytes_le(b, a),
    decreases a.len(),
{
    if a.len() > 0 && b.len() > 0 && a[0] == b[0] {
        lemma_bytes_le_total(a.skip(1), b.skip(1));
    }
}

/// The byte order is transitive.
pub proof fn lemma_bytes_le_transitive(a: Seq<u8>, b: Seq<u8>, c: Seq<u8>)
    requires
        bytes_le(a, b),
        bytes_le(b, c),
    ensures
        bytes_le(a, c),
    decreases a.len(),
{
    if a.len() > 0 && b.len() > 0 && c.len() > 0 && a[0] == b[0] && b[0] == c[0] {
        lemma_bytes_le_transitive(a.skip(1), b.skip(1), c.skip(1));
    }
}

/// Compares the tails of two byte strings that begin at the given offsets.
pub fn bytes_le_from(a: &[u8], from_a: usize, b: &[u8], from_b: usize) -> (r: bool)
    requires
        from_a <= a@.len(),
        from_b <= b@.len(),
    ensures
        r == bytes_le(a@.skip(from_a as int), b@.skip(from_b as int)),
{
    let mut i: usize = from_a;
    let mut j: usize = from_b;
    loop
        invariant
            from_a <= i <= a@.len(),
            from_b <= j <= b@.len(),
            bytes_le(a@.skip(from_a as int), b@.skip(from_b as int)) == bytes_le(
                a@.skip(i as int),
                b@.skip(j as int),
            ),
        decreases a@.len() - i,
    {
        if i == a.len() {
            return true;
        }
        if j == b.len() {
            return false;
        }
        if a[i] != b[j] {
            return a[i] < b[j];
        }
        assert(a@.skip(i as int).skip(1) =~= a@.skip(i + 1));
        assert(b@.skip(j as int).skip(1) =~= b@.skip(j + 1));
        i += 1;
        j += 1;
    }
}

/// The offset at which the extension of `name` begins.
pub fn extension_offset(name: &[u8]) -> (k: usize)
    ensures
        k == extension_start(name@, name@.len() as int),
        k <= name@.len(),
{
    let mut i: usize = name.len();
    while i > 1
        invariant
            i <= name@.len(),
            extension_start(name@, name@.len() as int) == extension_start(name@, i as int),
        decreases i,
    {
        if name[i - 1] == DOT {
            return i;
        }
        i -= 1;
    }
    name.len()
}

impl Entry {
    /// An entry with the given name and metadata.
    pub fn new(name: String, kind: EntryKind, size: u64, modified_time: u64, permissions: u32) -> (e:
        Entry)
        ensures
            e == (Entry { name, kind, size, modified_time, permissions }),
    {
        Entry { name, kind, size, modified_time, permissions }
    }

    /// The name as the bytes of its UTF-8 encoding.
    pub open spec fn name_bytes(&self) -> Seq<u8> {
        encode_utf8(self.name@)
    }

    /// The name denotes a hidden entry.
    pub open spec fn hidden(&self) -> bool {
        denotes_hidden(self.name@)
    }

    /// Whether the name denotes a hidden entry.
    pub fn is_hidden(&self) -> (b: bool)
        ensures
            b == self.hidden(),
    {
        let name = self.name.as_str();
        !name.is_empty() && name.get_char(0) == '.'
    }

    /// Whether the entry is a directory.
    pub fn is_dir(&self) -> (b: bool)
        ensures
            b == (self.kind == EntryKind::Directory),
    {
        match self.kind {
            EntryKind::Directory => true,
            _ => false,
        }
    }
}

impl Clone for Entry {
    fn clone(&self) -> (e: Entry)
        ensures
            e == *self,
    {
        Entry {
            name: self.name.clone(),
            kind: self.kind,
            size: self.size,
            modified_time: self.modified_time,
            permissions: self.permissions,
        }
    }
}

} // verus!
