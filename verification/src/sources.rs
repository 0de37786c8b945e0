//! The source provider for shader text: a catalog of named text blobs.
//!
//! The core needs nothing from a source provider but name-to-text; by
//! what means a blob got here — a file, an embedded constant, a network
//! fetch — is the caller's business and stays outside the library.

use vstd::prelude::*;

use crate::glsl::bytes_eq;
use crate::glsl::copy_range;

verus! {

/// One named source text.
pub struct SourceEntry {
    pub name: Vec<u8>,
    pub text: Vec<u8>,
}

/// A catalog of named source texts, searched front to back.
pub struct SourceCatalog {
    pub entries: Vec<SourceEntry>,
}

/// Index of the first entry at or after `i` whose name is `name`, or
/// `es.len()`.
pub open spec fn scan_entry(es: Seq<SourceEntry>, name: Seq<u8>, i: int) -> int
    decreases es.len() - i
    when 0 <= i <= es.len()
{
    if i == es.len() {
        i
    } else if es[i].name@ == name {
        i
    } else {
        scan_entry(es, name, i + 1)
    }
}

impl SourceCatalog {
    /// A catalog with no entries.
    pub fn new() -> (c: SourceCatalog)
        ensures
            c.entries@ =~= Seq::<SourceEntry>::empty(),
    {
        SourceCatalog { entries: Vec::new() }
    }

    /// Adds one named source text at the back.
    pub fn add(&mut self, name: Vec<u8>, text: Vec<u8>)
        ensures
            final(self).entries@ == old(self).entries@.push((SourceEntry { name, text })),
    {
        self.entries.push(SourceEntry { name, text });
    }
}

/// Reads the contents of the named source: the text of the first catalog
/// entry carrying that name, or nothing when no entry does.
pub fn read_file_contents(catalog: &SourceCatalog, name: &[u8]) -> (r: Option<Vec<u8>>)
    ensures
        r is Some <==> scan_entry(catalog.entries@, name@, 0) < catalog.entries@.len(),
        (r matches Some(text) ==> text@ == catalog.entries@[scan_entry(
            catalog.entries@,
            name@,
            0,
        )].text@),
{
    let n = catalog.entries.len();
    let mut i: usize = 0;
    while i < n
        invariant
            i <= n,
            n == catalog.entries@.len(),
            scan_entry(catalog.entries@, name@, 0) == scan_entry(catalog.entries@, name@, i as int),
        decreases n - i,
    {
        if bytes_eq(catalog.entries[i].name.as_slice(), name) {
            let text = &catalog.entries[i].text;
            return Some(copy_range(text.as_slice(), 0, text.len()));
        }
        i = i + 1;
    }
    None
}

} // verus!
