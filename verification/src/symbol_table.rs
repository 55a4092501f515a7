//! The symbol table: identifier names mapped to stack-allocation metadata.
//!
//! Entries are appended in declaration order; each entry claims a fresh
//! 4-byte stack slot whose offset grows monotonically and is never reused.
//! Redeclaring a name appends a new entry that shadows the old one: lookup
//! returns the most recently added entry for a name.
use vstd::prelude::*;

verus! {

use crate::util::str_eq;

/// One declared identifier and its stack-allocation metadata.
#[derive(Debug, PartialEq)]
pub struct TableEntry {
    pub name: String,
    /// The slot assigned to this entry: 4 for the first declaration, 8 for
    /// the second, and so on.
    pub stack_offset: u32,
    /// Whether the declaration carried an initializer.
    pub is_initialized: bool,
    /// The cumulative bytes allocated at the time of this entry, its own
    /// slot included.
    pub bytes_allocated: u32,
}

/// The model of an entry: the same fields with the name as characters.
pub struct EntryV {
    pub name: Seq<char>,
    pub stack_offset: u32,
    pub is_initialized: bool,
    pub bytes_allocated: u32,
}

impl View for TableEntry {
    type V = EntryV;

    open spec fn view(&self) -> EntryV {
        EntryV {
            name: self.name@,
            stack_offset: self.stack_offset,
            is_initialized: self.is_initialized,
            bytes_allocated: self.bytes_allocated,
        }
    }
}

#[derive(Debug, PartialEq)]
pub struct SymbolTable {
    pub entries: Vec<TableEntry>,
    /// Total bytes allocated so far; what a generated epilogue must release.
    pub current_stack_offset: u32,
}

/// The model of a table: the entries in declaration order and the running
/// allocation total.
pub struct SymTabV {
    pub entries: Seq<EntryV>,
    pub current_stack_offset: u32,
}

impl View for SymbolTable {
    type V = SymTabV;

    open spec fn view(&self) -> SymTabV {
        SymTabV {
            entries: self.entries@.map_values(|e: TableEntry| e@),
            current_stack_offset: self.current_stack_offset,
        }
    }
}

impl SymTabV {
    /// Well-formedness: the k-th entry (counting from zero) sits at offset
    /// 4*(k+1), its cumulative count equals its own offset, and the running
    /// total covers exactly the entries present.
    pub open spec fn wf(self) -> bool {
        &&& self.current_stack_offset as int == 4 * self.entries.len()
        &&& forall|k: int|
            0 <= k < self.entries.len() ==> (#[trigger] self.entries[k]).stack_offset as int == 4 * (
            k + 1)
        &&& forall|k: int|
            0 <= k < self.entries.len() ==> (#[trigger] self.entries[k]).bytes_allocated as int == 4
                * (k + 1)
    }

    /// The model of `add_entry`: one more entry, one more slot.
    pub open spec fn push_entry(self, name: Seq<char>, initialized: bool) -> SymTabV {
        SymTabV {
            entries: self.entries.push(
                EntryV {
                    name: name,
                    stack_offset: (self.current_stack_offset + 4) as u32,
                    is_initialized: initialized,
                    bytes_allocated: (self.current_stack_offset + 4) as u32,
                },
            ),
            current_stack_offset: (self.current_stack_offset + 4) as u32,
        }
    }

    /// The model of `lookup`: the most recently added entry with this name.
    pub open spec fn spec_lookup(self, name: Seq<char>) -> Option<EntryV>
        decreases self.entries.len(),
    {
        if self.entries.len() == 0 {
            None
        } else if self.entries.last().name == name {
            Some(self.entries.last())
        } else {
            SymTabV {
                entries: self.entries.drop_last(),
                current_stack_offset: self.current_stack_offset,
            }.spec_lookup(name)
        }
    }

    /// An empty table.
    pub open spec fn empty() -> SymTabV {
        SymTabV { entries: Seq::empty(), current_stack_offset: 0 }
    }
}

impl SymbolTable {
    pub fn new() -> (r: SymbolTable)
        ensures
            r@ == SymTabV::empty(),
            r@.wf(),
    {
        let r = SymbolTable { entries: Vec::new(), current_stack_offset: 0 };
        proof {
            assert(r@.entries =~= Seq::<EntryV>::empty());
            assert(r@ == SymTabV::empty());
        }
        r
    }

    /// Registers a declaration. Always allocates a fresh 4-byte slot, also
    /// when the name was declared before: the new entry shadows the old one.
    pub fn add_entry(&mut self, identifier: String, initialized: bool) -> (r: TableEntry)
        requires
            old(self).current_stack_offset + 4 <= u32::MAX,
        ensures
            final(self)@ == old(self)@.push_entry(identifier@, initialized),
            r@ == final(self)@.entries.last(),
            old(self)@.wf() ==> final(self)@.wf(),
    {
        self.current_stack_offset = self.current_stack_offset + 4;
        let entry = TableEntry {
            name: identifier,
            stack_offset: self.current_stack_offset,
            is_initialized: initialized,
            bytes_allocated: self.current_stack_offset,
        };
        let copy = TableEntry {
            name: entry.name.clone(),
            stack_offset: entry.stack_offset,
            is_initialized: entry.is_initialized,
            bytes_allocated: entry.bytes_allocated,
        };
        self.entries.push(entry);
        proof {
            assert(final(self)@.entries =~= old(self)@.push_entry(copy.name@, initialized).entries);
        }
        copy
    }

    /// The most recently added entry for this name, or `None` when the name
    /// was never declared.
    pub fn lookup(&self, name: &str) -> (r: Option<&TableEntry>)
        ensures
            match r {
                Some(e) => self@.spec_lookup(name@) == Some(e@),
                None => self@.spec_lookup(name@) is None,
            },
    {
        let mut k: usize = self.entries.len();
        proof {
            assert(self@.entries.subrange(0, k as int) =~= self@.entries);
        }
        while k > 0
            invariant
                k <= self.entries.len(),
                (SymTabV {
                    entries: self@.entries.subrange(0, k as int),
                    current_stack_offset: self@.current_stack_offset,
                }).spec_lookup(name@) == self@.spec_lookup(name@),
            decreases k,
        {
            proof {
                assert(self@.entries.subrange(0, k as int).last() == self@.entries[k - 1]);
                assert(self@.entries.subrange(0, k as int).drop_last() =~= self@.entries.subrange(
                    0,
                    k - 1,
                ));
            }
            if str_eq(self.entries[k - 1].name.as_str(), name) {
                return Some(&self.entries[k - 1]);
            }
            k = k - 1;
        }
        proof {
            assert(self@.entries.subrange(0, 0) =~= Seq::<EntryV>::empty());
        }
        None
    }

    /// Total bytes allocated so far; always a multiple of 4 on a well-formed
    /// table.
    pub fn current_allocation(&self) -> (r: u32)
        ensures
            r == self.current_stack_offset,
    {
        self.current_stack_offset
    }
}

/// A successful lookup returns one of the table's entries.
pub proof fn lemma_lookup_is_entry(t: SymTabV, name: Seq<char>)
    ensures
        t.spec_lookup(name) matches Some(en) ==> exists|k: int|
            0 <= k < t.entries.len() && t.entries[k] == en,
    decreases t.entries.len(),
{
    if t.entries.len() > 0 {
        if t.entries.last().name == name {
            assert(t.entries[t.entries.len() - 1] == t.entries.last());
        } else {
            let t2 = SymTabV {
                entries: t.entries.drop_last(),
                current_stack_offset: t.current_stack_offset,
            };
            lemma_lookup_is_entry(t2, name);
            if t2.spec_lookup(name) is Some {
                let k = choose|k: int|
                    0 <= k < t2.entries.len() && t2.entries[k] == t2.spec_lookup(name)->Some_0;
                assert(t.entries[k] == t2.entries[k]);
            }
        }
    }
}

/// On a well-formed table, every entry a lookup can return sits at an offset
/// within the allocation total.
pub proof fn lemma_lookup_offset_in_range(t: SymTabV, name: Seq<char>)
    requires
        t.wf(),
    ensures
        t.spec_lookup(name) matches Some(en) ==> 4 <= en.stack_offset as int
            <= t.current_stack_offset as int,
{
    lemma_lookup_is_entry(t, name);
    if t.spec_lookup(name) is Some {
        let en = t.spec_lookup(name)->Some_0;
        let k = choose|k: int| 0 <= k < t.entries.len() && t.entries[k] == en;
        assert(t.entries[k].stack_offset as int == 4 * (k + 1));
    }
}

/// Stack offsets are monotone in declaration order: on a well-formed table
/// the k-th entry (counting from one) sits at offset 4*k, so offsets grow
/// strictly with declaration order and an entry's offset never changes once
/// assigned.
pub proof fn lemma_offset_monotonicity(t: SymTabV)
    requires
        t.wf(),
    ensures
        forall|k: int| 0 <= k < t.entries.len() ==> (#[trigger] t.entries[k]).stack_offset as int
            == 4 * (k + 1),
        forall|i: int, j: int|
            0 <= i < j < t.entries.len() ==> t.entries[i].stack_offset
                < t.entries[j].stack_offset,
{
    assert forall|i: int, j: int| 0 <= i < j < t.entries.len() implies t.entries[i].stack_offset
        < t.entries[j].stack_offset by {
        assert(t.entries[i].stack_offset as int == 4 * (i + 1));
        assert(t.entries[j].stack_offset as int == 4 * (j + 1));
    }
}

} // verus!
