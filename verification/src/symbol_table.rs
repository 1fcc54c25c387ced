//! The symbol table: a write-once name-to-value map plus the resolved
//! placement of the two sections.  It is filled by pass 1 and read-only
//! during pass 2.

use crate::message::{already_defined_text, msg_already_defined, msg_not_defined, not_defined_text};
use vstd::prelude::*;
use vstd::string::StrSliceExecFns;

verus! {

/// Compares two string slices character by character.
pub fn str_eq(a: &str, b: &str) -> (r: bool)
    ensures
        r == (a@ == b@),
{
    let alen = a.unicode_len();
    let blen = b.unicode_len();
    if alen != blen {
        return false;
    }
    let mut i: usize = 0;
    while i < alen
        invariant
            alen == a@.len(),
            blen == b@.len(),
            alen == blen,
            0 <= i <= alen,
            forall|j: int| 0 <= j < i ==> a@[j] == b@[j],
        decreases alen - i,
    {
        if a.get_char(i) != b.get_char(i) {
            return false;
        }
        i += 1;
    }
    proof {
        assert(a@ =~= b@);
    }
    true
}

/// One resolved symbol: its 16-bit value, and whether the value is an
/// address (a label) or a plain constant (a `.set` declaration).
#[derive(Debug, Clone, Copy, PartialEq, Eq, Structural)]
pub struct SymbolTableEntry {
    pub value: u16,
    pub is_address: bool,
}

impl SymbolTableEntry {
    /// A constant-valued entry.
    pub open spec fn constant_spec(value: u16) -> SymbolTableEntry {
        SymbolTableEntry { value, is_address: false }
    }

    /// An address-valued entry.
    pub open spec fn address_spec(value: u16) -> SymbolTableEntry {
        SymbolTableEntry { value, is_address: true }
    }

    pub fn new_constant(value: u16) -> (r: Self)
        ensures
            r == SymbolTableEntry::constant_spec(value),
    {
        Self { value, is_address: false }
    }

    pub fn new_address(value: u16) -> (r: Self)
        ensures
            r == SymbolTableEntry::address_spec(value),
    {
        Self { value, is_address: true }
    }

    pub fn is_address(&self) -> (r: bool)
        ensures
            r == self.is_address,
    {
        self.is_address
    }

    pub fn get_value(&self) -> (r: u16)
        ensures
            r == self.value,
    {
        self.value
    }
}

/// The placement of one section: where it starts and how many bytes it
/// holds.  Addresses wrap at the end of the 16-bit address space.
#[derive(Debug, Clone, Copy, PartialEq, Eq, Structural)]
pub struct Section {
    pub base_address: u16,
    pub length: u16,
}

impl Section {
    /// The first address past the section, modulo the address space.
    pub open spec fn spec_end_address(&self) -> u16 {
        self.base_address.wrapping_add(self.length)
    }

    pub fn get_end_address(&self) -> (r: u16)
        ensures
            r == self.spec_end_address(),
    {
        self.base_address.wrapping_add(self.length)
    }
}

/// Whether two placed sections occupy disjoint address ranges.
pub open spec fn spec_layout_valid(text: Section, data: Section) -> bool {
    text.spec_end_address() <= data.base_address || data.spec_end_address() <= text.base_address
}

/// The first address past both sections: the length of the output image.
pub open spec fn spec_program_end(text: Section, data: Section) -> u16 {
    if data.spec_end_address() >= text.spec_end_address() {
        data.spec_end_address()
    } else {
        text.spec_end_address()
    }
}

/// The map described by an association list, later entries taking
/// precedence (the table itself never stores a name twice).
pub open spec fn assoc_map(s: Seq<(String, SymbolTableEntry)>) -> Map<Seq<char>, SymbolTableEntry>
    decreases s.len(),
{
    if s.len() == 0 {
        Map::empty()
    } else {
        assoc_map(s.drop_last()).insert(s.last().0@, s.last().1)
    }
}

/// The keys of `assoc_map(s)` are exactly the names in `s`, and when the
/// names are distinct each name maps to its listed entry.
pub proof fn lemma_assoc_map(s: Seq<(String, SymbolTableEntry)>)
    ensures
        forall|k: Seq<char>|
            assoc_map(s).contains_key(k) <==> exists|i: int| 0 <= i < s.len() && s[i].0@ == k,
        (forall|i: int, j: int| 0 <= i < j < s.len() ==> s[i].0@ != s[j].0@) ==> forall|i: int|
            0 <= i < s.len() ==> assoc_map(s)[s[i].0@] == s[i].1,
    decreases s.len(),
{
    if s.len() > 0 {
        lemma_assoc_map(s.drop_last());
        assert forall|k: Seq<char>| assoc_map(s).contains_key(k) implies exists|i: int|
            0 <= i < s.len() && s[i].0@ == k by {
            if k == s.last().0@ {
                assert(s[s.len() - 1].0@ == k);
            } else {
                assert(assoc_map(s.drop_last()).contains_key(k));
                let i = choose|i: int| 0 <= i < s.drop_last().len() && s.drop_last()[i].0@ == k;
                assert(s.drop_last()[i] == s[i]);
                assert(s[i].0@ == k);
            }
        }
        assert forall|k: Seq<char>| (exists|i: int| 0 <= i < s.len() && s[i].0@ == k) implies
            assoc_map(s).contains_key(k) by {
            let i = choose|i: int| 0 <= i < s.len() && s[i].0@ == k;
            if i < s.len() - 1 {
                assert(s.drop_last()[i].0@ == k);
                assert(exists|j: int| 0 <= j < s.drop_last().len() && s.drop_last()[j].0@ == k);
                assert(assoc_map(s.drop_last()).contains_key(k));
            } else {
                assert(k == s.last().0@);
            }
        }
        if forall|i: int, j: int| 0 <= i < j < s.len() ==> s[i].0@ != s[j].0@ {
            assert forall|i: int| 0 <= i < s.len() implies assoc_map(s)[s[i].0@] == s[i].1 by {
                if i < s.len() - 1 {
                    assert(s[i].0@ != s[s.len() - 1].0@);
                    assert(s.drop_last()[i].0@ == s[i].0@);
                }
            }
        }
    }
}

/// The mathematical value of a symbol table.
pub ghost struct SymbolTableV {
    pub symbols: Map<Seq<char>, SymbolTableEntry>,
    pub text_section: Section,
    pub data_section: Section,
}

/// The symbol table.  Names are kept in an association list whose keys are
/// pairwise distinct; lookups go by character-wise name equality.
#[derive(Debug)]
pub struct SymbolTable {
    pub symbols: Vec<(String, SymbolTableEntry)>,
    pub text_section: Section,
    pub data_section: Section,
}

impl View for SymbolTable {
    type V = SymbolTableV;

    open spec fn view(&self) -> SymbolTableV {
        SymbolTableV {
            symbols: assoc_map(self.symbols@),
            text_section: self.text_section,
            data_section: self.data_section,
        }
    }
}

impl SymbolTable {
    /// The names stored in the list are pairwise distinct.
    pub open spec fn wf(&self) -> bool {
        forall|i: int, j: int|
            0 <= i < j < self.symbols@.len() ==> self.symbols@[i].0@ != self.symbols@[j].0@
    }

    /// An empty table with both sections at address 0, length 0.
    pub fn new() -> (r: Self)
        ensures
            r.wf(),
            r@.symbols == Map::<Seq<char>, SymbolTableEntry>::empty(),
            r.text_section == (Section { base_address: 0u16, length: 0u16 }),
            r.data_section == (Section { base_address: 0u16, length: 0u16 }),
    {
        Self {
            symbols: Vec::new(),
            data_section: Section { base_address: 0, length: 0 },
            text_section: Section { base_address: 0, length: 0 },
        }
    }

    /// The position of `name` in the list, when present.
    fn find_index(&self, name: &str) -> (r: Option<usize>)
        ensures
            match r {
                Some(i) => i < self.symbols@.len() && self.symbols@[i as int].0@ == name@,
                None => forall|i: int| 0 <= i < self.symbols@.len() ==> self.symbols@[i].0@ != name@,
            },
    {
        let mut i: usize = 0;
        while i < self.symbols.len()
            invariant
                0 <= i <= self.symbols@.len(),
                forall|j: int| 0 <= j < i ==> self.symbols@[j].0@ != name@,
            decreases self.symbols@.len() - i,
        {
            if str_eq(self.symbols[i].0.as_str(), name) {
                return Some(i);
            }
            i += 1;
        }
        None
    }

    /// Binds `name` to a constant-valued entry; rejected when `name` is
    /// already bound, and the first binding stays.
    pub fn put_constant(&mut self, name: String, value: u16) -> (r: Result<(), String>)
        requires
            old(self).wf(),
        ensures
            final(self).wf(),
            final(self).text_section == old(self).text_section,
            final(self).data_section == old(self).data_section,
            old(self)@.symbols.contains_key(name@) ==> (r matches Err(e) && e@
                == msg_already_defined(name@) && final(self)@.symbols == old(self)@.symbols),
            !old(self)@.symbols.contains_key(name@) ==> (r is Ok && final(self)@.symbols == old(
                self,
            )@.symbols.insert(name@, SymbolTableEntry::constant_spec(value))),
    {
        self.put_entry(name, SymbolTableEntry::new_constant(value))
    }

    /// Binds `name` to an address-valued entry; rejected when `name` is
    /// already bound, and the first binding stays.
    pub fn put_address(&mut self, name: String, value: u16) -> (r: Result<(), String>)
        requires
            old(self).wf(),
        ensures
            final(self).wf(),
            final(self).text_section == old(self).text_section,
            final(self).data_section == old(self).data_section,
            old(self)@.symbols.contains_key(name@) ==> (r matches Err(e) && e@
                == msg_already_defined(name@) && final(self)@.symbols == old(self)@.symbols),
            !old(self)@.symbols.contains_key(name@) ==> (r is Ok && final(self)@.symbols == old(
                self,
            )@.symbols.insert(name@, SymbolTableEntry::address_spec(value))),
    {
        self.put_entry(name, SymbolTableEntry::new_address(value))
    }

    /// Shared implementation of the two `put` operations.
    fn put_entry(&mut self, name: String, entry: SymbolTableEntry) -> (r: Result<(), String>)
        requires
            old(self).wf(),
        ensures
            final(self).wf(),
            final(self).text_section == old(self).text_section,
            final(self).data_section == old(self).data_section,
            old(self)@.symbols.contains_key(name@) ==> (r matches Err(e) && e@
                == msg_already_defined(name@) && final(self)@.symbols == old(self)@.symbols),
            !old(self)@.symbols.contains_key(name@) ==> (r is Ok && final(self)@.symbols == old(
                self,
            )@.symbols.insert(name@, entry)),
    {
        proof {
            lemma_assoc_map(self.symbols@);
        }
        match self.find_index(name.as_str()) {
            Some(_) => Err(already_defined_text(name.as_str())),
            None => {
                let ghost before = self.symbols@;
                self.symbols.push((name, entry));
                proof {
                    assert(self.symbols@.drop_last() =~= before);
                }
                Ok(())
            },
        }
    }

    /// Looks `symbol` up; an unknown name is reported, not invented.
    pub fn get_symbol(&self, symbol: &str) -> (r: Result<&SymbolTableEntry, String>)
        requires
            self.wf(),
        ensures
            self@.symbols.contains_key(symbol@) ==> (r matches Ok(e) && *e
                == self@.symbols[symbol@]),
            !self@.symbols.contains_key(symbol@) ==> (r matches Err(e) && e@ == msg_not_defined(
                symbol@,
            )),
    {
        proof {
            lemma_assoc_map(self.symbols@);
        }
        match self.find_index(symbol) {
            Some(i) => Ok(&self.symbols[i].1),
            None => Err(not_defined_text(symbol)),
        }
    }

    /// Records the placement of the `.text` section.
    pub fn set_text_section(&mut self, base_address: u16, length: u16)
        ensures
            final(self).text_section == (Section { base_address, length }),
            final(self).data_section == old(self).data_section,
            final(self).symbols == old(self).symbols,
            final(self).wf() == old(self).wf(),
    {
        self.text_section = Section { base_address, length };
    }

    /// Records the placement of the `.data` section.
    pub fn set_data_section(&mut self, base_address: u16, length: u16)
        ensures
            final(self).data_section == (Section { base_address, length }),
            final(self).text_section == old(self).text_section,
            final(self).symbols == old(self).symbols,
            final(self).wf() == old(self).wf(),
    {
        self.data_section = Section { base_address, length };
    }

    /// Whether the two recorded section ranges are disjoint.
    pub fn is_valid_layout(&self) -> (r: bool)
        ensures
            r == spec_layout_valid(self.text_section, self.data_section),
    {
        self.text_section.get_end_address() <= self.data_section.base_address
            || self.data_section.get_end_address() <= self.text_section.base_address
    }

    pub fn get_text_section_base_address(&self) -> (r: u16)
        ensures
            r == self.text_section.base_address,
    {
        self.text_section.base_address
    }

    pub fn get_data_section_base_address(&self) -> (r: u16)
        ensures
            r == self.data_section.base_address,
    {
        self.data_section.base_address
    }

    /// The larger of the two section end addresses: the length of the
    /// output image.
    pub fn get_program_end_address(&self) -> (r: u16)
        ensures
            r == spec_program_end(self.text_section, self.data_section),
    {
        let data_end = self.data_section.get_end_address();
        let text_end = self.text_section.get_end_address();
        if data_end >= text_end {
            data_end
        } else {
            text_end
        }
    }
}

/// Disjointness of the two sections does not depend on which one is called
/// text and which data.
pub proof fn lemma_layout_valid_symmetric(a: Section, b: Section)
    ensures
        spec_layout_valid(a, b) == spec_layout_valid(b, a),
{
}

/// Whether address `a` lies inside the placed section.
pub open spec fn in_section(sec: Section, a: int) -> bool {
    sec.base_address <= a < sec.base_address + sec.length
}

/// For non-empty sections that stay below the end of the address space, the
/// layout is valid exactly when no address lies in both sections.  (An empty
/// section strictly inside the other is still reported as an overlap, and a
/// section whose end wraps to address 0 compares as ending before every
/// other; neither case is covered here.)
pub proof fn lemma_layout_valid_is_disjointness(text: Section, data: Section)
    requires
        text.length > 0,
        data.length > 0,
        text.base_address + text.length < 0x10000,
        data.base_address + data.length < 0x10000,
    ensures
        spec_layout_valid(text, data) <==> forall|a: int|
            !(#[trigger] in_section(text, a) && in_section(data, a)),
{
    if !spec_layout_valid(text, data) {
        let a: int = if text.base_address >= data.base_address {
            text.base_address as int
        } else {
            data.base_address as int
        };
        assert(in_section(text, a) && in_section(data, a));
    }
}

} // verus!
