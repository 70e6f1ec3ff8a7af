//! The opcode table: the bidirectional, constant-after-init mapping between
//! stable opcode names and the 16-bit wire codes of a client build.
use vstd::prelude::*;

use crate::error::Error;

verus! {

/// The stable symbolic names of the packets the core handles. Wire codes
/// are build-specific and live only in the table.
#[allow(non_camel_case_types)]
#[derive(Clone, Copy, Debug, PartialEq, Eq, Structural, Hash)]
pub enum Opcode {
    C_CHECK_VERSION,
    S_CHECK_VERSION,
    C_LOGIN_ARBITER,
    S_LOGIN_ARBITER,
    S_LOADING_SCREEN_CONTROL_INFO,
    C_PONG,
    S_PING,
    C_SET_VISIBLE_RANGE,
    C_GET_USER_LIST,
}

/// The first position of `name` in the table, if the table maps any code to
/// it.
pub open spec fn spec_find_code(entries: Seq<Opcode>, name: Opcode, i: int) -> Option<int>
    decreases entries.len() - i,
{
    if i < 0 || i >= entries.len() {
        None
    } else if entries[i] == name {
        Some(i)
    } else {
        spec_find_code(entries, name, i + 1)
    }
}

/// The opcode table, loaded once at startup: the entry at a 16-bit wire
/// code is that code's opcode name.
pub struct OpcodeTable {
    entries: Vec<Opcode>,
}

impl OpcodeTable {
    /// The code-to-name mapping this table holds.
    pub closed spec fn spec_entries(&self) -> Seq<Opcode> {
        self.entries@
    }

    /// Every position of the table is addressable by a 16-bit code.
    pub open spec fn wf(&self) -> bool {
        self.spec_entries().len() <= 0x10000
    }

    /// Builds the table from the names in code order, as the opcode table
    /// file lists them.
    pub fn new(entries: Vec<Opcode>) -> (t: OpcodeTable)
        requires
            entries@.len() <= 0x10000,
        ensures
            t.wf(),
            t.spec_entries() == entries@,
    {
        OpcodeTable { entries }
    }

    /// The opcode name a wire code denotes.
    pub fn code_to_name(&self, code: u16) -> (r: Result<Opcode, Error>)
        ensures
            match r {
                Ok(name) => (code as int) < self.spec_entries().len() && name
                    == self.spec_entries()[code as int],
                Err(e) => (code as int) >= self.spec_entries().len() && e == Error::UnknownOpcode(
                    code,
                ),
            },
    {
        if (code as usize) < self.entries.len() {
            Ok(self.entries[code as usize])
        } else {
            Err(Error::UnknownOpcode(code))
        }
    }

    /// The wire code of an opcode name: the first code the table maps to
    /// it, if any.
    pub fn name_to_code(&self, name: Opcode) -> (r: Option<u16>)
        requires
            self.wf(),
        ensures
            match r {
                Some(code) => spec_find_code(self.spec_entries(), name, 0) == Some(code as int),
                None => spec_find_code(self.spec_entries(), name, 0) is None,
            },
    {
        let mut i: usize = 0;
        while i < self.entries.len()
            invariant
                self.wf(),
                i <= self.spec_entries().len(),
                spec_find_code(self.spec_entries(), name, 0) == spec_find_code(
                    self.spec_entries(),
                    name,
                    i as int,
                ),
            decreases self.spec_entries().len() - i,
        {
            if self.entries[i] == name {
                return Some(i as u16);
            }
            i = i + 1;
        }
        None
    }
}

/// A found position holds the name looked for.
proof fn lemma_find_code_hits(entries: Seq<Opcode>, name: Opcode, i: int)
    ensures
        match spec_find_code(entries, name, i) {
            Some(c) => 0 <= c < entries.len() && entries[c] == name,
            None => true,
        },
    decreases entries.len() - i,
{
    if 0 <= i < entries.len() && entries[i] != name {
        lemma_find_code_hits(entries, name, i + 1);
    }
}

/// For every opcode name the table maps: looking up the name's code and
/// mapping that code back yields the name again.
pub proof fn lemma_opcode_roundtrip(t: OpcodeTable, name: Opcode, code: int)
    requires
        t.wf(),
        spec_find_code(t.spec_entries(), name, 0) == Some(code),
    ensures
        0 <= code < t.spec_entries().len(),
        t.spec_entries()[code] == name,
{
    lemma_find_code_hits(t.spec_entries(), name, 0);
}

} // verus!
