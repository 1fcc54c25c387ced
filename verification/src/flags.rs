//! Configuration handed to both assembler passes.

use vstd::prelude::*;

verus! {

/// Where the `.data` section is placed: immediately after the `.text`
/// section, or at a fixed absolute address.
#[derive(Debug, Clone, Copy, PartialEq, Eq, Structural)]
pub enum DataSectionStart {
    AfterText,
    Absolute(u16),
}

/// The assembler's configuration.
#[derive(Debug, Clone, Copy, PartialEq, Eq, Structural)]
pub struct Flags {
    pub text_section_start: u16,
    pub data_section_start: DataSectionStart,
    pub auto_align_words: bool,
    pub auto_align_sections: bool,
}

impl Flags {
    /// The default configuration: `.text` at address 0, `.data` right after
    /// it, no automatic alignment.
    pub open spec fn default_spec() -> Flags {
        Flags {
            text_section_start: 0,
            data_section_start: DataSectionStart::AfterText,
            auto_align_words: false,
            auto_align_sections: false,
        }
    }
}

impl Default for Flags {
    fn default() -> (r: Self)
        ensures
            r == Flags::default_spec(),
    {
        Flags {
            text_section_start: 0,
            data_section_start: DataSectionStart::AfterText,
            auto_align_words: false,
            auto_align_sections: false,
        }
    }
}

} // verus!
