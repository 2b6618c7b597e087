use std::collections::HashMap;
use object::{Object, ObjectSection, ObjectSymbol};
use vstd::prelude::*;
use vstd::string::StringSliceAdditionalSpecFns;
use crate::insn::Insn;
use crate::text::{occurs_at, starts_with};

verus! {

broadcast use vstd::std_specs::hash::group_hash_axioms;

/// The section flag that marks machine instructions.
pub const SHF_EXECINSTR: u64 = 0x4;

/// The architecture that a program was built for.
#[derive(Debug, Clone, Copy, PartialEq, Eq, Structural)]
pub enum Architecture {
    Riscv32,
    Riscv64,
    Other,
}

/// A section of a program file, as far as loading needs it.
#[derive(Debug, Clone, Copy, PartialEq, Eq, Structural)]
pub struct Section {
    pub index: usize,
    /// The ELF section flags; `None` in a file of another format.
    pub flags: Option<u64>,
    pub address: u64,
}

/// An entry of a program file's symbol table.
#[derive(Debug)]
pub struct Symbol {
    /// The name, where it is valid text.
    pub name: Option<String>,
    pub address: u64,
    /// The index of the section that the symbol lies in, if it lies in one.
    pub section: Option<usize>,
}

/// A symbol that names code.
#[derive(Debug)]
pub struct FunctionSymbol {
    pub name: String,
    pub address: u64,
}

/// Why the image of a program could not be loaded.
#[derive(Debug, Clone, Copy, PartialEq, Eq, Structural)]
pub enum ImageError {
    /// The file is no program file that can be read.
    UnreadableFile,
    /// The program is not built for 32-bit or 64-bit RISC-V.
    UnsupportedArchitecture,
    /// A section with instructions has no contents that can be read.
    UnreadableSection,
    /// A section with instructions ends within an instruction, or beyond
    /// the address space.
    TruncatedCode,
    /// No section holds an instruction.
    NoInstructions,
}

/// The architecture of the program file with the given bytes; `None` where
/// they are no program file.
pub uninterp spec fn architecture_of(file: Seq<u8>) -> Option<Architecture>;

/// The sections of the program file with the given bytes, in the file's
/// order; `None` where they are no program file.
pub uninterp spec fn sections_of(file: Seq<u8>) -> Option<Seq<Section>>;

/// The contents of a section of the program file with the given bytes;
/// `None` where there is no such section or its contents cannot be read.
pub uninterp spec fn section_data_of(file: Seq<u8>, index: usize) -> Option<Seq<u8>>;

/// The symbol table of the program file with the given bytes, in the
/// table's order; `None` where they are no program file.
pub uninterp spec fn symbols_of(file: Seq<u8>) -> Option<Seq<Symbol>>;

/// The instructions that a block of code holds when it is loaded at
/// `base`, each at its address.
pub uninterp spec fn disassembly(rv64: bool, code: Seq<u8>, base: u64) -> Map<u64, Insn>;

/// Whether the code from `at` on is whole instructions, one after another.
/// An instruction is two bytes long unless the two low bits of its first
/// byte are set, and four where they are.
pub open spec fn framed_from(code: Seq<u8>, at: int) -> bool
    decreases code.len() - at,
{
    if at < 0 || at > code.len() {
        false
    } else if at == code.len() {
        true
    } else if code[at] & 0x03 < 0x03 {
        at + 2 <= code.len() && framed_from(code, at + 2)
    } else {
        at + 4 <= code.len() && framed_from(code, at + 4)
    }
}

/// Whether a block of code can be disassembled at `base`: it is whole
/// instructions, and lies within the address space.
pub open spec fn loadable(code: Seq<u8>, base: u64) -> bool {
    framed_from(code, 0) && base + code.len() <= u64::MAX
}

/// Whether a section holds instructions.
pub open spec fn is_executable(section: Section) -> bool {
    section.flags matches Some(flags) && flags & SHF_EXECINSTR != 0
}

/// `object::File::parse` and `Object::architecture`: the architecture
/// that the file's header names.
#[verifier::external_body]
fn elf_architecture(file: &[u8]) -> (arch: Option<Architecture>)
    ensures
        arch == architecture_of(file@),
{
    match object::File::parse(file) {
        Ok(parsed) => Some(
            match parsed.architecture() {
                object::Architecture::Riscv32 => Architecture::Riscv32,
                object::Architecture::Riscv64 => Architecture::Riscv64,
                _ => Architecture::Other,
            },
        ),
        Err(_) => None,
    }
}

/// `object::File::parse` and `Object::sections`: each section's index,
/// flags and address.
#[verifier::external_body]
fn elf_sections(file: &[u8]) -> (sections: Option<Vec<Section>>)
    ensures
        match sections {
            Some(list) => sections_of(file@) == Some(list@),
            None => sections_of(file@) is None,
        },
{
    let parsed = object::File::parse(file).ok()?;
    let mut sections = Vec::new();
    for section in parsed.sections() {
        let flags = match section.flags() {
            object::SectionFlags::Elf { sh_flags, .. } => Some(sh_flags.0),
            _ => None,
        };
        sections.push(Section { index: section.index().0, flags, address: section.address() });
    }
    Some(sections)
}

/// `Object::section_by_index` and `ObjectSection::data`: the bytes of a
/// section.
#[verifier::external_body]
fn elf_section_data(file: &[u8], index: usize) -> (data: Option<Vec<u8>>)
    ensures
        match data {
            Some(bytes) => section_data_of(file@, index) == Some(bytes@),
            None => section_data_of(file@, index) is None,
        },
{
    let parsed = object::File::parse(file).ok()?;
    let section = parsed.section_by_index(object::SectionIndex(index)).ok()?;
    match section.data() {
        Ok(bytes) => Some(bytes.to_vec()),
        Err(_) => None,
    }
}

/// `object::File::parse` and `Object::symbols`: each symbol's name,
/// address and section.
#[verifier::external_body]
fn elf_symbols(file: &[u8]) -> (symbols: Option<Vec<Symbol>>)
    ensures
        match symbols {
            Some(list) => symbols_of(file@) == Some(list@),
            None => symbols_of(file@) is None,
        },
{
    let parsed = object::File::parse(file).ok()?;
    let mut symbols = Vec::new();
    for symbol in parsed.symbols() {
        let name = match symbol.name() {
            Ok(name) => Some(name.to_string()),
            Err(_) => None,
        };
        let section = match symbol.section_index() {
            Some(index) => Some(index.0),
            None => None,
        };
        symbols.push(Symbol { name, address: symbol.address(), section });
    }
    Some(symbols)
}

/// `Disassembler::disassemble_all`: adds the instructions of a block of
/// code to the image, each under its address. Where the image has an
/// instruction at one of these addresses, the new one takes its place.
#[verifier::external_body]
fn disassemble_into(insn_map: &mut HashMap<u64, Insn>, rv64: bool, code: &[u8], base: u64)
    requires
        loadable(code@, base),
    ensures
        final(insn_map)@ == old(insn_map)@.union_prefer_right(disassembly(rv64, code@, base)),
{
    let xlen = if rv64 { rvdasm::disassembler::Xlen::XLEN64 } else { rvdasm::disassembler::Xlen::XLEN32 };
    for (addr, insn) in rvdasm::disassembler::Disassembler::new(xlen).disassemble_all(code, base) {
        let imm = match insn.get_imm() { Some(arg) => Some(arg.get_val_signed_imm()), None => None };
        insn_map.insert(addr, Insn {
            len: insn.get_len(),
            is_branch: insn.is_branch(),
            is_direct_jump: insn.is_direct_jump(),
            is_indirect_jump: insn.is_indirect_jump(),
            imm,
            name: insn.get_name().to_string(),
            text: insn.to_string(),
        });
    }
}

/// Tells whether a block of code is whole instructions, one after another.
pub fn is_framed(code: &[u8]) -> (framed: bool)
    ensures
        framed == framed_from(code@, 0),
{
    let mut at: usize = 0;
    while at < code.len()
        invariant
            at <= code.len(),
            framed_from(code@, 0) == framed_from(code@, at as int),
        decreases code.len() - at,
    {
        let len: usize = if code[at] & 0x03 < 0x03 {
            2
        } else {
            4
        };
        if len > code.len() - at {
            return false;
        }
        at += len;
    }
    true
}

/// The image after the first `count` sections were loaded.
pub open spec fn image_upto(rv64: bool, file: Seq<u8>, sections: Seq<Section>, count: nat) -> Result<
    Map<u64, Insn>,
    ImageError,
>
    decreases count,
{
    if count == 0 {
        Ok(Map::empty())
    } else {
        let section = sections[count - 1];
        match image_upto(rv64, file, sections, (count - 1) as nat) {
            Err(e) => Err(e),
            Ok(image) => if !is_executable(section) {
                Ok(image)
            } else {
                match section_data_of(file, section.index) {
                    None => Err(ImageError::UnreadableSection),
                    Some(code) => if !loadable(code, section.address) {
                        Err(ImageError::TruncatedCode)
                    } else {
                        Ok(image.union_prefer_right(disassembly(rv64, code, section.address)))
                    },
                }
            },
        }
    }
}

/// The image of the program file with the given bytes: the instructions
/// of its executable sections, each at its address.
pub open spec fn image_of(file: Seq<u8>) -> Result<Map<u64, Insn>, ImageError> {
    match (architecture_of(file), sections_of(file)) {
        (Some(arch), Some(sections)) => if arch == Architecture::Other {
            Err(ImageError::UnsupportedArchitecture)
        } else {
            match image_upto(arch == Architecture::Riscv64, file, sections, sections.len()) {
                Err(e) => Err(e),
                Ok(image) => if image.len() == 0 {
                    Err(ImageError::NoInstructions)
                } else {
                    Ok(image)
                },
            }
        },
        _ => Err(ImageError::UnreadableFile),
    }
}

/// Loads the image of a program from the bytes of its file: disassembles
/// every executable section at its address.
pub fn load_image(file: &[u8]) -> (result: Result<HashMap<u64, Insn>, ImageError>)
    ensures
        match result {
            Ok(insn_map) => image_of(file@) == Ok::<Map<u64, Insn>, ImageError>(insn_map@),
            Err(e) => image_of(file@) == Err::<Map<u64, Insn>, ImageError>(e),
        },
{
    let arch = match elf_architecture(file) {
        Some(arch) => arch,
        None => {
            return Err(ImageError::UnreadableFile);
        },
    };
    let sections = match elf_sections(file) {
        Some(sections) => sections,
        None => {
            return Err(ImageError::UnreadableFile);
        },
    };
    let rv64 = match arch {
        Architecture::Riscv64 => true,
        Architecture::Riscv32 => false,
        Architecture::Other => {
            return Err(ImageError::UnsupportedArchitecture);
        },
    };
    let mut insn_map: HashMap<u64, Insn> = HashMap::new();
    let mut loaded: usize = 0;
    while loaded < sections.len()
        invariant
            loaded <= sections@.len(),
            image_upto(rv64, file@, sections@, loaded as nat) == Ok::<Map<u64, Insn>, ImageError>(
                insn_map@,
            ),
            rv64 == (arch == Architecture::Riscv64),
            arch != Architecture::Other,
            architecture_of(file@) == Some(arch),
            sections_of(file@) == Some(sections@),
        decreases sections@.len() - loaded,
    {
        let section = &sections[loaded];
        loaded += 1;
        let executable = match section.flags {
            Some(flags) => flags & SHF_EXECINSTR != 0,
            None => false,
        };
        if executable {
            let code = match elf_section_data(file, section.index) {
                Some(code) => code,
                None => {
                    proof {
                        lemma_image_error_stays(rv64, file@, sections@, loaded as nat, sections@.len());
                    }
                    return Err(ImageError::UnreadableSection);
                },
            };
            if !is_framed(code.as_slice()) || code.len() as u64 > u64::MAX - section.address {
                proof {
                    lemma_image_error_stays(rv64, file@, sections@, loaded as nat, sections@.len());
                }
                return Err(ImageError::TruncatedCode);
            }
            disassemble_into(&mut insn_map, rv64, code.as_slice(), section.address);
        }
    }
    if insn_map.len() == 0 {
        return Err(ImageError::NoInstructions);
    }
    Ok(insn_map)
}

/// Whether the section with the given index holds instructions.
pub open spec fn in_executable_section(sections: Seq<Section>, index: usize) -> bool {
    exists|i: int|
        0 <= i < sections.len() && (#[trigger] sections[i]).index == index && is_executable(
            sections[i],
        )
}

/// Whether a symbol names code: it lies in a section with instructions,
/// and has a name that does not mark it as a mapping symbol.
pub open spec fn names_function(sections: Seq<Section>, symbol: Symbol) -> bool {
    &&& symbol.section matches Some(index) && in_executable_section(sections, index)
    &&& symbol.name matches Some(name) && !occurs_at(
        "$x".spec_bytes(),
        vstd::utf8::encode_utf8(name@),
        0,
    )
}

/// Those of the symbols that name code, in the order of the table.
pub open spec fn function_symbols_of(sections: Seq<Section>, symbols: Seq<Symbol>) -> Seq<
    FunctionSymbol,
>
    decreases symbols.len(),
{
    if symbols.len() == 0 {
        seq![]
    } else {
        let rest = function_symbols_of(sections, symbols.drop_last());
        if names_function(sections, symbols.last()) {
            rest.push(
                FunctionSymbol {
                    name: symbols.last().name.unwrap(),
                    address: symbols.last().address,
                },
            )
        } else {
            rest
        }
    }
}

/// Tells whether the section with the given index holds instructions.
fn section_is_executable(sections: &Vec<Section>, index: usize) -> (found: bool)
    ensures
        found == in_executable_section(sections@, index),
{
    let mut at: usize = 0;
    while at < sections.len()
        invariant
            at <= sections@.len(),
            forall|i: int|
                0 <= i < at ==> !((#[trigger] sections@[i]).index == index && is_executable(
                    sections@[i],
                )),
        decreases sections@.len() - at,
    {
        let section = &sections[at];
        let executable = match section.flags {
            Some(flags) => flags & SHF_EXECINSTR != 0,
            None => false,
        };
        if section.index == index && executable {
            return true;
        }
        at += 1;
    }
    false
}

/// Reads from the bytes of a program file the symbols that name code, in
/// the order of the symbol table.
pub fn function_symbols(file: &[u8]) -> (result: Result<Vec<FunctionSymbol>, ImageError>)
    ensures
        match (sections_of(file@), symbols_of(file@)) {
            (Some(sections), Some(symbols)) => result matches Ok(found) && found@
                == function_symbols_of(sections, symbols),
            _ => result matches Err(e) && e == ImageError::UnreadableFile,
        },
{
    let sections = match elf_sections(file) {
        Some(sections) => sections,
        None => {
            return Err(ImageError::UnreadableFile);
        },
    };
    let symbols = match elf_symbols(file) {
        Some(symbols) => symbols,
        None => {
            return Err(ImageError::UnreadableFile);
        },
    };
    let mut found: Vec<FunctionSymbol> = Vec::new();
    let mut at: usize = 0;
    while at < symbols.len()
        invariant
            at <= symbols@.len(),
            found@ == function_symbols_of(sections@, symbols@.take(at as int)),
        decreases symbols@.len() - at,
    {
        let symbol = &symbols[at];
        proof {
            assert(symbols@.take(at + 1).drop_last() =~= symbols@.take(at as int));
        }
        let in_code = match symbol.section {
            Some(index) => section_is_executable(&sections, index),
            None => false,
        };
        if in_code {
            match &symbol.name {
                Some(name) => {
                    if !starts_with(name.as_str(), "$x") {
                        found.push(FunctionSymbol { name: name.clone(), address: symbol.address });
                    }
                },
                None => {},
            }
        }
        at += 1;
    }
    assert(symbols@.take(at as int) =~= symbols@);
    Ok(found)
}

/// Once loading has failed at a section, it has failed for good.
proof fn lemma_image_error_stays(
    rv64: bool,
    file: Seq<u8>,
    sections: Seq<Section>,
    failed: nat,
    count: nat,
)
    requires
        failed <= count,
        image_upto(rv64, file, sections, failed) is Err,
    ensures
        image_upto(rv64, file, sections, count) == image_upto(rv64, file, sections, failed),
    decreases count,
{
    if failed < count {
        lemma_image_error_stays(rv64, file, sections, failed, (count - 1) as nat);
    }
}

} // verus!
