use vstd::prelude::*;
use crate::bytes::{le_u16, le_u32, le_u64, read_u16_le, read_u32_le, read_u64_le};
use crate::error::Error;

verus! {

/// What a section of an executable is for.
#[derive(Clone, Copy, Debug, PartialEq, Eq, Structural)]
pub enum SectionType {
    Load,
    Dynamic,
    Interpreter,
}

/// A section of an executable: where it lies in the file and in memory.
#[derive(Clone, Copy, Debug, PartialEq, Eq, Structural)]
pub struct Section {
    pub section_type: SectionType,
    pub file_offset: u64,
    pub size_in_file: usize,
    pub virt_address: usize,
    pub size_in_memory: usize,
}

/// What loading an executable yields: its file, its entry point, its
/// sections.
pub struct ExecutableInfo {
    pub file_handle: u32,
    pub virt_entry_point: usize,
    pub sections: Vec<Section>,
}

/// The bytes of an ELF header that the loader reads.
pub const ELF_HEADER_SIZE: usize = 64;

/// The size of the part of a 64-bit program header that the loader reads.
pub const PROGRAM_HEADER_SIZE: usize = 56;

/// The ELF magic number, read little-endian.
pub const ELF_SIGNATURE: u32 = 0x464C457F;

/// Whether an ELF header is one the loader accepts: the ELF magic number and
/// the 64-bit class.
pub open spec fn elf_accepted(h: Seq<u8>) -> bool {
    le_u32(h, 0) == ELF_SIGNATURE && h[4] == 2
}

/// The entry point of a 64-bit ELF header.
pub open spec fn elf_entry(h: Seq<u8>) -> int {
    le_u64(h, 24)
}

/// The file offset of the program header table.
pub open spec fn elf_ph_offset(h: Seq<u8>) -> int {
    le_u64(h, 32)
}

/// The size of one program header.
pub open spec fn elf_ph_entry_size(h: Seq<u8>) -> int {
    le_u16(h, 54)
}

/// The number of program headers.
pub open spec fn elf_ph_count(h: Seq<u8>) -> int {
    le_u16(h, 56)
}

/// Whether the program header at `off` describes a loadable segment.
pub open spec fn ph_is_load(t: Seq<u8>, off: int) -> bool {
    le_u32(t, off) == 1
}

/// The section that the loadable program header at `off` describes.
pub open spec fn ph_section(t: Seq<u8>, off: int) -> Section {
    Section {
        section_type: SectionType::Load,
        file_offset: le_u64(t, off + 8) as u64,
        size_in_file: le_u64(t, off + 32) as usize,
        virt_address: le_u64(t, off + 16) as usize,
        size_in_memory: le_u64(t, off + 40) as usize,
    }
}

/// The sections of the loadable headers among the first `n` of a table of
/// `size`-byte headers, in order.
pub open spec fn load_sections(t: Seq<u8>, size: int, n: int) -> Seq<Section>
    decreases n,
{
    if n <= 0 {
        Seq::empty()
    } else if ph_is_load(t, (n - 1) * size) {
        load_sections(t, size, n - 1).push(ph_section(t, (n - 1) * size))
    } else {
        load_sections(t, size, n - 1)
    }
}

/// What loading needs of the bytes read from the file: a whole ELF header,
/// and for an accepted one program headers of at least the part the loader
/// reads, a table whose last header starts within 16 bits, and the whole
/// table.
pub open spec fn elf_input_ok(header: Seq<u8>, program_headers: Seq<u8>) -> bool {
    &&& header.len() >= ELF_HEADER_SIZE
    &&& elf_accepted(header) ==> {
        &&& elf_ph_entry_size(header) >= PROGRAM_HEADER_SIZE
        &&& elf_ph_count(header) == 0 || (elf_ph_count(header) - 1) * elf_ph_entry_size(header)
            <= u16::MAX
        &&& program_headers.len() >= elf_ph_entry_size(header) * elf_ph_count(header)
    }
}

/// Whether `r` is what loading the executable in file `handle` gives: the
/// file's entry point and one section per loadable program header, in
/// order, for an accepted header; `InvalidExecutable` for any other.
pub open spec fn elf_loaded(
    handle: u32,
    header: Seq<u8>,
    program_headers: Seq<u8>,
    r: Result<ExecutableInfo, Error>,
) -> bool {
    &&& r is Ok <==> elf_accepted(header)
    &&& r is Err ==> r == Err::<ExecutableInfo, Error>(Error::InvalidExecutable)
    &&& r matches Ok(info) ==> {
        &&& info.file_handle == handle
        &&& info.virt_entry_point == elf_entry(header) as usize
        &&& info.sections@ == load_sections(
            program_headers,
            elf_ph_entry_size(header),
            elf_ph_count(header),
        )
    }
}

/// Reads ELF executables.
pub struct ELFLoader {}

impl ELFLoader {
    /// Where the program header table lies in the file: its offset and its
    /// length.
    pub fn program_header_table(header: &[u8]) -> (r: (u64, usize))
        requires
            header@.len() >= ELF_HEADER_SIZE,
        ensures
            r.0 == elf_ph_offset(header@),
            r.1 == elf_ph_entry_size(header@) * elf_ph_count(header@),
    {
        let size = read_u16_le(header, 54) as usize;
        let count = read_u16_le(header, 56) as usize;
        proof {
            crate::bytes::lemma_mul_le(size as int, count as int, 0xFFFF, 0xFFFF);
        }
        (read_u64_le(header, 32), size * count)
    }

    /// The executable in file `handle`, whose ELF header is `header` and whose
    /// program header table is `program_headers`: its entry point and one
    /// section per loadable program header, in order.  Files without the ELF
    /// magic number or not of the 64-bit class are refused.
    pub fn load_executable(handle: u32, header: &[u8], program_headers: &[u8]) -> (r: Result<
        ExecutableInfo,
        Error,
    >)
        requires
            elf_input_ok(header@, program_headers@),
        ensures
            elf_loaded(handle, header@, program_headers@, r),
    {
        if read_u32_le(header, 0) != ELF_SIGNATURE {
            return Err(Error::InvalidExecutable);
        }
        if header[4] != 2 {
            return Err(Error::InvalidExecutable);
        }
        let entry_point = read_u64_le(header, 24) as usize;
        let entry_size = read_u16_le(header, 54);
        let entry_count = read_u16_le(header, 56);
        let ghost size = entry_size as int;
        let mut sections: Vec<Section> = Vec::new();
        let mut i: u16 = 0;
        while i < entry_count
            invariant
                i <= entry_count,
                size == entry_size,
                size >= PROGRAM_HEADER_SIZE,
                entry_count == 0 || (entry_count - 1) * size <= u16::MAX,
                program_headers@.len() >= size * entry_count,
                sections@ == load_sections(program_headers@, size, i as int),
            decreases entry_count - i,
        {
            proof {
                assert(i * size <= (entry_count - 1) * size && i * size + size <= size
                    * entry_count && i * size == size * i) by (nonlinear_arith)
                    requires
                        i < entry_count,
                        size >= 0,
                ;
            }
            let off = (i * entry_size) as usize;
            if read_u32_le(program_headers, off) == 1 {
                sections.push(
                    Section {
                        section_type: SectionType::Load,
                        file_offset: read_u64_le(program_headers, off + 8),
                        size_in_file: read_u64_le(program_headers, off + 32) as usize,
                        virt_address: read_u64_le(program_headers, off + 16) as usize,
                        size_in_memory: read_u64_le(program_headers, off + 40) as usize,
                    },
                );
            }
            i = i + 1;
        }
        Ok(ExecutableInfo { file_handle: handle, virt_entry_point: entry_point, sections })
    }
}

/// Loads executables of the formats the kernel knows, which is ELF.
pub struct ExecutableLoader {}

impl ExecutableLoader {
    /// The executable in file `handle`, read as an ELF file.
    pub fn load_executable(handle: u32, header: &[u8], program_headers: &[u8]) -> (r: Result<
        ExecutableInfo,
        Error,
    >)
        requires
            elf_input_ok(header@, program_headers@),
        ensures
            elf_loaded(handle, header@, program_headers@, r),
    {
        ELFLoader::load_executable(handle, header, program_headers)
    }
}

/// Loading an executable has one outcome for given bytes: two results that
/// both meet `elf_loaded` for the same file and bytes agree, so
/// `ExecutableLoader::load_executable` gives what `ELFLoader::load_executable`
/// gives.
pub proof fn lemma_load_deterministic(
    handle: u32,
    header: Seq<u8>,
    program_headers: Seq<u8>,
    r1: Result<ExecutableInfo, Error>,
    r2: Result<ExecutableInfo, Error>,
)
    requires
        elf_loaded(handle, header, program_headers, r1),
        elf_loaded(handle, header, program_headers, r2),
    ensures
        r1 is Ok <==> r2 is Ok,
        r1 is Err ==> r1 == r2,
        r1 matches Ok(i1) ==> r2 matches Ok(i2) && i1.file_handle == i2.file_handle
            && i1.virt_entry_point == i2.virt_entry_point && i1.sections@ == i2.sections@,
{
}

} // verus!
