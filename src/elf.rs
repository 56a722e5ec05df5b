//! The identification bytes at the start of an ELF file.

use vstd::prelude::*;

verus! {

/// The byte that gives the word size.
pub const ELF_FORMAT_OFFSET: usize = 4;
/// The byte that gives the byte order.
pub const ELF_ENDIAN_OFFSET: usize = 5;
pub const ELF_FORMAT_32BIT: u8 = 1;
pub const ELF_FORMAT_64BIT: u8 = 2;
pub const ELF_ENDIAN_LITTLE: u8 = 1;
pub const ELF_ENDIAN_BIG: u8 = 2;

/// The failure of a parse.
#[derive(Clone, Copy, Debug, PartialEq, Eq, Structural)]
pub enum Error {
    Fatal,
}

/// The word size of an ELF file.
#[derive(Clone, Copy, Debug, PartialEq, Eq, Structural)]
pub enum ElfFormat {
    Unknown,
    Bit32,
    Bit64,
}

/// The byte order of an ELF file.
#[derive(Clone, Copy, Debug, PartialEq, Eq, Structural)]
pub enum ElfEndian {
    Unknown,
    Little,
    Big,
}

/// The kind of an ELF file.
#[derive(Clone, Copy, Debug, PartialEq, Eq, Structural)]
pub enum ElfFileType {
    Unknown,
    Relocatable,
    Executable,
    Shared,
    Core,
    Specific,
}

/// The identification fields of an ELF file.
#[derive(Clone, Copy, Debug, PartialEq, Eq, Structural)]
pub struct ElfId {
    pub magick: u32,
    pub format: ElfFormat,
    pub endian: ElfEndian,
    pub version: u8,
    pub osabi: u8,
    pub abi_version: u8,
}

/// The header of a 32-bit ELF file.
#[derive(Clone, Copy, Debug, PartialEq, Eq, Structural)]
pub struct Elf32Header {
    pub ftype: ElfFileType,
    pub machine: u16,
    pub is_valid_version: bool,
    pub entry: u32,
    pub segmenttbl: u32,
    pub sectiontbl: u32,
    pub flags: u32,
    pub hdrlen: u16,
    pub segmentlen: u16,
    pub segmentnr: u16,
    pub sectionlen: u16,
    pub sectionnr: u16,
    pub sectionnametbl: u16,
}

/// The header of a 64-bit ELF file.
#[derive(Clone, Copy, Debug, PartialEq, Eq, Structural)]
pub struct Elf64Header {
    pub ftype: ElfFileType,
    pub machine: u16,
    pub is_valid_version: bool,
    pub entry: u64,
    pub segmenttbl: u64,
    pub sectiontbl: u64,
    pub flags: u32,
    pub hdrlen: u16,
    pub segmentlen: u16,
    pub segmentnr: u16,
    pub sectionlen: u16,
    pub sectionnr: u16,
    pub sectionnametbl: u16,
}

/// The header of an ELF file of either word size.
#[derive(Clone, Copy, Debug, PartialEq, Eq, Structural)]
pub enum ElfHeader {
    Bit32(Elf32Header),
    Bit64(Elf64Header),
}

/// The big-endian number in the first four bytes of `b`.
pub open spec fn be_u32(b: Seq<u8>) -> int {
    b[0] * 0x100_0000 + b[1] * 0x1_0000 + b[2] * 0x100 + b[3]
}

/// The word size that the format byte `b` names.
pub open spec fn format_of(b: u8) -> Option<ElfFormat> {
    if b == ELF_FORMAT_32BIT {
        Some(ElfFormat::Bit32)
    } else if b == ELF_FORMAT_64BIT {
        Some(ElfFormat::Bit64)
    } else {
        None
    }
}

/// The byte order that the byte `b` names.
pub open spec fn endian_of(b: u8) -> Option<ElfEndian> {
    if b == ELF_ENDIAN_LITTLE {
        Some(ElfEndian::Little)
    } else if b == ELF_ENDIAN_BIG {
        Some(ElfEndian::Big)
    } else {
        None
    }
}

/// Reads the identification of an ELF file from its first bytes.
pub struct ElfParser {
    id: ElfId,
    hdr: ElfHeader,
}

impl ElfParser {
    pub closed spec fn spec_id(&self) -> ElfId {
        self.id
    }

    pub closed spec fn spec_hdr(&self) -> ElfHeader {
        self.hdr
    }

    /// A parser that has read nothing: every field zero or unknown, and an
    /// empty 64-bit header.
    pub fn new() -> (r: Self)
        ensures
            r.spec_id() == (ElfId {
                magick: 0,
                format: ElfFormat::Unknown,
                endian: ElfEndian::Unknown,
                version: 0,
                osabi: 0,
                abi_version: 0,
            }),
            r.spec_hdr() is Bit64,
    {
        Self {
            id: ElfId {
                magick: 0,
                format: ElfFormat::Unknown,
                endian: ElfEndian::Unknown,
                version: 0,
                osabi: 0,
                abi_version: 0,
            },
            hdr: ElfHeader::Bit64(Elf64Header {
                ftype: ElfFileType::Unknown,
                machine: 0,
                is_valid_version: false,
                entry: 0,
                segmenttbl: 0,
                sectiontbl: 0,
                flags: 0,
                hdrlen: 0,
                segmentlen: 0,
                segmentnr: 0,
                sectionlen: 0,
                sectionnr: 0,
                sectionnametbl: 0,
            }),
        }
    }

    /// Reads the magic number, the word size and the byte order from the
    /// start of `data`. The fields are taken in that order, and an unknown
    /// word size or byte order stops the read with an error, keeping what
    /// was read before it.
    pub fn pull(&mut self, data: &[u8]) -> (r: Result<(), Error>)
        requires
            data@.len() > ELF_ENDIAN_OFFSET,
        ensures
            final(self).spec_hdr() == old(self).spec_hdr(),
            final(self).spec_id().magick == be_u32(data@),
            final(self).spec_id().version == old(self).spec_id().version,
            final(self).spec_id().osabi == old(self).spec_id().osabi,
            final(self).spec_id().abi_version == old(self).spec_id().abi_version,
            format_of(data@[4]) is None ==> r == Err::<(), Error>(Error::Fatal)
                && final(self).spec_id().format == old(self).spec_id().format
                && final(self).spec_id().endian == old(self).spec_id().endian,
            format_of(data@[4]) is Some ==> final(self).spec_id().format == format_of(data@[4])->0,
            format_of(data@[4]) is Some && endian_of(data@[5]) is None ==> r == Err::<(), Error>(Error::Fatal)
                && final(self).spec_id().endian == old(self).spec_id().endian,
            format_of(data@[4]) is Some && endian_of(data@[5]) is Some ==> r == Ok::<(), Error>(())
                && final(self).spec_id().endian == endian_of(data@[5])->0,
    {
        self.id.magick = (data[0] as u32) * 0x100_0000 + (data[1] as u32) * 0x1_0000 + (data[2] as u32) * 0x100
            + (data[3] as u32);

        self.id.format = match data[ELF_FORMAT_OFFSET] {
            ELF_FORMAT_32BIT => ElfFormat::Bit32,
            ELF_FORMAT_64BIT => ElfFormat::Bit64,
            _ => return Err(Error::Fatal),
        };

        self.id.endian = match data[ELF_ENDIAN_OFFSET] {
            ELF_ENDIAN_LITTLE => ElfEndian::Little,
            ELF_ENDIAN_BIG => ElfEndian::Big,
            _ => return Err(Error::Fatal),
        };

        Ok(())
    }

    pub fn get_hdr(&self) -> (r: &ElfHeader)
        ensures
            *r == self.spec_hdr(),
    {
        &self.hdr
    }

    pub fn get_id(&self) -> (r: &ElfId)
        ensures
            *r == self.spec_id(),
    {
        &self.id
    }
}

} // verus!
