//! How the loader places the kernel: the ELF image is parsed, its first
//! loadable segment names the physical address and the number of 4 KiB pages
//! to reserve, and the image's entry point is where control goes.

use vstd::prelude::*;
use vstd::arithmetic::div_mod::{lemma_fundamental_div_mod, lemma_fundamental_div_mod_converse};

verus! {

/// Program header type of a loadable segment.
pub const PT_LOAD: u32 = 1;

/// Size of a page the firmware hands out.
pub const PAGE_SIZE: usize = 0x1000;

/// The fields of an ELF program header that the loader reads.
#[derive(Clone, Copy, Debug, PartialEq, Eq, Structural)]
pub struct ProgramHeader {
    pub p_type: u32,
    pub p_paddr: u64,
    pub p_memsz: u64,
}

/// What the loader reads of a parsed ELF image.
#[derive(Debug)]
pub struct ElfImage {
    pub entry: u64,
    pub program_headers: Vec<ProgramHeader>,
}

/// Where and how the kernel image is to be placed, and where it starts.
#[derive(Clone, Copy, Debug, PartialEq, Eq, Structural)]
pub struct KernelLoad {
    pub load_address: u64,
    pub pages: usize,
    pub entry: u64,
}

/// Why no load plan could be made for a kernel image.
#[derive(Clone, Copy, Debug, PartialEq, Eq, Structural)]
pub enum LoadError {
    /// The bytes are not an ELF image the parser accepts.
    Parse,
    /// The image has no loadable segment.
    NoLoadSegment,
    /// The first loadable segment's size overflows when rounded up to whole pages.
    SegmentTooLarge,
}

#[verifier::external_type_specification]
#[verifier::external_body]
pub struct ExGoblinError(goblin::error::Error);

/// What goblin's ELF parser makes of `bytes`: the entry point and the program
/// headers of the image, or nothing when it refuses the bytes.
pub uninterp spec fn goblin_elf_parse(bytes: Seq<u8>) -> Option<(u64, Seq<ProgramHeader>)>;

/// Parses `bytes` with `goblin::elf::Elf::parse` and keeps the entry point and,
/// of each program header, its type, physical address and size in memory.
/// Trusted: the parse succeeds exactly when the name `goblin_elf_parse` gives
/// a result, and the kept fields are that result. That the parser returns
/// rather than panics on every input is not shown here.
#[verifier::external_body]
fn parse_elf(bytes: &[u8]) -> (r: Result<ElfImage, goblin::error::Error>)
    ensures
        r is Ok <==> goblin_elf_parse(bytes@) is Some,
        r matches Ok(img) ==> goblin_elf_parse(bytes@) == Some((img.entry, img.program_headers@)),
{
    let elf = goblin::elf::Elf::parse(bytes)?;
    let program_headers = elf.program_headers.iter().map(
        |h| ProgramHeader { p_type: h.p_type, p_paddr: h.p_paddr, p_memsz: h.p_memsz },
    ).collect();
    Ok(ElfImage { entry: elf.entry, program_headers })
}

/// `i` is the index of the first loadable segment of `hs`.
pub open spec fn is_first_load(hs: Seq<ProgramHeader>, i: int) -> bool {
    &&& 0 <= i < hs.len()
    &&& hs[i].p_type == PT_LOAD
    &&& forall|j: int| 0 <= j < i ==> #[trigger] hs[j].p_type != PT_LOAD
}

/// `hs` has a loadable segment.
pub open spec fn has_load(hs: Seq<ProgramHeader>) -> bool {
    exists|i: int| 0 <= i < hs.len() && #[trigger] hs[i].p_type == PT_LOAD
}

/// The index of the first loadable segment of `hs`.
pub open spec fn first_load(hs: Seq<ProgramHeader>) -> int {
    choose|i: int| is_first_load(hs, i)
}

/// Number of whole pages that hold `size` bytes.
pub open spec fn pages_of(size: int) -> int {
    (size + PAGE_SIZE - 1) / PAGE_SIZE as int
}

/// The load plan for an image with entry point `entry` and program headers
/// `hs`: the first loadable segment goes at its physical address, on as many
/// pages as its size in memory needs.
pub open spec fn load_plan(entry: u64, hs: Seq<ProgramHeader>) -> Result<KernelLoad, LoadError> {
    if !has_load(hs) {
        Err(LoadError::NoLoadSegment)
    } else {
        let h = hs[first_load(hs)];
        if (h.p_memsz as usize) + PAGE_SIZE > usize::MAX {
            Err(LoadError::SegmentTooLarge)
        } else {
            Ok(KernelLoad {
                load_address: h.p_paddr,
                pages: pages_of((h.p_memsz as usize) as int) as usize,
                entry,
            })
        }
    }
}

/// There is at most one first loadable segment.
proof fn lemma_first_load_unique(hs: Seq<ProgramHeader>, i: int, j: int)
    requires
        is_first_load(hs, i),
        is_first_load(hs, j),
    ensures
        i == j,
{
    if i < j {
        assert(hs[i].p_type != PT_LOAD);
    } else if j < i {
        assert(hs[j].p_type != PT_LOAD);
    }
}

/// Index of the first loadable segment among `headers`, if there is one.
pub fn find_load_segment(headers: &Vec<ProgramHeader>) -> (r: Option<usize>)
    ensures
        r is None <==> !has_load(headers@),
        r matches Some(i) ==> is_first_load(headers@, i as int),
        r is None ==> forall|j: int| 0 <= j < headers@.len() ==> #[trigger] headers@[j].p_type != 1,
        r matches Some(i) ==> {
            &&& i < headers@.len()
            &&& headers@[i as int].p_type == 1
            &&& forall|j: int| 0 <= j < i ==> #[trigger] headers@[j].p_type != 1
        },
{
    let mut i: usize = 0;
    while i < headers.len()
        invariant
            i <= headers@.len(),
            forall|j: int| 0 <= j < i ==> #[trigger] headers@[j].p_type != PT_LOAD,
        decreases headers@.len() - i,
    {
        if headers[i].p_type == PT_LOAD {
            return Some(i);
        }
        i += 1;
    }
    None
}

/// Number of 4 KiB pages that hold `size` bytes.
pub fn pages_for(size: usize) -> (n: usize)
    requires
        size + PAGE_SIZE <= usize::MAX,
    ensures
        n == pages_of(size as int),
        n == (size + 0x1000 - 1) / 0x1000,
{
    (size + PAGE_SIZE - 1) / PAGE_SIZE
}

/// The load plan of a parsed image: the first loadable segment's physical
/// address and page count, and the image's entry point.
pub fn plan_load(image: &ElfImage) -> (r: Result<KernelLoad, LoadError>)
    ensures
        r == load_plan(image.entry, image.program_headers@),
{
    match find_load_segment(&image.program_headers) {
        None => Err(LoadError::NoLoadSegment),
        Some(i) => {
            proof {
                lemma_first_load_unique(image.program_headers@, i as int, first_load(image.program_headers@));
            }
            let h = image.program_headers[i];
            let memsz = h.p_memsz as usize;
            if memsz > usize::MAX - PAGE_SIZE {
                Err(LoadError::SegmentTooLarge)
            } else {
                Ok(KernelLoad { load_address: h.p_paddr, pages: pages_for(memsz), entry: image.entry })
            }
        }
    }
}

/// Parses the kernel image `bytes` and makes its load plan.
pub fn load_kernel(bytes: &[u8]) -> (r: Result<KernelLoad, LoadError>)
    ensures
        match goblin_elf_parse(bytes@) {
            None => r == Err::<KernelLoad, LoadError>(LoadError::Parse),
            Some((entry, hs)) => r == load_plan(entry, hs),
        },
{
    match parse_elf(bytes) {
        Ok(image) => plan_load(&image),
        Err(_) => Err(LoadError::Parse),
    }
}

/// The page count of a segment is the least number of whole pages that hold it.
pub proof fn lemma_pages_cover(size: int)
    requires
        size >= 0,
    ensures
        pages_of(size) * PAGE_SIZE >= size,
        (pages_of(size) - 1) * PAGE_SIZE < size || size == 0,
        size == 0 ==> pages_of(size) == 0,
{
    let p = PAGE_SIZE as int;
    lemma_fundamental_div_mod(size + p - 1, p);
    let q = (size + p - 1) / p;
    let r = (size + p - 1) % p;
    assert(0 <= r < p);
    assert(q * p >= size) by (nonlinear_arith)
        requires size + p - 1 == p * q + r, r < p;
    assert((q - 1) * p < size || size == 0) by (nonlinear_arith)
        requires size + p - 1 == p * q + r, 0 <= r, p == 4096, size >= 0;
    if size == 0 {
        lemma_fundamental_div_mod_converse(p - 1, p, 0, p - 1);
    }
}

/// The plan is made from the first loadable segment (the first program header
/// of type 1): its physical address is the load address, its size in memory
/// rounded up to 4 KiB pages is the page count, and the entry point is the
/// image's; when that rounding overflows, the plan is refused as too large.
pub proof fn lemma_plan_from_first_load(entry: u64, hs: Seq<ProgramHeader>, i: int)
    requires
        0 <= i < hs.len(),
        hs[i].p_type == 1,
        forall|j: int| 0 <= j < i ==> #[trigger] hs[j].p_type != 1,
    ensures
        (hs[i].p_memsz as usize) + 0x1000 <= usize::MAX ==> load_plan(entry, hs) == Ok::<KernelLoad, LoadError>(
            KernelLoad {
                load_address: hs[i].p_paddr,
                pages: (((hs[i].p_memsz as usize) + 0x1000 - 1) / 0x1000) as usize,
                entry,
            },
        ),
        (hs[i].p_memsz as usize) + 0x1000 > usize::MAX ==> load_plan(entry, hs) == Err::<KernelLoad, LoadError>(
            LoadError::SegmentTooLarge,
        ),
{
    assert(is_first_load(hs, i));
    assert(has_load(hs));
    lemma_first_load_unique(hs, i, first_load(hs));
}

/// An image with no program header of type 1 has no plan: it is refused for
/// lack of a loadable segment.
pub proof fn lemma_plan_without_load(entry: u64, hs: Seq<ProgramHeader>)
    requires
        forall|j: int| 0 <= j < hs.len() ==> #[trigger] hs[j].p_type != 1,
    ensures
        load_plan(entry, hs) == Err::<KernelLoad, LoadError>(LoadError::NoLoadSegment),
{
}

} // verus!
