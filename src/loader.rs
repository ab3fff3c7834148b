//! Places the loadable segments of a 32- or 64-bit ELF image in memory.
use vstd::prelude::*;
use xmas_elf::program::Type;
use xmas_elf::ElfFile;

verus! {

/// What a program header's type says of its segment.
#[derive(PartialEq, Eq, Structural, Debug, Clone, Copy)]
pub enum SegmentKind {
    /// To be placed in memory.
    Load,
    /// Of a known type that is not placed.
    Other,
    /// Of a type that the ELF format does not define.
    Invalid,
}

/// A program header as the loader reads it.
#[derive(PartialEq, Eq, Structural, Debug, Clone, Copy)]
pub struct SegmentHeader {
    pub kind: SegmentKind,
    pub offset: u64,
    pub file_size: u64,
    pub mem_size: u64,
    pub virt_addr: u64,
}

/// A parsed image: its entry point and its program headers in file order.
pub struct ElfLayout {
    pub entry: u64,
    pub segments: Vec<SegmentHeader>,
}

/// Why an image could not be loaded.
#[derive(PartialEq, Eq, Structural, Debug, Clone, Copy)]
pub enum ElfError {
    /// The headers are not those of a 32- or 64-bit ELF image, or a program
    /// header has a type the format does not define.
    Malformed,
    /// The buffer does not start at an address aligned for the image's
    /// headers: 4 bytes for a 32-bit image, 8 for a 64-bit one.
    Unaligned,
    /// A loadable segment reads past the image, is larger on disk than in
    /// memory, or does not lie inside the target memory.
    BadSegment,
}

/// A region of memory: its address and its bytes.
pub struct Memory {
    pub base: usize,
    pub bytes: Vec<u8>,
}

/// The little-endian 16-bit value at `at`.
pub open spec fn le_u16(s: Seq<u8>, at: int) -> u64 {
    ((s[at] as u64) | ((s[at + 1] as u64) << 8u64)) as u64
}

/// The little-endian 32-bit value at `at`.
pub open spec fn le_u32(s: Seq<u8>, at: int) -> u64 {
    ((s[at] as u64) | ((s[at + 1] as u64) << 8u64) | ((s[at + 2] as u64) << 16u64) | ((s[at + 3] as u64) << 24u64)) as u64
}

/// The little-endian 64-bit value at `at`.
pub open spec fn le_u64(s: Seq<u8>, at: int) -> u64 {
    ((s[at] as u64) | ((s[at + 1] as u64) << 8u64) | ((s[at + 2] as u64) << 16u64) | ((s[at + 3] as u64) << 24u64)
        | ((s[at + 4] as u64) << 32u64) | ((s[at + 5] as u64) << 40u64) | ((s[at + 6] as u64) << 48u64)
        | ((s[at + 7] as u64) << 56u64)) as u64
}

/// The class byte of a 32-bit image.
pub const ELF_CLASS_32: u8 = 1;

/// The class byte of a 64-bit image.
pub const ELF_CLASS_64: u8 = 2;

/// Size of a 32-bit ELF file header.
pub const ELF32_HEADER_SIZE: usize = 52;

/// Size of a 32-bit program header.
pub const ELF32_PHDR_SIZE: u64 = 32;

/// Size of a 64-bit ELF file header.
pub const ELF64_HEADER_SIZE: usize = 64;

/// Size of a 64-bit program header.
pub const ELF64_PHDR_SIZE: u64 = 56;

/// A program header table of `count` entries of `size` bytes at `off` is
/// absent, or lies inside `len` bytes at offsets that are multiples of
/// `align`, with entries of at least `min_size` bytes.
pub open spec fn table_fits(off: u64, size: u64, count: u64, len: nat, min_size: u64, align: u64) -> bool {
    count == 0 || off == 0 || size == 0 || (size >= min_size && off % align == 0 && size % align == 0
        && off + count * size <= len)
}

/// The header of `src` claims a 32- or 64-bit image, and its program header
/// table, if it has one, lies inside `src` at offsets aligned for its class.
pub open spec fn program_headers_fit(src: Seq<u8>) -> bool {
    ||| (src.len() >= ELF64_HEADER_SIZE && src[4] == ELF_CLASS_64
        && table_fits(le_u64(src, 32), le_u16(src, 54), le_u16(src, 56), src.len(), ELF64_PHDR_SIZE, 8))
    ||| (src.len() >= ELF32_HEADER_SIZE && src[4] == ELF_CLASS_32
        && table_fits(le_u32(src, 28), le_u16(src, 42), le_u16(src, 44), src.len(), ELF32_PHDR_SIZE, 4))
}

/// The alignment that the headers of `src` need: 4 bytes for a 32-bit
/// image, 8 for any other.
pub open spec fn header_alignment(src: Seq<u8>) -> usize {
    if src.len() > 4 && src[4] == ELF_CLASS_32 {
        4
    } else {
        8
    }
}

/// The four bytes an ELF image starts with.
pub open spec fn has_elf_magic(src: Seq<u8>) -> bool {
    src.len() >= 4 && src[0] == 0x7f && src[1] == 0x45 && src[2] == 0x4c && src[3] == 0x46
}

/// The entry point field of the header: 32 bits wide in a 32-bit image, 64 in
/// a 64-bit one.
pub open spec fn elf_entry(src: Seq<u8>) -> u64 {
    if src[4] == ELF_CLASS_32 {
        le_u32(src, 24)
    } else {
        le_u64(src, 24)
    }
}

/// What a program header's type field says of its segment: type 1 is
/// loadable; the types the format defines (0 to 7) and those reserved to
/// operating systems and processors are known; any other is undefined.
pub open spec fn segment_kind(t: u64) -> SegmentKind {
    if t == 1 {
        SegmentKind::Load
    } else if t <= 7 || (0x6000_0000 <= t && t <= 0x7fff_ffff) {
        SegmentKind::Other
    } else {
        SegmentKind::Invalid
    }
}

/// The program header at `at` in `src`, with the fields of its class.
pub open spec fn segment_at(src: Seq<u8>, at: int) -> SegmentHeader {
    if src[4] == ELF_CLASS_32 {
        SegmentHeader {
            kind: segment_kind(le_u32(src, at)),
            offset: le_u32(src, at + 4),
            virt_addr: le_u32(src, at + 8),
            file_size: le_u32(src, at + 16),
            mem_size: le_u32(src, at + 20),
        }
    } else {
        SegmentHeader {
            kind: segment_kind(le_u32(src, at)),
            offset: le_u64(src, at + 8),
            virt_addr: le_u64(src, at + 16),
            file_size: le_u64(src, at + 32),
            mem_size: le_u64(src, at + 40),
        }
    }
}

/// The offset, entry size and entry count of the program header table.
pub open spec fn table_of(src: Seq<u8>) -> (u64, u64, u64) {
    if src[4] == ELF_CLASS_32 {
        (le_u32(src, 28), le_u16(src, 42), le_u16(src, 44))
    } else {
        (le_u64(src, 32), le_u16(src, 54), le_u16(src, 56))
    }
}

/// The program headers of `src` in file order; none where the table's
/// offset or entry size is zero.
pub open spec fn segments_of(src: Seq<u8>) -> Seq<SegmentHeader> {
    let (off, size, count) = table_of(src);
    let n: nat = if off > 0 && size > 0 { count as nat } else { 0 };
    Seq::new(n, |i: int| segment_at(src, off + i * size))
}

/// Relies on `<*const u64>::is_aligned` applied to the start of `bytes`:
/// whether the buffer starts at a multiple of 8. Nothing is promised of the
/// result, which depends on where the buffer was allocated.
#[verifier::external_body]
fn starts_aligned_8(bytes: &Vec<u8>) -> (r: bool) {
    bytes.as_ptr().cast::<u64>().is_aligned()
}

/// Relies on `<*const u32>::is_aligned` applied to the start of `bytes`:
/// whether the buffer starts at a multiple of 4. Nothing is promised of the
/// result, which depends on where the buffer was allocated.
#[verifier::external_body]
fn starts_aligned_4(bytes: &Vec<u8>) -> (r: bool) {
    bytes.as_ptr().cast::<u32>().is_aligned()
}

/// An ELF image held in a buffer that this type owns and never reallocates,
/// together with whether that buffer starts at an address aligned for the
/// image's headers. The fields are private: the flags are set once, from the
/// buffer itself, and stay true of it because the buffer never moves.
pub struct ElfImage {
    bytes: Vec<u8>,
    aligned_4: bool,
    aligned_8: bool,
}

impl View for ElfImage {
    type V = Seq<u8>;

    closed spec fn view(&self) -> Seq<u8> {
        self.bytes@
    }
}

impl ElfImage {
    /// The buffer starts at an address aligned for the headers of its class.
    pub closed spec fn aligned(&self) -> bool {
        if header_alignment(self.bytes@) == 4 {
            self.aligned_4
        } else {
            self.aligned_8
        }
    }

    /// Takes ownership of `bytes` as an image.
    pub fn new(bytes: Vec<u8>) -> (image: ElfImage)
        ensures
            image@ == bytes@,
    {
        let aligned_4 = starts_aligned_4(&bytes);
        let aligned_8 = starts_aligned_8(&bytes);
        ElfImage { bytes, aligned_4, aligned_8 }
    }

    /// The image's bytes.
    pub fn as_slice(&self) -> (s: &[u8])
        ensures
            s@ == self@,
    {
        self.bytes.as_slice()
    }

    /// Whether the buffer starts at an address aligned for the headers of its class.
    pub fn is_aligned(&self) -> (r: bool)
        ensures
            r == self.aligned(),
    {
        if self.bytes.len() > 4 && self.bytes[4] == ELF_CLASS_32 {
            self.aligned_4
        } else {
            self.aligned_8
        }
    }
}

/// Relies on xmas_elf's `ElfFile::new`, `program_iter`, the program header
/// getters and `entry_point`. Those read the headers in place, each field as
/// the hart (little-endian) reads it: they slice the program header table, which
/// `program_headers_fit` keeps inside `src` at offsets aligned for the class,
/// and assert that each header's address is so aligned, which holds because
/// the image's buffer starts at an address so aligned.
/// With the header long enough for its class, `ElfFile::new` refuses only a
/// wrong magic number; the iteration yields the table's entries in order and
/// stops at once where the table's offset or entry size is zero.
#[verifier::external_body]
fn parse_elf(image: &ElfImage) -> (r: Option<ElfLayout>)
    requires
        program_headers_fit(image@),
        image.aligned(),
    ensures
        r is None <==> !has_elf_magic(image@),
        r matches Some(l) ==> l.entry == elf_entry(image@) && l.segments@ == segments_of(image@),
{
    let elf = ElfFile::new(image.bytes.as_slice()).ok()?;
    let segments = elf.program_iter().map(|ph| SegmentHeader {
        kind: match ph.get_type() {
            Ok(Type::Load) => SegmentKind::Load,
            Ok(_) => SegmentKind::Other,
            Err(_) => SegmentKind::Invalid,
        },
        offset: ph.offset(),
        file_size: ph.file_size(),
        mem_size: ph.mem_size(),
        virt_addr: ph.virtual_addr(),
    }).collect();
    Some(ElfLayout { entry: elf.header.pt2.entry_point(), segments })
}

/// A loadable segment reads inside `src`, is no larger on disk than in
/// memory, and lies inside the memory at `base` of `len` bytes.
pub open spec fn segment_fits(seg: SegmentHeader, src_len: nat, base: usize, len: nat) -> bool {
    &&& seg.file_size <= seg.mem_size
    &&& seg.offset + seg.file_size <= src_len
    &&& base <= seg.virt_addr
    &&& seg.virt_addr + seg.mem_size <= base + len
}

/// `bytes` at address `base` after `seg` is placed: its on-disk bytes at its
/// address, zeros for the rest of its size in memory, every other byte kept.
pub open spec fn segment_placed(bytes: Seq<u8>, base: usize, src: Seq<u8>, seg: SegmentHeader) -> Seq<u8> {
    Seq::new(bytes.len(), |k: int| {
        let a = base + k - seg.virt_addr;
        if 0 <= a < seg.file_size {
            src[seg.offset + a]
        } else if seg.file_size <= a < seg.mem_size {
            0u8
        } else {
            bytes[k]
        }
    })
}

/// Placing a segment that fits copies exactly its on-disk bytes to its
/// address, zero-fills exactly the rest of its size in memory after them, and
/// leaves every other byte as it was.
pub proof fn lemma_segment_placement(bytes: Seq<u8>, base: usize, src: Seq<u8>, seg: SegmentHeader)
    requires
        segment_fits(seg, src.len(), base, bytes.len()),
    ensures
        ({
            let placed = segment_placed(bytes, base, src, seg);
            let start = seg.virt_addr - base;
            &&& placed.len() == bytes.len()
            &&& forall|k: int| 0 <= k < seg.file_size ==> #[trigger] placed[start + k] == src[seg.offset + k]
            &&& forall|k: int| seg.file_size <= k < seg.mem_size ==> #[trigger] placed[start + k] == 0
            &&& forall|j: int| 0 <= j < bytes.len() && !(start <= j < start + seg.mem_size) ==> placed[j] == bytes[j]
        }),
{
}

/// `bytes` after each loadable segment of `segs` is placed in order, or
/// `None` where one of them does not fit.
pub open spec fn segments_placed(bytes: Seq<u8>, base: usize, src: Seq<u8>, segs: Seq<SegmentHeader>) -> Option<Seq<u8>>
    decreases segs.len(),
{
    if segs.len() == 0 {
        Some(bytes)
    } else if segs[0].kind != SegmentKind::Load {
        segments_placed(bytes, base, src, segs.drop_first())
    } else if !segment_fits(segs[0], src.len(), base, bytes.len()) {
        None
    } else {
        segments_placed(segment_placed(bytes, base, src, segs[0]), base, src, segs.drop_first())
    }
}

/// Copies the on-disk bytes of `seg` from `src` to its address in `mem`, then
/// zero-fills the rest of its size in memory.
pub fn load_segment(mem: &mut Memory, src: &[u8], seg: SegmentHeader) -> (r: Result<(), ElfError>)
    requires
        old(mem).base + old(mem).bytes@.len() <= usize::MAX,
    ensures
        final(mem).base == old(mem).base,
        r is Ok <==> segment_fits(seg, src@.len(), old(mem).base, old(mem).bytes@.len()),
        r is Ok ==> final(mem).bytes@ == segment_placed(old(mem).bytes@, old(mem).base, src@, seg),
        r is Err ==> r == Err::<(), ElfError>(ElfError::BadSegment) && final(mem).bytes@ == old(mem).bytes@,
{
    let len = mem.bytes.len();
    if seg.file_size > seg.mem_size || seg.offset > src.len() as u64 || seg.file_size > src.len() as u64 - seg.offset
        || seg.virt_addr < mem.base as u64 || seg.virt_addr - (mem.base as u64) > len as u64
        || seg.mem_size > (len as u64) - (seg.virt_addr - mem.base as u64) {
        return Err(ElfError::BadSegment);
    }
    let start = (seg.virt_addr - mem.base as u64) as usize;
    let file_size = seg.file_size as usize;
    let mem_size = seg.mem_size as usize;
    let offset = seg.offset as usize;
    let src_len = src.len();
    let ghost before = mem.bytes@;
    let mut k: usize = 0;
    while k < mem_size
        invariant
            mem.base == old(mem).base,
            before == old(mem).bytes@,
            segment_fits(seg, src@.len(), mem.base, before.len()),
            mem.bytes@.len() == len,
            len == before.len(),
            start == seg.virt_addr - mem.base,
            file_size == seg.file_size,
            mem_size == seg.mem_size,
            offset == seg.offset,
            k <= mem_size,
            offset + file_size <= src@.len(),
            src_len == src@.len(),
            file_size <= mem_size,
            start + mem_size <= len,
            forall|j: int| 0 <= j < len ==> mem.bytes@[j] == if start <= j < start + k {
                segment_placed(before, mem.base, src@, seg)[j]
            } else {
                before[j]
            },
        decreases mem_size - k,
    {
        if k < file_size {
            assert(offset + k < src@.len());
            mem.bytes.set(start + k, src[offset + k]);
        } else {
            mem.bytes.set(start + k, 0u8);
        }
        k = k + 1;
    }
    assert(mem.bytes@ =~= segment_placed(before, mem.base, src@, seg));
    Ok(())
}

/// Places every loadable segment of `segs` in order; stops at the first one
/// that does not fit.
pub fn load_segments(mem: &mut Memory, src: &[u8], segs: &Vec<SegmentHeader>) -> (r: Result<(), ElfError>)
    requires
        old(mem).base + old(mem).bytes@.len() <= usize::MAX,
    ensures
        final(mem).base == old(mem).base,
        r is Ok <==> segments_placed(old(mem).bytes@, old(mem).base, src@, segs@) is Some,
        r is Ok ==> segments_placed(old(mem).bytes@, old(mem).base, src@, segs@) == Some(final(mem).bytes@),
        r is Err ==> r == Err::<(), ElfError>(ElfError::BadSegment),
{
    let mut i: usize = 0;
    assert(segs@.subrange(0, segs@.len() as int) =~= segs@);
    while i < segs.len()
        invariant
            i <= segs@.len(),
            mem.base == old(mem).base,
            mem.bytes@.len() == old(mem).bytes@.len(),
            mem.base + mem.bytes@.len() <= usize::MAX,
            segments_placed(old(mem).bytes@, old(mem).base, src@, segs@)
                == segments_placed(mem.bytes@, mem.base, src@, segs@.subrange(i as int, segs@.len() as int)),
        decreases segs@.len() - i,
    {
        let ghost rest = segs@.subrange(i as int, segs@.len() as int);
        assert(rest.drop_first() =~= segs@.subrange(i + 1, segs@.len() as int));
        let seg = segs[i];
        if seg.kind == SegmentKind::Load {
            let r = load_segment(mem, src, seg);
            if r.is_err() {
                return Err(ElfError::BadSegment);
            }
        }
        i = i + 1;
    }
    assert(segs@.subrange(i as int, segs@.len() as int) =~= Seq::<SegmentHeader>::empty());
    Ok(())
}

fn read_le_u16(src: &[u8], at: usize) -> (v: u64)
    requires
        at + 2 <= src@.len(),
    ensures
        v == le_u16(src@, at as int),
        v <= 0xffff,
{
    let a = src[at];
    let b = src[at + 1];
    let v = (a as u64) | ((b as u64) << 8u64);
    assert(((a as u64) | ((b as u64) << 8u64)) <= 0xffff) by (bit_vector);
    v
}

fn read_le_u32(src: &[u8], at: usize) -> (v: u64)
    requires
        at + 4 <= src@.len(),
    ensures
        v == le_u32(src@, at as int),
        v <= 0xffff_ffff,
{
    let a = src[at] as u64;
    let b = src[at + 1] as u64;
    let c = src[at + 2] as u64;
    let d = src[at + 3] as u64;
    assert(a <= 0xff && b <= 0xff && c <= 0xff && d <= 0xff ==> (a | (b << 8u64) | (c << 16u64) | (d << 24u64)) <= 0xffff_ffff)
        by (bit_vector);
    a | (b << 8u64) | (c << 16u64) | (d << 24u64)
}

fn read_le_u64(src: &[u8], at: usize) -> (v: u64)
    requires
        at + 8 <= src@.len(),
    ensures
        v == le_u64(src@, at as int),
{
    (src[at] as u64) | ((src[at + 1] as u64) << 8u64) | ((src[at + 2] as u64) << 16u64) | ((src[at + 3] as u64) << 24u64)
        | ((src[at + 4] as u64) << 32u64) | ((src[at + 5] as u64) << 40u64) | ((src[at + 6] as u64) << 48u64)
        | ((src[at + 7] as u64) << 56u64)
}

fn check_table(off: u64, size: u64, count: u64, len: usize, min_size: u64, align: u64) -> (ok: bool)
    requires
        size <= 0xffff,
        count <= 0xffff,
        align > 0,
    ensures
        ok == table_fits(off, size, count, len as nat, min_size, align),
{
    if count == 0 || off == 0 || size == 0 {
        return true;
    }
    if size < min_size || off % align != 0 || size % align != 0 {
        return false;
    }
    assert((count as int) * (size as int) <= 0xffff * 0xffff) by (nonlinear_arith)
        requires
            count <= 0xffff,
            size <= 0xffff,
    ;
    (off as u128) + (count as u128) * (size as u128) <= len as u128
}

/// Whether the header of `src` claims a 32- or 64-bit image whose program
/// header table lies inside `src` at offsets aligned for its class.
pub fn check_program_headers(src: &[u8]) -> (ok: bool)
    ensures
        ok == program_headers_fit(src@),
{
    if src.len() >= ELF64_HEADER_SIZE && src[4] == ELF_CLASS_64 {
        let off = read_le_u64(src, 32);
        let size = read_le_u16(src, 54);
        let count = read_le_u16(src, 56);
        check_table(off, size, count, src.len(), ELF64_PHDR_SIZE, 8)
    } else if src.len() >= ELF32_HEADER_SIZE && src[4] == ELF_CLASS_32 {
        let off = read_le_u32(src, 28);
        let size = read_le_u16(src, 42);
        let count = read_le_u16(src, 44);
        check_table(off, size, count, src.len(), ELF32_PHDR_SIZE, 4)
    } else {
        false
    }
}

/// Some program header has a type that the format does not define.
pub open spec fn has_invalid(segs: Seq<SegmentHeader>) -> bool {
    exists|i: int| 0 <= i < segs.len() && (#[trigger] segs[i]).kind == SegmentKind::Invalid
}

fn any_invalid(segs: &Vec<SegmentHeader>) -> (r: bool)
    ensures
        r == has_invalid(segs@),
{
    let mut i: usize = 0;
    while i < segs.len()
        invariant
            i <= segs@.len(),
            forall|j: int| 0 <= j < i ==> (#[trigger] segs@[j]).kind != SegmentKind::Invalid,
        decreases segs@.len() - i,
    {
        if segs[i].kind == SegmentKind::Invalid {
            return true;
        }
        i = i + 1;
    }
    false
}

/// Parses the ELF image `image` and places its loadable segments in `mem`, in
/// file order: each one's on-disk bytes at its address, then zeros for the
/// rest of its size in memory. Returns the image's entry point. Headers that
/// are not an ELF image's, or a program header of undefined type, give
/// `Malformed`; an image whose buffer starts at an address unaligned for its
/// headers gives `Unaligned`; in both cases nothing is written.
pub fn load_from_elf(image: &ElfImage, mem: &mut Memory) -> (r: Result<usize, ElfError>)
    requires
        old(mem).base + old(mem).bytes@.len() <= usize::MAX,
    ensures
        final(mem).base == old(mem).base,
        !program_headers_fit(image@) ==> r == Err::<usize, ElfError>(ElfError::Malformed)
            && final(mem).bytes@ == old(mem).bytes@,
        program_headers_fit(image@) && !image.aligned() ==> r == Err::<usize, ElfError>(ElfError::Unaligned)
            && final(mem).bytes@ == old(mem).bytes@,
        program_headers_fit(image@) && image.aligned() ==> {
            let segs = segments_of(image@);
            let placed = segments_placed(old(mem).bytes@, old(mem).base, image@, segs);
            &&& (!has_elf_magic(image@) || has_invalid(segs) ==> r == Err::<usize, ElfError>(ElfError::Malformed)
                && final(mem).bytes@ == old(mem).bytes@)
            &&& (has_elf_magic(image@) && !has_invalid(segs) ==> {
                &&& (r is Ok <==> placed is Some)
                &&& (r is Ok ==> r == Ok::<usize, ElfError>(elf_entry(image@) as usize)
                    && placed == Some(final(mem).bytes@))
                &&& (r is Err ==> r == Err::<usize, ElfError>(ElfError::BadSegment))
            })
        },
{
    let src = image.as_slice();
    if !check_program_headers(src) {
        return Err(ElfError::Malformed);
    }
    if !image.is_aligned() {
        return Err(ElfError::Unaligned);
    }
    match parse_elf(image) {
        None => Err(ElfError::Malformed),
        Some(layout) => {
            if any_invalid(&layout.segments) {
                return Err(ElfError::Malformed);
            }
            match load_segments(mem, src, &layout.segments) {
                Ok(()) => Ok(layout.entry as usize),
                Err(e) => Err(e),
            }
        },
    }
}

} // verus!
