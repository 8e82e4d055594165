//! A context: the memory of one function execution.

use crate::bytes;
use crate::errors::DandelionError;
use crate::memory_domain::layout::UnikraftLayout;
use crate::memory_domain::DIRECTMAP_BASE;
use vstd::prelude::*;
use vstd::slice::slice_subrange;

verus! {

/// The memory of one function execution.
///
/// The bytes of the context are the window of `storage` that starts at
/// `start`, the first page boundary in the buffer.
#[derive(Debug)]
pub struct UnikraftContext {
    /// The buffer that the context lies in.
    pub storage: Vec<u8>,
    /// Where the context starts in the buffer.
    pub start: usize,
    /// Virtual address of the first byte of the context.
    pub storage_addr: u64,
    /// Offsets of the parts of the context.
    pub layout: UnikraftLayout,
    /// Whether the tables of the context have been set up.
    pub initialized: bool,
    /// Physical address of the first byte, where it is known.
    pub phys_base_cache: Option<u64>,
}

impl View for UnikraftContext {
    type V = Seq<u8>;

    /// The bytes of the context.
    open spec fn view(&self) -> Seq<u8> {
        self.storage@.subrange(self.start as int, self.start + self.layout.total_size)
    }
}

impl UnikraftContext {
    /// The buffer reaches as far as the layout says.
    pub open spec fn wf(&self) -> bool {
        self.start + self.layout.total_size <= self.storage@.len()
    }

    /// Place and surroundings are as in `other`: the buffer, but for the bytes of
    /// the context, and its addresses.
    pub open spec fn same_place(&self, other: &UnikraftContext) -> bool {
        &&& self.storage@.len() == other.storage@.len()
        &&& forall|j: int|
            0 <= j < self.storage@.len() && !(other.start <= j < other.start
                + other.layout.total_size) ==> #[trigger] self.storage@[j] == other.storage@[j]
        &&& self.start == other.start
        &&& self.storage_addr == other.storage_addr
        &&& self.phys_base_cache == other.phys_base_cache
    }

    /// All but the bytes of the context is as in `other`.
    pub open spec fn same_frame(&self, other: &UnikraftContext) -> bool {
        &&& self.same_place(other)
        &&& self.layout == other.layout
        &&& self.initialized == other.initialized
    }

    /// Puts a context into a buffer that lies at the given address.
    pub fn new(layout: UnikraftLayout, storage: Vec<u8>, address: u64) -> (context: UnikraftContext)
        requires
            storage@.len() >= layout.total_size + 4095,
            address + 4095 <= u64::MAX,
        ensures
            context.wf(),
            context.storage == storage,
            context.layout == layout,
            !context.initialized,
            context.phys_base_cache is None,
            context.storage_addr % 4096 == 0,
            address <= context.storage_addr < address + 4096,
            context.start == context.storage_addr - address,
    {
        let into_page: u64 = address % 4096;
        let start: u64 = if into_page == 0 {
            0
        } else {
            4096 - into_page
        };
        UnikraftContext {
            storage,
            start: start as usize,
            storage_addr: address + start,
            layout,
            initialized: false,
            phys_base_cache: None,
        }
    }

    /// The bytes of the context, for writing.
    pub fn as_slice_mut(&mut self) -> (slice: &mut [u8])
        requires
            old(self).wf(),
        ensures
            slice@ == old(self)@,
            final(slice)@.len() == old(self)@.len() ==> {
                &&& final(self).wf()
                &&& final(self)@ == final(slice)@
                &&& final(self).same_frame(old(self))
            },
    {
        let total_size: usize = self.layout.total_size;
        let start: usize = self.start;
        let (_, rest) = self.storage.as_mut_slice().split_at_mut(start);
        let (window, _) = rest.split_at_mut(total_size);
        window
    }

    /// The bytes of the context.
    pub fn as_slice(&self) -> (slice: &[u8])
        requires
            self.wf(),
        ensures
            slice@ == self@,
    {
        assert(self.storage.len() == self.storage@.len());
        slice_subrange(self.storage.as_slice(), self.start, self.start + self.layout.total_size)
    }

    /// Whether the physical address can only be had from the kernel page tables.
    pub fn needs_page_walk(&self) -> (needed: bool)
        ensures
            needed == (self.phys_base_cache is None && self.storage_addr < DIRECTMAP_BASE),
    {
        match self.phys_base_cache {
            Some(_) => false,
            None => self.storage_addr < DIRECTMAP_BASE,
        }
    }

    /// The physical address of the context.
    ///
    /// It is the one that was set, or follows from the direct map, or is what
    /// the walk of the kernel page tables found. Where that found nothing, the
    /// memory counts as mapped onto itself.
    pub fn get_phys_base(&self, walked: Option<u64>) -> (phys_base: u64)
        ensures
            phys_base == self.phys_base(walked),
    {
        if let Some(phys) = self.phys_base_cache {
            return phys;
        }
        let va: u64 = self.storage_addr;
        if va >= DIRECTMAP_BASE {
            return va - DIRECTMAP_BASE;
        }
        if let Some(pa) = walked {
            return pa;
        }
        va
    }

    /// The physical address, given what the walk of the page tables found.
    pub open spec fn phys_base(&self, walked: Option<u64>) -> u64 {
        if self.phys_base_cache is Some {
            self.phys_base_cache->0
        } else if self.storage_addr >= DIRECTMAP_BASE {
            (self.storage_addr - DIRECTMAP_BASE) as u64
        } else if walked is Some {
            walked->0
        } else {
            self.storage_addr
        }
    }

    /// Sets the physical address of the context.
    pub fn set_phys_base(&mut self, phys_base: u64)
        ensures
            *final(self) == (UnikraftContext { phys_base_cache: Some(phys_base), ..*old(self) }),
    {
        self.phys_base_cache = Some(phys_base);
    }

    /// Writes the bytes of items that are aligned to `align`.
    pub fn write(&mut self, offset: usize, data: &[u8], align: usize) -> (result: Result<
        (),
        DandelionError,
    >)
        requires
            old(self).wf(),
            align > 0,
            offset % align == 0 ==> offset + data@.len() <= usize::MAX,
        ensures
            final(self).wf(),
            final(self).same_frame(old(self)),
            result == if offset % align != 0 {
                Err(DandelionError::WriteMisaligned)
            } else if offset + data@.len() > old(self)@.len() {
                Err(DandelionError::InvalidWrite)
            } else {
                Ok(())
            },
            result is Err ==> final(self)@ == old(self)@,
            result is Ok ==> final(self)@ == bytes::overwritten(old(self)@, offset as int, data@),
    {
        if offset % align != 0 {
            return Err(DandelionError::WriteMisaligned);
        }
        let write_length: usize = data.len();
        if write_length + offset > self.layout.total_size {
            return Err(DandelionError::InvalidWrite);
        }
        bytes::copy_into(self.as_slice_mut(), offset, data);
        Ok(())
    }

    /// Reads the bytes of items that are aligned to `align`.
    pub fn read(&self, offset: usize, read_buffer: &mut [u8], align: usize) -> (result: Result<
        (),
        DandelionError,
    >)
        requires
            self.wf(),
            align > 0,
            offset % align == 0 ==> offset + old(read_buffer)@.len() <= usize::MAX,
        ensures
            result == if offset % align != 0 {
                Err(DandelionError::ReadMisaligned)
            } else if offset + old(read_buffer)@.len() > self@.len() {
                Err(DandelionError::InvalidRead)
            } else {
                Ok(())
            },
            result is Err ==> final(read_buffer)@ == old(read_buffer)@,
            result is Ok ==> final(read_buffer)@ == self@.subrange(
                offset as int,
                offset + old(read_buffer)@.len(),
            ),
    {
        if offset % align != 0 {
            return Err(DandelionError::ReadMisaligned);
        }
        let read_size: usize = read_buffer.len();
        if offset + read_size > self.layout.total_size {
            return Err(DandelionError::InvalidRead);
        }
        let source: &[u8] = slice_subrange(self.as_slice(), offset, offset + read_size);
        bytes::copy_into(read_buffer, 0, source);
        assert(read_buffer@.subrange(0, read_size as int) =~= read_buffer@);
        Ok(())
    }

    /// A part of the context.
    pub fn get_chunk_ref(&self, offset: usize, length: usize) -> (result: Result<
        &[u8],
        DandelionError,
    >)
        requires
            self.wf(),
            offset + length <= usize::MAX,
        ensures
            offset + length > self@.len() ==> result == Err::<&[u8], _>(
                DandelionError::InvalidRead,
            ),
            offset + length <= self@.len() ==> (result matches Ok(chunk) && chunk@
                == self@.subrange(offset as int, offset + length)),
    {
        if offset + length > self.layout.total_size {
            return Err(DandelionError::InvalidRead);
        }
        Ok(slice_subrange(self.as_slice(), offset, offset + length))
    }
}

/// Copies a part of one context into another.
pub fn unikraft_transfer(
    destination: &mut UnikraftContext,
    source: &UnikraftContext,
    destination_offset: usize,
    source_offset: usize,
    size: usize,
) -> (result: Result<(), DandelionError>)
    requires
        old(destination).wf(),
        source.wf(),
        source_offset + size <= usize::MAX,
        source_offset + size <= source@.len() ==> destination_offset + size <= usize::MAX,
    ensures
        final(destination).wf(),
        final(destination).same_frame(old(destination)),
        result == if source_offset + size > source@.len() {
            Err(DandelionError::InvalidRead)
        } else if destination_offset + size > old(destination)@.len() {
            Err(DandelionError::InvalidWrite)
        } else {
            Ok(())
        },
        result is Err ==> final(destination)@ == old(destination)@,
        result is Ok ==> final(destination)@ == bytes::overwritten(
            old(destination)@,
            destination_offset as int,
            source@.subrange(source_offset as int, source_offset + size),
        ),
{
    if source.layout.total_size < source_offset + size {
        return Err(DandelionError::InvalidRead);
    }
    if destination.layout.total_size < destination_offset + size {
        return Err(DandelionError::InvalidWrite);
    }
    let part: &[u8] = slice_subrange(source.as_slice(), source_offset, source_offset + size);
    bytes::copy_into(destination.as_slice_mut(), destination_offset, part);
    Ok(())
}

/// Copies a chunk of `size` bytes of another domain into a context.
///
/// `source_chunk` is what that domain gave for the chunk.
pub fn bytes_to_unikraft_transfer(
    destination: &mut UnikraftContext,
    source_chunk: Result<&[u8], DandelionError>,
    destination_offset: usize,
    size: usize,
) -> (result: Result<(), DandelionError>)
    requires
        old(destination).wf(),
        source_chunk matches Ok(chunk) ==> chunk@.len() == size && destination_offset + size
            <= usize::MAX,
    ensures
        final(destination).wf(),
        final(destination).same_frame(old(destination)),
        result == match source_chunk {
            Err(e) => Err(e),
            Ok(_) => if destination_offset + size > old(destination)@.len() {
                Err(DandelionError::InvalidWrite)
            } else {
                Ok(())
            },
        },
        result is Err ==> final(destination)@ == old(destination)@,
        result is Ok ==> final(destination)@ == bytes::overwritten(
            old(destination)@,
            destination_offset as int,
            source_chunk->Ok_0@,
        ),
{
    let source_data: &[u8] = match source_chunk {
        Ok(chunk) => chunk,
        Err(e) => return Err(e),
    };
    if destination.layout.total_size < destination_offset + size {
        return Err(DandelionError::InvalidWrite);
    }
    bytes::copy_into(destination.as_slice_mut(), destination_offset, source_data);
    Ok(())
}

/// What is read after a write is what was written, as far as the two overlap,
/// and what was there before everywhere else.
pub proof fn read_after_write(before: Seq<u8>, offset: int, data: Seq<u8>, at: int, length: int)
    requires
        0 <= offset,
        offset + data.len() <= before.len(),
        0 <= at,
        0 <= length,
        at + length <= before.len(),
    ensures
        bytes::overwritten(before, offset, data).subrange(at, at + length) == Seq::new(
            length as nat,
            |i: int|
                if offset <= at + i < offset + data.len() {
                    data[at + i - offset]
                } else {
                    before[at + i]
                },
        ),
        bytes::overwritten(before, offset, data).subrange(offset, offset + data.len()) == data,
{
    assert(bytes::overwritten(before, offset, data).subrange(offset, offset + data.len()) =~= data);
}

/// A transfer there and back restores what was transferred.
pub proof fn transfer_and_back(
    source: Seq<u8>,
    destination: Seq<u8>,
    source_offset: int,
    destination_offset: int,
    size: int,
)
    requires
        0 <= source_offset,
        0 <= destination_offset,
        0 <= size,
        source_offset + size <= source.len(),
        destination_offset + size <= destination.len(),
    ensures
        bytes::overwritten(
            source,
            source_offset,
            bytes::overwritten(
                destination,
                destination_offset,
                source.subrange(source_offset, source_offset + size),
            ).subrange(destination_offset, destination_offset + size),
        ) == source,
{
    let part = source.subrange(source_offset, source_offset + size);
    let there = bytes::overwritten(destination, destination_offset, part);
    assert(there.subrange(destination_offset, destination_offset + size) =~= part);
    assert(bytes::overwritten(source, source_offset, part) =~= source);
}

/// A context is the window of its buffer that begins at its start and is as long
/// as its layout says.
pub proof fn context_is_a_window(context: UnikraftContext, i: int)
    requires
        context.wf(),
    ensures
        context.start + context.layout.total_size <= context.storage@.len(),
        context@.len() == context.layout.total_size,
        0 <= i < context.layout.total_size ==> context@[i] == context.storage@[context.start + i],
{
}

/// The physical address is the one that was set. Where none was, it follows from
/// the direct map for addresses in it, and else is what the walk found, or the
/// virtual address where the walk found nothing.
pub proof fn physical_address_has_four_sources(
    context: UnikraftContext,
    set: u64,
    walked: Option<u64>,
    found: u64,
)
    ensures
        context.phys_base_cache == Some(set) ==> context.phys_base(walked) == set,
        context.phys_base_cache is None && context.storage_addr >= 0xffff_ff80_0000_0000
            ==> context.phys_base(walked) == context.storage_addr - 0xffff_ff80_0000_0000,
        context.phys_base_cache is None && context.storage_addr < 0xffff_ff80_0000_0000 && walked
            == Some(found) ==> context.phys_base(walked) == found,
        context.phys_base_cache is None && context.storage_addr < 0xffff_ff80_0000_0000
            && walked is None ==> context.phys_base(walked) == context.storage_addr,
{
}

/// What keeps the frame of a context changes at most the bytes of the window.
pub proof fn frame_is_all_but_the_window(
    before: UnikraftContext,
    after: UnikraftContext,
    j: int,
)
    requires
        after.same_place(&before),
        0 <= j < before.storage@.len(),
    ensures
        after.storage@.len() == before.storage@.len(),
        after.start == before.start,
        after.storage_addr == before.storage_addr,
        after.phys_base_cache == before.phys_base_cache,
        j < before.start || before.start + before.layout.total_size <= j ==> after.storage@[j]
            == before.storage@[j],
        after.same_frame(&before) ==> after.layout == before.layout && after.initialized
            == before.initialized,
{
}

/// Two contexts with the same frame differ in nothing but the window.
pub proof fn same_frame_keeps_the_place(before: UnikraftContext, after: UnikraftContext)
    requires
        before.wf(),
        after.same_frame(&before),
    ensures
        after.same_place(&before),
        after.wf(),
        after@.len() == before@.len(),
{
}

/// A write at an aligned offset inside the context succeeds and every other
/// fails. Where it succeeds, a chunk that is then taken at the same place is
/// what was written, and no other byte has changed; where it fails nothing has.
pub proof fn writes_can_be_read_back(
    context: &mut UnikraftContext,
    offset: usize,
    data: &[u8],
    align: usize,
    result: Result<(), DandelionError>,
    later: UnikraftContext,
    chunk: Result<&[u8], DandelionError>,
    j: int,
)
    requires
        call_ensures(UnikraftContext::write, (context, offset, data, align), result),
        call_ensures(
            UnikraftContext::get_chunk_ref,
            (&later, offset, data@.len() as usize),
            chunk,
        ),
        old(context).wf(),
        align > 0,
        data@.len() <= usize::MAX,
        0 <= j < old(context)@.len(),
    ensures
        result is Ok <==> offset % align == 0 && offset + data@.len() <= old(context)@.len(),
        offset % align != 0 ==> (result matches Err(e) && e == DandelionError::WriteMisaligned),
        offset % align == 0 && offset + data@.len() > old(context)@.len() ==> (result matches Err(
            e,
        ) && e == DandelionError::InvalidWrite),
        result is Err || j < offset || offset + data@.len() <= j ==> final(context)@[j]
            == old(context)@[j],
        result is Ok && offset <= j < offset + data@.len() ==> final(context)@[j] == data@[j
            - offset],
        final(context)@.len() == old(context)@.len(),
        result is Ok && later == *final(context) ==> (chunk matches Ok(bytes) && bytes@ == data@),
{
    if result is Ok {
        let before = old(context)@;
        read_after_write(before, offset as int, data@, offset as int, data@.len() as int);
    }
}

/// A read at an aligned offset inside the context succeeds and every other
/// fails. Where it succeeds it gives the bytes of the context at that place, as
/// a chunk taken there does; where it fails the buffer is as it was.
pub proof fn reads_give_the_bytes(
    context: UnikraftContext,
    offset: usize,
    read_buffer: &mut [u8],
    align: usize,
    result: Result<(), DandelionError>,
    j: int,
)
    requires
        call_ensures(UnikraftContext::read, (&context, offset, read_buffer, align), result),
        context.wf(),
        align > 0,
        0 <= j < old(read_buffer)@.len(),
    ensures
        result is Ok <==> offset % align == 0 && offset + old(read_buffer)@.len()
            <= context.layout.total_size,
        offset % align != 0 ==> (result matches Err(e) && e == DandelionError::ReadMisaligned),
        offset % align == 0 && result is Err ==> result->Err_0 == DandelionError::InvalidRead,
        result is Ok ==> final(read_buffer)@[j] == context.storage@[context.start + offset + j],
        result is Err ==> final(read_buffer)@[j] == old(read_buffer)@[j],
{
}

/// A transfer copies the part of the source to the place in the destination,
/// byte by byte, where both lie inside, and else changes nothing. The source is
/// looked at first.
pub proof fn transfers_copy_byte_by_byte(
    destination: &mut UnikraftContext,
    source: UnikraftContext,
    destination_offset: usize,
    source_offset: usize,
    size: usize,
    result: Result<(), DandelionError>,
    j: int,
)
    requires
        call_ensures(
            unikraft_transfer,
            (destination, &source, destination_offset, source_offset, size),
            result,
        ),
        old(destination).wf(),
        source.wf(),
        0 <= j < old(destination)@.len(),
    ensures
        source_offset + size > source@.len() ==> (result matches Err(e) && e
            == DandelionError::InvalidRead),
        source_offset + size <= source@.len() && destination_offset + size > old(destination)@.len() ==> (result matches Err(e) && e == DandelionError::InvalidWrite),
        source_offset + size <= source@.len() && destination_offset + size <= old(destination)@.len() ==> result is Ok,
        result is Ok && destination_offset <= j < destination_offset + size ==> final(destination)@[j] == source@[source_offset + (j - destination_offset)],
        result is Err || j < destination_offset || destination_offset + size <= j ==> final(destination)@[j] == old(destination)@[j],
{
}

/// A chunk of another domain is copied to its place, byte by byte. An error of
/// that domain is handed on.
pub proof fn chunks_are_copied_byte_by_byte(
    destination: &mut UnikraftContext,
    source_chunk: Result<&[u8], DandelionError>,
    destination_offset: usize,
    size: usize,
    result: Result<(), DandelionError>,
    j: int,
)
    requires
        call_ensures(
            bytes_to_unikraft_transfer,
            (destination, source_chunk, destination_offset, size),
            result,
        ),
        source_chunk matches Ok(chunk) ==> chunk@.len() == size,
        0 <= j < old(destination)@.len(),
    ensures
        (source_chunk matches Err(e) ==> result == Err::<(), _>(e)),
        source_chunk is Ok ==> (result is Ok <==> destination_offset + size <= old(destination)@.len()),
        source_chunk is Ok && result is Err ==> result->Err_0 == DandelionError::InvalidWrite,
        result is Ok && destination_offset <= j < destination_offset + size ==> final(destination)@[j] == source_chunk->Ok_0@[j - destination_offset],
        result is Err || j < destination_offset || destination_offset + size <= j ==> final(destination)@[j] == old(destination)@[j],
{
}

/// The physical address that was set is the one that is given from then on.
/// Without one, addresses of the direct map need no walk and give their place in
/// it; the others give what a walk found, or themselves.
pub proof fn physical_addresses_are_given(
    context: UnikraftContext,
    walked: Option<u64>,
    phys_base: u64,
    needed: bool,
)
    requires
        call_ensures(UnikraftContext::get_phys_base, (&context, walked), phys_base),
        call_ensures(UnikraftContext::needs_page_walk, (&context,), needed),
    ensures
        (context.phys_base_cache matches Some(set) ==> phys_base == set && !needed),
        context.phys_base_cache is None && context.storage_addr >= 0xffff_ff80_0000_0000
            ==> phys_base == context.storage_addr - 0xffff_ff80_0000_0000 && !needed,
        context.phys_base_cache is None && context.storage_addr < 0xffff_ff80_0000_0000 ==> needed
            && phys_base == match walked {
            Some(found) => found,
            None => context.storage_addr,
        },
{
}

/// The physical address that is set is given from then on, whatever a walk finds.
pub proof fn set_addresses_are_given(
    context: &mut UnikraftContext,
    phys_base: u64,
    later: UnikraftContext,
    walked: Option<u64>,
    given: u64,
)
    requires
        call_ensures(UnikraftContext::set_phys_base, (context, phys_base), ()),
        call_ensures(UnikraftContext::get_phys_base, (&later, walked), given),
    ensures
        later == *final(context) ==> given == phys_base,
        final(context)@ == old(context)@,
        final(context).layout == old(context).layout,
{
}

/// A new context begins at the first page boundary of its buffer and is the
/// bytes from there on, as many as its layout says.
pub proof fn new_contexts_begin_at_a_page(
    layout: UnikraftLayout,
    storage: Vec<u8>,
    address: u64,
    context: UnikraftContext,
    bytes: &[u8],
    j: int,
)
    requires
        call_ensures(UnikraftContext::new, (layout, storage, address), context),
        call_ensures(UnikraftContext::as_slice, (&context,), bytes),
    ensures
        context.storage_addr % 4096 == 0,
        address <= context.storage_addr < address + 4096,
        context.storage_addr == address + context.start,
        bytes@.len() == layout.total_size,
        0 <= j < layout.total_size ==> bytes@[j] == storage@[context.start + j],
        !context.initialized,
        context.phys_base_cache is None,
{
}

} // verus!
