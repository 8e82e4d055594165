//! The domain that contexts are acquired from.

use crate::errors::{DandelionError, DomainError};
use crate::memory_domain::context::UnikraftContext;
use crate::memory_domain::layout::{UnikraftLayout, MIN_CONTEXT_SIZE};
use crate::x86_64::PAGE_SIZE;
use vstd::prelude::*;

verus! {

/// Size of a context for which no size is asked: 64 MiB.
pub const DEFAULT_CONTEXT_SIZE: usize = 0x400_0000;

/// What a memory domain can be built on.
#[derive(Debug, Clone, Copy, PartialEq, Eq, Structural)]
pub enum MemoryResource {
    /// Nothing in particular.
    Unspecified,
    /// Anonymous memory, with a default size for contexts, or zero.
    Anonymous { size: usize },
    /// Memory of any other kind.
    Other,
}

/// The memory domain of the Unikraft engine.
#[derive(Debug)]
pub struct UnikraftMemoryDomain {
    /// Size of a context for which no size is asked.
    pub default_size: usize,
}

impl UnikraftMemoryDomain {
    /// Sets up a domain on the given resource.
    pub fn init(config: MemoryResource) -> (result: Result<UnikraftMemoryDomain, DandelionError>)
        ensures
            result == match config {
                MemoryResource::Other => Err::<UnikraftMemoryDomain, _>(
                    DandelionError::DomainError(DomainError::ConfigMissmatch),
                ),
                MemoryResource::Unspecified => Ok(
                    UnikraftMemoryDomain { default_size: DEFAULT_CONTEXT_SIZE },
                ),
                MemoryResource::Anonymous { size } => if size == 0 {
                    Ok(UnikraftMemoryDomain { default_size: DEFAULT_CONTEXT_SIZE })
                } else if size < MIN_CONTEXT_SIZE {
                    Err(DandelionError::MemoryAllocationError)
                } else {
                    Ok(UnikraftMemoryDomain { default_size: size })
                },
            },
    {
        let default_size: usize = match config {
            MemoryResource::Anonymous { size } => {
                if size == 0 {
                    DEFAULT_CONTEXT_SIZE
                } else {
                    size
                }
            },
            MemoryResource::Unspecified => DEFAULT_CONTEXT_SIZE,
            MemoryResource::Other => {
                return Err(DandelionError::DomainError(DomainError::ConfigMissmatch));
            },
        };
        if default_size < MIN_CONTEXT_SIZE {
            return Err(DandelionError::MemoryAllocationError);
        }
        Ok(UnikraftMemoryDomain { default_size })
    }

    /// The size of a context for which `size` bytes are asked.
    pub open spec fn actual_size(&self, size: usize) -> usize {
        if size == 0 {
            self.default_size
        } else {
            size
        }
    }

    /// Whether a context of that size can be laid out and addressed.
    pub open spec fn size_fits(&self, size: usize) -> bool {
        MIN_CONTEXT_SIZE <= self.actual_size(size) <= isize::MAX - 4095
    }

    /// Lays out a context for which `size` bytes are asked; zero asks for the default size.
    pub fn plan_context(&self, size: usize) -> (result: Result<UnikraftLayout, DandelionError>)
        requires
            self.actual_size(size) >= MIN_CONTEXT_SIZE ==> self.actual_size(size) + 0x3fff_ffff
                <= usize::MAX,
        ensures
            !self.size_fits(size) ==> result == Err::<UnikraftLayout, _>(
                DandelionError::MemoryAllocationError,
            ),
            self.size_fits(size) ==> (result matches Ok(layout) && layout.of_size(
                self.actual_size(size),
            )),
            size != 0 ==> (result matches Ok(layout) ==> layout.total_size == size),
            size == 0 ==> (result matches Ok(layout) ==> layout.total_size == self.default_size),
            0 < size < MIN_CONTEXT_SIZE ==> result is Err,
    {
        let actual_size: usize = if size == 0 {
            self.default_size
        } else {
            size
        };
        if actual_size < MIN_CONTEXT_SIZE {
            return Err(DandelionError::MemoryAllocationError);
        }
        let layout: UnikraftLayout = match UnikraftLayout::calculate(actual_size) {
            Ok(layout) => layout,
            Err(e) => return Err(e),
        };
        if actual_size > isize::MAX as usize - (PAGE_SIZE - 1) {
            return Err(DandelionError::MemoryAllocationError);
        }
        Ok(layout)
    }

    /// Acquires a context for which `size` bytes are asked; zero asks for the default size.
    ///
    /// `allocation` is a zeroed buffer with a page to spare for alignment, and
    /// its address, or `None` where it could not be allocated.
    pub fn acquire_context(&self, size: usize, allocation: Option<(Vec<u8>, u64)>) -> (result:
        Result<UnikraftContext, DandelionError>)
        requires
            self.actual_size(size) >= MIN_CONTEXT_SIZE ==> self.actual_size(size) + 0x3fff_ffff
                <= usize::MAX,
            self.size_fits(size) ==> (allocation matches Some((buffer, address)) ==> {
                &&& buffer@.len() == self.actual_size(size) + 4095
                &&& forall|j: int| 0 <= j < buffer@.len() ==> #[trigger] buffer@[j] == 0
                &&& address + 4095 <= u64::MAX
            }),
        ensures
            !self.size_fits(size) || allocation is None ==> result == Err::<UnikraftContext, _>(
                DandelionError::MemoryAllocationError,
            ),
            self.size_fits(size) ==> (allocation matches Some((buffer, address)) ==> {
                &&& result matches Ok(context)
                &&& context.wf()
                &&& context.layout.of_size(self.actual_size(size))
                &&& context@ == Seq::new(self.actual_size(size) as nat, |j: int| 0u8)
                &&& !context.initialized
                &&& context.phys_base_cache is None
                &&& context.storage_addr % 4096 == 0
                &&& context.storage == buffer
                &&& context.storage_addr == address + context.start
                &&& context.start < 4096
            }),
            size != 0 ==> (result matches Ok(context) ==> context@.len() == size),
            size == 0 ==> (result matches Ok(context) ==> context@.len() == self.default_size),
            0 < size < MIN_CONTEXT_SIZE ==> result is Err,
    {
        let layout: UnikraftLayout = match self.plan_context(size) {
            Ok(layout) => layout,
            Err(e) => return Err(e),
        };
        match allocation {
            None => Err(DandelionError::MemoryAllocationError),
            Some((buffer, address)) => {
                let context: UnikraftContext = UnikraftContext::new(layout, buffer, address);
                assert(context@ =~= Seq::new(self.actual_size(size) as nat, |j: int| 0u8));
                Ok(context)
            },
        }
    }
}

/// A context is as large as was asked for; where nothing was asked for it has
/// the default size of the domain. Sizes below 2 MiB, and those that leave no
/// room to align the context in the address space, are refused, and no others.
pub proof fn contexts_have_the_size_asked_for(
    domain: UnikraftMemoryDomain,
    size: usize,
    layout: UnikraftLayout,
)
    ensures
        size != 0 ==> (domain.size_fits(size) <==> 2 * 1024 * 1024 <= size <= isize::MAX - 4095),
        size == 0 ==> (domain.size_fits(size) <==> 2 * 1024 * 1024 <= domain.default_size
            <= isize::MAX - 4095),
        size != 0 && layout.of_size(domain.actual_size(size)) ==> layout.total_size == size,
        size == 0 && layout.of_size(domain.actual_size(size)) ==> layout.total_size
            == domain.default_size,
{
}

/// The default size is 64 MiB, unless the domain was given another.
pub proof fn default_size_is_64_mebibytes()
    ensures
        DEFAULT_CONTEXT_SIZE == 64 * 1024 * 1024,
{
}

/// Laying out a context for which a size is asked gives a layout of that size,
/// or of the default size where zero is asked. What is below 2 MiB or cannot be
/// aligned in the address space is refused.
pub proof fn planned_contexts_have_the_size_asked_for(
    domain: UnikraftMemoryDomain,
    size: usize,
    result: Result<UnikraftLayout, DandelionError>,
)
    requires
        call_ensures(UnikraftMemoryDomain::plan_context, (&domain, size), result),
    ensures
        size != 0 ==> (result matches Ok(layout) ==> layout.total_size == size),
        size == 0 ==> (result matches Ok(layout) ==> layout.total_size == domain.default_size),
        size != 0 ==> (result is Ok <==> 2 * 1024 * 1024 <= size <= isize::MAX - 4095),
        size == 0 ==> (result is Ok <==> 2 * 1024 * 1024 <= domain.default_size <= isize::MAX
            - 4095),
        (result matches Err(e) ==> e == DandelionError::MemoryAllocationError),
{
}

/// A context that is acquired has the size asked for, or the default size where
/// zero is asked, is cleared, begins at a page boundary of the buffer that was
/// allocated for it, and is not initialized. Without a buffer there is none.
pub proof fn acquired_contexts_have_the_size_asked_for(
    domain: UnikraftMemoryDomain,
    size: usize,
    allocation: Option<(Vec<u8>, u64)>,
    result: Result<UnikraftContext, DandelionError>,
    j: int,
)
    requires
        call_ensures(UnikraftMemoryDomain::acquire_context, (&domain, size, allocation), result),
    ensures
        (result matches Ok(context) ==> {
            let expected = if size == 0 {
                domain.default_size
            } else {
                size
            };
            &&& context@.len() == expected
            &&& context.layout.total_size == expected
            &&& 0 <= j < expected ==> context@[j] == 0
            &&& context.storage_addr % 4096 == 0
            &&& !context.initialized
            &&& context.phys_base_cache is None
            &&& allocation matches Some((buffer, address)) && {
                &&& context.storage@ == buffer@
                &&& address <= context.storage_addr < address + 4096
                &&& context.start == context.storage_addr - address
            }
        }),
        allocation is None ==> result is Err,
        size != 0 && allocation is Some ==> (result is Ok <==> 2 * 1024 * 1024 <= size
            <= isize::MAX - 4095),
        size == 0 && allocation is Some ==> (result is Ok <==> 2 * 1024 * 1024
            <= domain.default_size <= isize::MAX - 4095),
        (result matches Err(e) ==> e == DandelionError::MemoryAllocationError),
{
}

/// A domain can be built on anonymous memory or on nothing in particular. Its
/// default size is the one given with the memory, or 64 MiB; it is never below
/// 2 MiB.
pub proof fn domains_have_a_usable_default_size(
    config: MemoryResource,
    result: Result<UnikraftMemoryDomain, DandelionError>,
)
    requires
        call_ensures(UnikraftMemoryDomain::init, (config,), result),
    ensures
        (result matches Ok(domain) ==> domain.default_size >= 2 * 1024 * 1024),
        (config is Unspecified ==> (result matches Ok(domain) && domain.default_size == 64 * 1024
            * 1024)),
        (config matches MemoryResource::Anonymous { size } ==> {
            &&& size == 0 ==> (result matches Ok(domain) && domain.default_size == 64 * 1024 * 1024)
            &&& size >= 2 * 1024 * 1024 ==> (result matches Ok(domain) && domain.default_size
                == size)
            &&& 0 < size < 2 * 1024 * 1024 ==> (result matches Err(e) && e
                == DandelionError::MemoryAllocationError)
        }),
        (config is Other ==> (result matches Err(e) && e == DandelionError::DomainError(
            DomainError::ConfigMissmatch,
        ))),
{
}

} // verus!
