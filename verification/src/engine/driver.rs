//! The driver that starts engines and prepares functions for them.

use crate::errors::DandelionError;
use vstd::prelude::*;
use vstd::slice::slice_subrange;

verus! {

/// A resource that an engine can be started on.
#[derive(Debug, Clone, Copy, PartialEq, Eq, Structural)]
pub enum ComputeResource {
    /// The processor with the given number.
    CPU(u8),
    /// A resource of another kind.
    Other,
}

/// A range of bytes.
#[derive(Debug, Clone, Copy, PartialEq, Eq, Structural)]
pub struct Position {
    pub offset: usize,
    pub size: usize,
}

/// What an ELF parser found in a binary. `P` describes the memory protection,
/// `E` is what the parser reports as an error.
#[derive(Debug)]
pub struct ParsedElf<P, E> {
    /// Where the system data of the function is, or why its symbol was not found.
    pub system_data: Result<usize, E>,
    pub entry_point: usize,
    pub protection_flags: P,
    /// Where the segments have to be placed.
    pub static_requirements: Vec<Position>,
    /// Where the segments are in the binary.
    pub source_layout: Vec<Position>,
}

/// The configuration of an ELF function.
#[derive(Debug)]
pub struct ElfConfig<P> {
    pub system_data_offset: usize,
    pub entry_point: usize,
    pub protection_flags: P,
}

/// The configuration of a function.
#[derive(Debug)]
pub enum FunctionConfig<P> {
    ElfConfig(ElfConfig<P>),
    /// A configuration for another engine.
    Other,
}

/// A named piece of data in a context.
#[derive(Debug)]
pub struct DataItem {
    pub ident: String,
    pub data: Position,
    pub key: u32,
}

/// A named set of data items.
#[derive(Debug)]
pub struct DataSet {
    pub ident: String,
    pub buffers: Vec<DataItem>,
}

/// What has to be in a context before a function can run in it.
#[derive(Debug)]
pub struct DataRequirementList {
    pub input_requirements: Vec<Position>,
    pub static_requirements: Vec<Position>,
}

/// The segments of a function, one after the other.
#[derive(Debug)]
pub struct StaticContext {
    pub bytes: Vec<u8>,
    pub content: Vec<Option<DataSet>>,
}

/// A function that is ready to be loaded.
#[derive(Debug)]
pub struct Function<P> {
    pub requirements: DataRequirementList,
    pub context: StaticContext,
    pub config: FunctionConfig<P>,
}

/// Total size of the first `n` segments.
pub open spec fn size_before(layout: Seq<Position>, n: int) -> int
    decreases n,
{
    if n <= 0 {
        0
    } else {
        size_before(layout, n - 1) + layout[n - 1].size
    }
}

/// The bytes of the first `n` segments, one after the other.
pub open spec fn segments(binary: Seq<u8>, layout: Seq<Position>, n: int) -> Seq<u8>
    decreases n,
{
    if n <= 0 {
        Seq::empty()
    } else {
        segments(binary, layout, n - 1) + binary.subrange(
            layout[n - 1].offset as int,
            layout[n - 1].offset + layout[n - 1].size,
        )
    }
}

/// All segments lie in the binary.
pub open spec fn in_binary(binary: Seq<u8>, layout: Seq<Position>) -> bool {
    forall|i: int|
        0 <= i < layout.len() ==> (#[trigger] layout[i]).offset + layout[i].size <= binary.len()
}

proof fn lemma_sizes_increase(layout: Seq<Position>, n: int, m: int)
    requires
        n <= m,
    ensures
        0 <= size_before(layout, n) <= size_before(layout, m),
    decreases m,
{
    if n < m && m > 0 {
        lemma_sizes_increase(layout, n, m - 1);
    } else if m > 0 {
        lemma_sizes_increase(layout, n - 1, m - 1);
    }
}

proof fn lemma_segments_length(binary: Seq<u8>, layout: Seq<Position>, n: int)
    requires
        in_binary(binary, layout),
        0 <= n <= layout.len(),
    ensures
        segments(binary, layout, n).len() == size_before(layout, n),
    decreases n,
{
    if n > 0 {
        assert(layout[n - 1].offset + layout[n - 1].size <= binary.len());
        lemma_segments_length(binary, layout, n - 1);
    }
}

/// Every item of static data holds the bytes of its segment.
pub proof fn items_hold_their_segments(
    binary: Seq<u8>,
    layout: Seq<Position>,
    n: int,
    i: int,
)
    requires
        in_binary(binary, layout),
        0 <= i < n <= layout.len(),
    ensures
        segments(binary, layout, n).subrange(
            size_before(layout, i),
            size_before(layout, i) + layout[i].size,
        ) == binary.subrange(layout[i].offset as int, layout[i].offset + layout[i].size),
    decreases n,
{
    let whole = segments(binary, layout, n);
    let before = segments(binary, layout, n - 1);
    let part = binary.subrange(layout[i].offset as int, layout[i].offset + layout[i].size);
    let start = size_before(layout, i);
    assert(layout[i].offset + layout[i].size <= binary.len());
    lemma_segments_length(binary, layout, n - 1);
    lemma_segments_length(binary, layout, n);
    lemma_sizes_increase(layout, 0, i);
    if i == n - 1 {
        assert(whole.subrange(start, start + layout[i].size) =~= part);
    } else {
        items_hold_their_segments(binary, layout, n - 1, i);
        lemma_sizes_increase(layout, i + 1, n - 1);
        assert(whole.subrange(start, start + layout[i].size) =~= before.subrange(
            start,
            start + layout[i].size,
        ));
    }
}

impl StaticContext {
    /// The segments are stored one after the other, and each is an item of the
    /// one set of data.
    pub open spec fn holds(self, binary: Seq<u8>, layout: Seq<Position>) -> bool {
        &&& self.bytes@ == segments(binary, layout, layout.len() as int)
        &&& self.content@.len() == 1
        &&& self.content@[0] matches Some(set) && {
            &&& set.ident@ == "static"@
            &&& set.buffers@.len() == layout.len()
            &&& forall|i: int|
                0 <= i < set.buffers@.len() ==> {
                    let item = #[trigger] set.buffers@[i];
                    &&& item.ident@.len() == 0
                    &&& item.data.offset == size_before(layout, i)
                    &&& item.data.size == layout[i].size
                    &&& item.key == 0
                }
        }
    }
}

impl<P> Function<P> {
    /// The function is made of a binary and of what was found in it.
    pub open spec fn is_made_of<E>(
        self,
        binary: Seq<u8>,
        elf: ParsedElf<P, E>,
        system_data_offset: usize,
    ) -> bool {
        &&& self.config == FunctionConfig::ElfConfig(
            ElfConfig {
                system_data_offset,
                entry_point: elf.entry_point,
                protection_flags: elf.protection_flags,
            },
        )
        &&& self.requirements.input_requirements@.len() == 0
        &&& self.requirements.static_requirements == elf.static_requirements
        &&& self.context.holds(binary, elf.source_layout@)
    }
}

/// Driver for the Unikraft execution engine.
#[derive(Debug, Clone, Copy, PartialEq, Eq, Structural)]
pub struct UnikraftDriver {}

impl UnikraftDriver {
    /// Creates a driver.
    pub fn new() -> (driver: UnikraftDriver)
        ensures
            driver == (UnikraftDriver {  }),
    {
        UnikraftDriver {  }
    }

    /// The processor on which an engine has to be started for a resource.
    pub fn start_engine(&self, resource: ComputeResource) -> (result: Result<u8, DandelionError>)
        ensures
            result == match resource {
                ComputeResource::CPU(core) => Ok(core),
                ComputeResource::Other => Err(DandelionError::EngineResourceError),
            },
    {
        match resource {
            ComputeResource::CPU(core) => Ok(core),
            ComputeResource::Other => Err(DandelionError::EngineResourceError),
        }
    }

    /// Prepares a function from its binary and from what the ELF parser made of it.
    ///
    /// The segments are stored one after the other; each is an item of the
    /// set of static data. An error of the parser is handed on, and so is one of
    /// the lookup of the system data.
    pub fn parse_function<P, E>(
        &self,
        function_bin: &[u8],
        elf: Result<ParsedElf<P, E>, E>,
    ) -> (result: Result<Function<P>, E>)
        requires
            (elf matches Ok(parsed) ==> parsed.system_data is Ok ==> {
                &&& in_binary(function_bin@, parsed.source_layout@)
                &&& size_before(parsed.source_layout@, parsed.source_layout@.len() as int)
                    <= usize::MAX
            }),
        ensures
            match elf {
                Err(e) => result == Err::<Function<P>, E>(e),
                Ok(parsed) => match parsed.system_data {
                    Err(e) => result == Err::<Function<P>, E>(e),
                    Ok(system_data_offset) => result matches Ok(function) && function.is_made_of(
                        function_bin@,
                        parsed,
                        system_data_offset,
                    ),
                },
            },
            (result matches Ok(function) ==> (elf matches Ok(parsed) ==> {
                &&& function.requirements.static_requirements@ == parsed.static_requirements@
                &&& parsed.system_data is Ok
            })),
    {
        let parsed: ParsedElf<P, E> = match elf {
            Ok(parsed) => parsed,
            Err(e) => return Err(e),
        };
        let ghost whole = parsed;
        let ParsedElf {
            system_data,
            entry_point,
            protection_flags,
            static_requirements,
            source_layout,
        } = parsed;
        let system_data_offset: usize = match system_data {
            Ok(system_data_offset) => system_data_offset,
            Err(e) => return Err(e),
        };
        let context: StaticContext = store_segments(function_bin, &source_layout);
        let function: Function<P> = Function {
            requirements: DataRequirementList {
                input_requirements: Vec::new(),
                static_requirements,
            },
            context,
            config: FunctionConfig::ElfConfig(
                ElfConfig { system_data_offset, entry_point, protection_flags },
            ),
        };
        assert(function.is_made_of(function_bin@, whole, system_data_offset));
        Ok(function)
    }
}

/// Stores the segments of a binary one after the other.
fn store_segments(function_bin: &[u8], source_layout: &Vec<Position>) -> (context: StaticContext)
    requires
        in_binary(function_bin@, source_layout@),
        size_before(source_layout@, source_layout@.len() as int) <= usize::MAX,
    ensures
        context.holds(function_bin@, source_layout@),
{
    let ghost layout = source_layout@;
    let ghost n = source_layout@.len() as int;
    let mut bytes: Vec<u8> = Vec::new();
    let mut buffers: Vec<DataItem> = Vec::new();
    let mut write_counter: usize = 0;
    let mut i: usize = 0;
    while i < source_layout.len()
        invariant
            layout == source_layout@,
            n == layout.len(),
            i <= n,
            in_binary(function_bin@, layout),
            size_before(layout, n) <= usize::MAX,
            write_counter == size_before(layout, i as int),
            bytes@ == segments(function_bin@, layout, i as int),
            buffers@.len() == i,
            forall|j: int|
                0 <= j < i ==> {
                    let item = #[trigger] buffers@[j];
                    &&& item.ident@.len() == 0
                    &&& item.data.offset == size_before(layout, j)
                    &&& item.data.size == layout[j].size
                    &&& item.key == 0
                },
        decreases n - i,
    {
        let position: Position = source_layout[i];
        proof {
            lemma_sizes_increase(layout, i + 1, n);
            assert(layout[i as int].offset + layout[i as int].size <= function_bin@.len());
        }
        assert(function_bin.len() == function_bin@.len());
        let segment: &[u8] = slice_subrange(
            function_bin,
            position.offset,
            position.offset + position.size,
        );
        let ghost before = bytes@;
        bytes.extend_from_slice(segment);
        assert(bytes@ =~= before + segment@);
        buffers.push(
            DataItem {
                ident: String::new(),
                data: Position { offset: write_counter, size: position.size },
                key: 0,
            },
        );
        write_counter = write_counter + position.size;
        i = i + 1;
    }
    let mut content: Vec<Option<DataSet>> = Vec::new();
    content.push(Some(DataSet { ident: "static".to_owned(), buffers }));
    StaticContext { bytes, content }
}

impl Default for UnikraftDriver {
    fn default() -> (driver: UnikraftDriver)
        ensures
            driver == (UnikraftDriver {  }),
    {
        UnikraftDriver::new()
    }
}

/// The segments before one more end where that one begins.
pub proof fn segments_follow_each_other(binary: Seq<u8>, layout: Seq<Position>, n: int)
    requires
        0 <= n < layout.len(),
    ensures
        size_before(layout, 0) == 0,
        size_before(layout, n + 1) == size_before(layout, n) + layout[n].size,
        segments(binary, layout, 0).len() == 0,
        segments(binary, layout, n + 1) == segments(binary, layout, n) + binary.subrange(
            layout[n].offset as int,
            layout[n].offset + layout[n].size,
        ),
{
}

/// A function keeps what the parser found: every placement at its index, the
/// entry point, the protection and the place of the system data. It asks for no
/// inputs.
pub proof fn functions_keep_what_was_found<P, E>(
    function: Function<P>,
    binary: Seq<u8>,
    elf: ParsedElf<P, E>,
    system_data_offset: usize,
    i: int,
)
    requires
        function.is_made_of(binary, elf, system_data_offset),
    ensures
        function.requirements.static_requirements@.len() == elf.static_requirements@.len(),
        0 <= i < elf.static_requirements@.len()
            ==> function.requirements.static_requirements@[i].offset
            == elf.static_requirements@[i].offset
            && function.requirements.static_requirements@[i].size
            == elf.static_requirements@[i].size,
        function.requirements.input_requirements@.len() == 0,
        (function.config matches FunctionConfig::ElfConfig(config) && {
            &&& config.system_data_offset == system_data_offset
            &&& config.entry_point == elf.entry_point
            &&& config.protection_flags == elf.protection_flags
        }),
{
}

/// Each segment is an item of the one set of static data, at the index of the
/// segment. The items lie one after the other from the beginning, without gap,
/// and fill the stored bytes. Each holds the bytes of its segment in the binary.
/// Where there are as many placements as segments, each item has its placement
/// at its own index.
pub proof fn items_are_the_segments<P, E>(
    function: Function<P>,
    binary: Seq<u8>,
    elf: ParsedElf<P, E>,
    system_data_offset: usize,
    i: int,
)
    requires
        function.is_made_of(binary, elf, system_data_offset),
        in_binary(binary, elf.source_layout@),
        0 <= i < elf.source_layout@.len(),
    ensures
        function.context.content@.len() == 1,
        (function.context.content@[0] matches Some(set) && {
            let items = set.buffers@;
            let item = items[i];
            let stored = function.context.bytes@;
            let segment = elf.source_layout@[i];
            &&& set.ident@ == "static"@
            &&& items.len() == elf.source_layout@.len()
            &&& item.ident@.len() == 0
            &&& item.key == 0
            &&& item.data.size == segment.size
            &&& i == 0 ==> item.data.offset == 0
            &&& i > 0 ==> item.data.offset == items[i - 1].data.offset + items[i - 1].data.size
            &&& i == items.len() - 1 ==> stored.len() == item.data.offset + item.data.size
            &&& item.data.offset + item.data.size <= stored.len()
            &&& stored.subrange(
                item.data.offset as int,
                item.data.offset + item.data.size,
            ) == binary.subrange(segment.offset as int, segment.offset + segment.size)
            &&& elf.static_requirements@.len() == items.len()
                ==> function.requirements.static_requirements@[i] == elf.static_requirements@[i]
        }),
{
    let layout = elf.source_layout@;
    let n = layout.len() as int;
    items_hold_their_segments(binary, layout, n, i);
    lemma_segments_length(binary, layout, n);
    lemma_sizes_increase(layout, i + 1, n);
    assert(size_before(layout, i + 1) == size_before(layout, i) + layout[i].size);
    if i > 0 {
        assert(size_before(layout, i) == size_before(layout, i - 1) + layout[i - 1].size);
        let previous = function.context.content@[0]->0.buffers@[i - 1];
        assert(previous.data.offset == size_before(layout, i - 1));
    }
}

/// A binary without segments gives no bytes and no items.
pub proof fn no_segments_no_bytes<P, E>(
    function: Function<P>,
    binary: Seq<u8>,
    elf: ParsedElf<P, E>,
    system_data_offset: usize,
)
    requires
        function.is_made_of(binary, elf, system_data_offset),
        elf.source_layout@.len() == 0,
    ensures
        function.context.bytes@.len() == 0,
        (function.context.content@[0] matches Some(set) && set.buffers@.len() == 0),
{
}

/// A function is prepared if the binary could be parsed and its system data was
/// found; an error in either is handed on. It has every placement that the
/// parser found at its index, and the entry point, protection and system data
/// that were found. Each segment is an item of the static data at its index,
/// and the item holds its bytes.
pub proof fn parsed_functions_are_complete<P, E>(
    driver: UnikraftDriver,
    function_bin: &[u8],
    elf: Result<ParsedElf<P, E>, E>,
    result: Result<Function<P>, E>,
    i: int,
)
    requires
        call_ensures(UnikraftDriver::parse_function::<P, E>, (&driver, function_bin, elf), result),
        elf matches Ok(parsed) ==> in_binary(function_bin@, parsed.source_layout@),
    ensures
        (elf matches Err(e) ==> result == Err::<Function<P>, E>(e)),
        (elf matches Ok(parsed) ==> {
            &&& parsed.system_data matches Err(e) ==> result == Err::<Function<P>, E>(e)
            &&& parsed.system_data matches Ok(system_data_offset) ==> {
                &&& result matches Ok(function)
                &&& function.requirements.input_requirements@.len() == 0
                &&& function.requirements.static_requirements@.len()
                    == parsed.static_requirements@.len()
                &&& 0 <= i < parsed.static_requirements@.len()
                    ==> function.requirements.static_requirements@[i].offset
                    == parsed.static_requirements@[i].offset
                    && function.requirements.static_requirements@[i].size
                    == parsed.static_requirements@[i].size
                &&& function.config matches FunctionConfig::ElfConfig(config) && {
                    &&& config.system_data_offset == system_data_offset
                    &&& config.entry_point == parsed.entry_point
                    &&& config.protection_flags == parsed.protection_flags
                }
                &&& function.context.content@.len() == 1
                &&& function.context.content@[0] matches Some(set) && {
                    &&& set.ident@ == "static"@
                    &&& set.buffers@.len() == parsed.source_layout@.len()
                    &&& 0 <= i < set.buffers@.len() ==> {
                        let item = set.buffers@[i];
                        let segment = parsed.source_layout@[i];
                        &&& item.data.size == segment.size
                        &&& i == 0 ==> item.data.offset == 0
                        &&& i > 0 ==> item.data.offset == set.buffers@[i - 1].data.offset
                            + set.buffers@[i - 1].data.size
                        &&& function.context.bytes@.subrange(
                            item.data.offset as int,
                            item.data.offset + item.data.size,
                        ) == function_bin@.subrange(
                            segment.offset as int,
                            segment.offset + segment.size,
                        )
                        &&& i == set.buffers@.len() - 1 ==> function.context.bytes@.len()
                            == item.data.offset + item.data.size
                    }
                }
            }
        }),
{
    if let Ok(parsed) = elf {
        if let Ok(system_data_offset) = parsed.system_data {
            let function = result->Ok_0;
            functions_keep_what_was_found(
                function,
                function_bin@,
                parsed,
                system_data_offset,
                i,
            );
            if 0 <= i < parsed.source_layout@.len() {
                items_are_the_segments(function, function_bin@, parsed, system_data_offset, i);
            }
        }
    }
}

/// An engine is started on the processor that the resource names, and on nothing
/// else.
pub proof fn engines_start_on_their_processor(
    driver: UnikraftDriver,
    resource: ComputeResource,
    result: Result<u8, DandelionError>,
)
    requires
        call_ensures(UnikraftDriver::start_engine, (&driver, resource), result),
    ensures
        (resource matches ComputeResource::CPU(core) ==> (result matches Ok(slot) && slot == core)),
        resource is Other ==> (result matches Err(e) && e == DandelionError::EngineResourceError),
{
}

} // verus!
