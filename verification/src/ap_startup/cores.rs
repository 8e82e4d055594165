//! Per-processor data, tasks and the pool of processors.

use crate::ap_startup::{cpu_state, task_status, MAX_CPUS};
use vstd::prelude::*;

verus! {

/// What the boot trampoline shares with a processor.
#[derive(Debug, Clone, Copy, PartialEq, Eq, Structural)]
pub struct CpuData {
    /// Index of the processor; 0 is the one that boots the others.
    pub idx: u32,
    /// Identifier of its interrupt controller.
    pub id: u32,
    /// Its state, one of `cpu_state`.
    pub state: u8,
    /// Address at which it starts.
    pub entry: u64,
    /// Its stack pointer.
    pub stackp: u64,
    /// Address of the information on its current task.
    pub task_info_ptr: u64,
}

impl CpuData {
    /// The data of a processor that is offline.
    pub fn new() -> (data: CpuData)
        ensures
            data == (CpuData {
                idx: 0,
                id: 0,
                state: cpu_state::OFFLINE,
                entry: 0,
                stackp: 0,
                task_info_ptr: 0,
            }),
    {
        CpuData { idx: 0, id: 0, state: cpu_state::OFFLINE, entry: 0, stackp: 0, task_info_ptr: 0 }
    }
}

impl Default for CpuData {
    fn default() -> (data: CpuData)
        ensures
            data == (CpuData {
                idx: 0,
                id: 0,
                state: cpu_state::OFFLINE,
                entry: 0,
                stackp: 0,
                task_info_ptr: 0,
            }),
    {
        CpuData::new()
    }
}

/// What a processor has to know of the task that it is to execute.
#[derive(Debug, Clone, Copy, PartialEq, Eq, Structural)]
pub struct ApTaskInfo {
    /// Entry point of the user code.
    pub entry_point: u64,
    /// Physical address of the user page tables.
    pub user_cr3: u64,
    /// Physical address of the kernel page tables.
    pub kernel_cr3: u64,
    /// Virtual address of the trampoline to user code.
    pub k2u_trampoline: u64,
    /// Virtual address of the trampoline back to the kernel.
    pub u2k_trampoline: u64,
    /// State of the task, one of `task_status`.
    pub status: u8,
    pub gdt_base: u64,
    pub gdt_limit: u16,
    pub idt_base: u64,
    pub idt_limit: u16,
    pub tss_base: u64,
    pub tss_selector: u16,
}

impl ApTaskInfo {
    /// The information of no task.
    pub open spec fn blank() -> ApTaskInfo {
        ApTaskInfo {
            entry_point: 0,
            user_cr3: 0,
            kernel_cr3: 0,
            k2u_trampoline: 0,
            u2k_trampoline: 0,
            status: task_status::IDLE,
            gdt_base: 0,
            gdt_limit: 0,
            idt_base: 0,
            idt_limit: 0,
            tss_base: 0,
            tss_selector: 0,
        }
    }

    /// The information of no task.
    pub fn new() -> (info: ApTaskInfo)
        ensures
            info == ApTaskInfo::blank(),
    {
        ApTaskInfo {
            entry_point: 0,
            user_cr3: 0,
            kernel_cr3: 0,
            k2u_trampoline: 0,
            u2k_trampoline: 0,
            status: task_status::IDLE,
            gdt_base: 0,
            gdt_limit: 0,
            idt_base: 0,
            idt_limit: 0,
            tss_base: 0,
            tss_selector: 0,
        }
    }

    /// Sets everything that the execution of a task needs; the task is idle then.
    pub fn setup_task(
        &mut self,
        entry_point: u64,
        user_cr3: u64,
        kernel_cr3: u64,
        k2u_trampoline: u64,
        u2k_trampoline: u64,
        gdt_base: u64,
        gdt_limit: u16,
        idt_base: u64,
        idt_limit: u16,
        tss_base: u64,
        tss_selector: u16,
    )
        ensures
            *final(self) == (ApTaskInfo {
                entry_point,
                user_cr3,
                kernel_cr3,
                k2u_trampoline,
                u2k_trampoline,
                status: task_status::IDLE,
                gdt_base,
                gdt_limit,
                idt_base,
                idt_limit,
                tss_base,
                tss_selector,
            }),
    {
        self.entry_point = entry_point;
        self.user_cr3 = user_cr3;
        self.kernel_cr3 = kernel_cr3;
        self.k2u_trampoline = k2u_trampoline;
        self.u2k_trampoline = u2k_trampoline;
        self.gdt_base = gdt_base;
        self.gdt_limit = gdt_limit;
        self.idt_base = idt_base;
        self.idt_limit = idt_limit;
        self.tss_base = tss_base;
        self.tss_selector = tss_selector;
        self.status = task_status::IDLE;
    }

    /// The state of the task.
    pub fn read_status(&self) -> (status: u8)
        ensures
            status == self.status,
    {
        self.status
    }

    /// Sets the state of the task.
    pub fn write_status(&mut self, status: u8)
        ensures
            *final(self) == (ApTaskInfo { status, ..*old(self) }),
    {
        self.status = status;
    }

    /// One turn of waiting for the task: its state, once it is over.
    ///
    /// `None` asks the caller to wait and to look again.
    pub fn wait_for_completion(&self) -> (status: Option<u8>)
        ensures
            status == if self.status >= task_status::DONE {
                Some(self.status)
            } else {
                None
            },
    {
        let status: u8 = self.read_status();
        if status >= task_status::DONE {
            return Some(status);
        }
        None
    }
}

impl Default for ApTaskInfo {
    fn default() -> (info: ApTaskInfo)
        ensures
            info == ApTaskInfo::blank(),
    {
        ApTaskInfo::new()
    }
}

/// The processors that tasks can be executed on.
#[derive(Debug)]
pub struct CorePool {
    /// State of every processor, one of `cpu_state`.
    core_status: [u8; MAX_CPUS],
    /// Number of online processors.
    online_count: u8,
}

/// The pool hands out `core`: the first idle one, other than the one that boots the others.
pub open spec fn hands_out(before: Seq<u8>, after: Seq<u8>, core: int) -> bool {
    &&& 1 <= core < MAX_CPUS
    &&& before[core] == cpu_state::IDLE
    &&& forall|j: int| 1 <= j < core ==> #[trigger] before[j] != cpu_state::IDLE
    &&& after == before.update(core, cpu_state::BUSY)
}

/// No processor is left to hand out.
pub open spec fn exhausted(status: Seq<u8>) -> bool {
    forall|j: int| 1 <= j < MAX_CPUS ==> #[trigger] status[j] != cpu_state::IDLE
}

/// There is such a processor, and it is offline.
pub open spec fn is_offline(status: Seq<u8>, core_id: int) -> bool {
    0 <= core_id < MAX_CPUS && status[core_id] == cpu_state::OFFLINE
}

/// `status` with the processor idle, where there is such a processor.
pub open spec fn made_idle(status: Seq<u8>, core_id: int) -> Seq<u8> {
    if 0 <= core_id < MAX_CPUS {
        status.update(core_id, cpu_state::IDLE)
    } else {
        status
    }
}

/// Number of processors in `status` that are not offline.
pub open spec fn online_cores(status: Seq<u8>) -> nat
    decreases status.len(),
{
    if status.len() == 0 {
        0
    } else {
        online_cores(status.drop_last()) + if status.last() != cpu_state::OFFLINE {
            1nat
        } else {
            0
        }
    }
}

impl CorePool {
    /// The state of every processor.
    pub closed spec fn status(&self) -> Seq<u8> {
        self.core_status@
    }

    /// Number of processors that are not offline.
    pub open spec fn online(&self) -> nat {
        online_cores(self.status())
    }

    /// The count is the number of online processors.
    #[verifier::type_invariant]
    spec fn count_is_right(&self) -> bool {
        self.online_count == online_cores(self.core_status@)
    }

    /// The pool knows a state for each of the possible processors.
    pub proof fn status_length(&self)
        ensures
            self.status().len() == MAX_CPUS,
    {
    }

    /// A pool with all processors offline.
    pub fn new() -> (pool: CorePool)
        ensures
            pool.status() == Seq::new(MAX_CPUS as nat, |i: int| cpu_state::OFFLINE),
            pool.online() == 0,
    {
        let core_status: [u8; MAX_CPUS] = [cpu_state::OFFLINE; MAX_CPUS];
        proof {
            lemma_all_offline(MAX_CPUS as nat);
            assert(core_status@ =~= Seq::new(MAX_CPUS as nat, |i: int| cpu_state::OFFLINE));
        }
        CorePool { core_status, online_count: 0 }
    }

    /// Marks a processor as online and available.
    pub fn bring_core_online(&mut self, core_id: usize)
        ensures
            final(self).status() == made_idle(old(self).status(), core_id as int),
            final(self).online() == old(self).online() + if is_offline(
                old(self).status(),
                core_id as int,
            ) {
                1int
            } else {
                0
            },
    {
        self.make_idle(core_id);
    }

    /// Makes a processor available, and counts it where it was offline.
    fn make_idle(&mut self, core_id: usize)
        ensures
            final(self).status() == made_idle(old(self).status(), core_id as int),
            final(self).online() == old(self).online() + if is_offline(
                old(self).status(),
                core_id as int,
            ) {
                1int
            } else {
                0
            },
    {
        if core_id < MAX_CPUS {
            proof {
                use_type_invariant(&*self);
                lemma_online_update(self.core_status@, core_id as int, cpu_state::IDLE);
            }
            let mut core_status: [u8; MAX_CPUS] = self.core_status;
            let mut online_count: u8 = self.online_count;
            if core_status[core_id] == cpu_state::OFFLINE {
                online_count = online_count + 1;
            }
            core_status[core_id] = cpu_state::IDLE;
            *self = CorePool { core_status, online_count };
        }
    }

    /// Takes an available processor out of the pool; `None` if all are busy.
    pub fn acquire_core(&mut self) -> (core: Option<usize>)
        ensures
            final(self).online() == old(self).online(),
            match core {
                Some(i) => hands_out(old(self).status(), final(self).status(), i as int),
                None => exhausted(old(self).status()) && final(self).status()
                    == old(self).status(),
            },
    {
        let mut i: usize = 1;
        while i < MAX_CPUS
            invariant
                1 <= i <= MAX_CPUS,
                *self == *old(self),
                forall|j: int| 1 <= j < i ==> #[trigger] self.core_status@[j] != cpu_state::IDLE,
            decreases MAX_CPUS - i,
        {
            if self.core_status[i] == cpu_state::IDLE {
                proof {
                    use_type_invariant(&*self);
                    lemma_online_update(self.core_status@, i as int, cpu_state::BUSY);
                }
                let mut core_status: [u8; MAX_CPUS] = self.core_status;
                core_status[i] = cpu_state::BUSY;
                *self = CorePool { core_status, online_count: self.online_count };
                return Some(i);
            }
            i = i + 1;
        }
        None
    }

    /// Puts a processor back into the pool: it is available then. One that was
    /// offline is online then, and is counted.
    pub fn release_core(&mut self, core_id: usize)
        ensures
            final(self).status() == made_idle(old(self).status(), core_id as int),
            final(self).online() == old(self).online() + if is_offline(
                old(self).status(),
                core_id as int,
            ) {
                1int
            } else {
                0
            },
    {
        self.make_idle(core_id);
    }

    /// Number of online processors.
    pub fn online_count(&self) -> (count: u8)
        ensures
            count == self.online(),
    {
        proof {
            use_type_invariant(self);
        }
        self.online_count
    }
}

impl Default for CorePool {
    fn default() -> (pool: CorePool)
        ensures
            pool.status() == Seq::new(MAX_CPUS as nat, |i: int| cpu_state::OFFLINE),
            pool.online() == 0,
    {
        CorePool::new()
    }
}

/// A processor that is handed out is busy then.
pub proof fn handed_out_core_is_busy(before: Seq<u8>, after: Seq<u8>, core: int)
    requires
        before.len() == MAX_CPUS,
        hands_out(before, after, core),
    ensures
        after[core] == cpu_state::BUSY,
{
}

/// In every state of the pool a busy processor is not handed out, and it stays
/// busy whatever other processors are handed out, put back or brought online.
pub proof fn busy_core_is_not_handed_out(
    status: Seq<u8>,
    core: int,
    later: Seq<u8>,
    handed_out: int,
    idle: int,
)
    requires
        status.len() == MAX_CPUS,
        0 <= core < MAX_CPUS,
        status[core] == cpu_state::BUSY,
    ensures
        hands_out(status, later, handed_out) ==> handed_out != core && later[core]
            == cpu_state::BUSY,
        idle != core ==> made_idle(status, idle)[core] == cpu_state::BUSY,
{
}

/// Putting a processor back restores the pool as it was before it was handed out.
pub proof fn release_undoes_acquire(before: Seq<u8>, after: Seq<u8>, core: int)
    requires
        before.len() == MAX_CPUS,
        hands_out(before, after, core),
    ensures
        made_idle(after, core) == before,
{
    assert(made_idle(after, core) =~= before);
}

/// After a processor other than the one that boots the others was brought
/// online or put back, there is one to hand out.
pub proof fn idle_core_can_be_acquired(status: Seq<u8>, core: int)
    requires
        status.len() == MAX_CPUS,
        1 <= core < MAX_CPUS,
    ensures
        !exhausted(made_idle(status, core)),
{
    assert(made_idle(status, core)[core] == cpu_state::IDLE);
}

proof fn lemma_online_update(status: Seq<u8>, core: int, state: u8)
    requires
        0 <= core < status.len(),
        state != cpu_state::OFFLINE,
    ensures
        online_cores(status.update(core, state)) == online_cores(status) + if status[core]
            == cpu_state::OFFLINE {
            1int
        } else {
            0
        },
        status[core] == cpu_state::OFFLINE ==> online_cores(status) < status.len(),
    decreases status.len(),
{
    lemma_online_bound(status.drop_last());
    let updated = status.update(core, state);
    if core == status.len() - 1 {
        assert(updated.drop_last() =~= status.drop_last());
    } else {
        assert(updated.drop_last() =~= status.drop_last().update(core, state));
        lemma_online_update(status.drop_last(), core, state);
    }
}

proof fn lemma_online_bound(status: Seq<u8>)
    ensures
        online_cores(status) <= status.len(),
    decreases status.len(),
{
    if status.len() > 0 {
        lemma_online_bound(status.drop_last());
    }
}

/// The number of online processors is zero for a new pool and at most that of
/// all processors. Bringing one online or putting one back raises it by one
/// where that one was offline; otherwise no operation changes it.
pub proof fn count_follows_the_cores(status: Seq<u8>, core: int, after: Seq<u8>)
    requires
        status.len() == MAX_CPUS,
    ensures
        online_cores(Seq::new(MAX_CPUS as nat, |i: int| cpu_state::OFFLINE)) == 0,
        online_cores(status) <= MAX_CPUS,
        online_cores(made_idle(status, core)) == online_cores(status) + if is_offline(
            status,
            core,
        ) {
            1int
        } else {
            0
        },
        hands_out(status, after, core) ==> online_cores(after) == online_cores(status),
{
    lemma_all_offline(MAX_CPUS as nat);
    lemma_online_bound(status);
    if 0 <= core < MAX_CPUS {
        lemma_online_update(status, core, cpu_state::IDLE);
        lemma_online_update(status, core, cpu_state::BUSY);
    }
}

/// A processor that is brought online or put back a second time is not counted
/// again.
pub proof fn cores_are_counted_once(status: Seq<u8>, core: int)
    requires
        status.len() == MAX_CPUS,
    ensures
        made_idle(made_idle(status, core), core) == made_idle(status, core),
        online_cores(made_idle(made_idle(status, core), core)) == online_cores(
            made_idle(status, core),
        ),
{
    assert(made_idle(made_idle(status, core), core) =~= made_idle(status, core));
}

proof fn lemma_all_offline(n: nat)
    ensures
        online_cores(Seq::new(n, |i: int| cpu_state::OFFLINE)) == 0,
    decreases n,
{
    let all = Seq::new(n, |i: int| cpu_state::OFFLINE);
    if n > 0 {
        assert(all.drop_last() =~= Seq::new((n - 1) as nat, |i: int| cpu_state::OFFLINE));
        lemma_all_offline((n - 1) as nat);
    }
}

/// The information of no task is zero throughout.
pub proof fn no_task_is_all_zero()
    ensures
        ({
            let info = ApTaskInfo::blank();
            &&& info.entry_point == 0 && info.user_cr3 == 0 && info.kernel_cr3 == 0
            &&& info.k2u_trampoline == 0 && info.u2k_trampoline == 0 && info.status == 0
            &&& info.gdt_base == 0 && info.gdt_limit == 0
            &&& info.idt_base == 0 && info.idt_limit == 0
            &&& info.tss_base == 0 && info.tss_selector == 0
        }),
{
}

/// Handing a processor out makes it busy and changes no other. It was idle, and
/// no processor between the first and it was. The first is never handed out.
pub proof fn first_idle_core_is_handed_out(before: Seq<u8>, after: Seq<u8>, core: int, j: int)
    requires
        before.len() == 64,
        hands_out(before, after, core),
        0 <= j < 64,
    ensures
        0 < core < 64,
        before[core] == 2,
        after[core] == 3,
        after.len() == 64,
        j != core ==> after[j] == before[j],
        0 < j < core ==> before[j] != 2,
{
}

/// Nothing is handed out only if no processor but the first is idle.
pub proof fn nothing_is_handed_out_only_if_none_is_idle(status: Seq<u8>, j: int)
    requires
        exhausted(status),
        0 < j < 64,
    ensures
        status[j] != 2,
{
}

/// Making a processor idle changes no other; where there is no such processor
/// nothing changes.
pub proof fn one_core_is_made_idle(status: Seq<u8>, core: int, j: int)
    requires
        status.len() == 64,
        0 <= j < 64,
    ensures
        made_idle(status, core).len() == 64,
        j == core ==> made_idle(status, core)[j] == 2,
        j != core ==> made_idle(status, core)[j] == status[j],
        is_offline(status, j) == (status[j] == 0),
        core < 0 || 64 <= core ==> !is_offline(status, core),
{
}

/// The count is zero where all processors are offline; a change of one of them
/// changes it by one where that goes online or offline, else not at all.
pub proof fn count_changes_with_each_core(status: Seq<u8>, core: int, state: u8)
    requires
        0 <= core < status.len(),
    ensures
        (forall|j: int| 0 <= j < status.len() ==> #[trigger] status[j] == 0) ==> online_cores(
            status,
        ) == 0,
        status[core] == 0 && state != 0 ==> online_cores(status.update(core, state))
            == online_cores(status) + 1,
        status[core] != 0 && state == 0 ==> online_cores(status.update(core, state)) + 1
            == online_cores(status),
        (status[core] == 0) == (state == 0) ==> online_cores(status.update(core, state))
            == online_cores(status),
    decreases status.len(),
{
    let updated = status.update(core, state);
    if forall|j: int| 0 <= j < status.len() ==> #[trigger] status[j] == 0 {
        lemma_all_offline(status.len());
        assert(status =~= Seq::new(status.len(), |i: int| cpu_state::OFFLINE));
    }
    if core == status.len() - 1 {
        assert(updated.drop_last() =~= status.drop_last());
    } else {
        assert(updated.drop_last() =~= status.drop_last().update(core, state));
        count_changes_with_each_core(status.drop_last(), core, state);
    }
}

/// A new pool has no processor online.
pub proof fn new_pools_are_offline(pool: CorePool, j: int)
    requires
        call_ensures(CorePool::new, (), pool),
        0 <= j < 64,
    ensures
        pool.status().len() == 64,
        pool.status()[j] == 0,
        pool.online() == 0,
{
}

/// Bringing a processor online and putting one back both make it idle, change no
/// other, and count it if it was offline.
pub proof fn available_cores_are_idle_and_counted(
    brought: &mut CorePool,
    released: &mut CorePool,
    core_id: usize,
    j: int,
)
    requires
        call_ensures(CorePool::bring_core_online, (brought, core_id), ()),
        call_ensures(CorePool::release_core, (released, core_id), ()),
        old(brought).status().len() == 64,
        old(released).status().len() == 64,
        0 <= j < 64,
    ensures
        j == core_id ==> final(brought).status()[j] == 2 && final(released).status()[j] == 2,
        j != core_id ==> final(brought).status()[j] == old(brought).status()[j],
        j != core_id ==> final(released).status()[j] == old(released).status()[j],
        final(brought).online() - old(brought).online() == if core_id < 64 && old(brought).status()[core_id as int] == 0 {
            1int
        } else {
            0
        },
        final(released).online() - old(released).online() == if core_id < 64 && old(released).status()[core_id as int] == 0 {
            1int
        } else {
            0
        },
{
}

/// Acquiring gives the first idle processor but the one that boots the others,
/// and makes it busy; it gives none only if none is idle. No other processor and
/// no count changes.
pub proof fn acquired_cores_were_idle(
    pool: &mut CorePool,
    core: Option<usize>,
    j: int,
)
    requires
        call_ensures(CorePool::acquire_core, (pool,), core),
        old(pool).status().len() == 64,
        0 <= j < 64,
    ensures
        (core matches Some(i) ==> {
            &&& 0 < i < 64
            &&& old(pool).status()[i as int] == 2
            &&& final(pool).status()[i as int] == 3
            &&& 0 < j < i ==> old(pool).status()[j] != 2
            &&& j != i ==> final(pool).status()[j] == old(pool).status()[j]
        }),
        core is None && j > 0 ==> old(pool).status()[j] != 2,
        core is None ==> final(pool).status()[j] == old(pool).status()[j],
        final(pool).online() == old(pool).online(),
{
}

/// The count that is given is the number of processors that are not offline.
pub proof fn counts_are_of_the_online_cores(pool: CorePool, count: u8)
    requires
        call_ensures(CorePool::online_count, (&pool,), count),
    ensures
        count == online_cores(pool.status()),
{
}

/// A task that was set up has everything that was given, and is idle.
pub proof fn tasks_have_what_was_given(
    info: &mut ApTaskInfo,
    entry_point: u64,
    user_cr3: u64,
    kernel_cr3: u64,
    k2u_trampoline: u64,
    u2k_trampoline: u64,
    gdt_base: u64,
    gdt_limit: u16,
    idt_base: u64,
    idt_limit: u16,
    tss_base: u64,
    tss_selector: u16,
)
    requires
        call_ensures(
            ApTaskInfo::setup_task,
            (
                info,
                entry_point,
                user_cr3,
                kernel_cr3,
                k2u_trampoline,
                u2k_trampoline,
                gdt_base,
                gdt_limit,
                idt_base,
                idt_limit,
                tss_base,
                tss_selector,
            ),
            (),
        ),
    ensures
        final(info).entry_point == entry_point,
        final(info).user_cr3 == user_cr3,
        final(info).kernel_cr3 == kernel_cr3,
        final(info).k2u_trampoline == k2u_trampoline,
        final(info).u2k_trampoline == u2k_trampoline,
        final(info).gdt_base == gdt_base,
        final(info).gdt_limit == gdt_limit,
        final(info).idt_base == idt_base,
        final(info).idt_limit == idt_limit,
        final(info).tss_base == tss_base,
        final(info).tss_selector == tss_selector,
        final(info).status == 0,
{
}

/// The status that was written is the one that is read, and waiting ends with it
/// if and only if it says that the task is done or has failed.
pub proof fn written_status_is_read(
    info: &mut ApTaskInfo,
    status: u8,
    later: ApTaskInfo,
    read: u8,
    waited: Option<u8>,
)
    requires
        call_ensures(ApTaskInfo::write_status, (info, status), ()),
        call_ensures(ApTaskInfo::read_status, (&later,), read),
        call_ensures(ApTaskInfo::wait_for_completion, (&later,), waited),
    ensures
        later == *final(info) ==> read == status,
        later == *final(info) ==> waited == if status >= 2 {
            Some(status)
        } else {
            None
        },
        final(info).entry_point == old(info).entry_point,
        final(info).user_cr3 == old(info).user_cr3,
{
}

} // verus!
