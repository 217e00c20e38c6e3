//! The task manager's process table and counters: processes on the four
//! quat cores with pause, resume and kill, the RAM region map and the disk
//! sector map.  The load charts are floating point and kept by the caller.

use vstd::prelude::*;
use crate::kernel::QuatKernel;
use crate::quat_dos::count_used;

verus! {

/// The state of a process.
#[derive(Clone, Copy, Debug, PartialEq, Eq, Structural)]
pub enum ProcessState {
    Running,
    Ready,
    Paused,
    Blocked,
    Terminated,
}

/// A process.
#[derive(Clone, Debug)]
pub struct QuatProcess {
    pub pid: u8,
    pub name: String,
    pub state: ProcessState,
    pub priority: u8,
    pub mem_base: u8,
    pub mem_limit: u8,
    pub cpu_cycles: u64,
    pub quat_core_id: usize,
}

/// The task manager's tabs.
#[derive(Clone, Copy, Debug, PartialEq, Eq, Structural)]
pub enum ActiveTab {
    Overview,
    Processes,
    CpuGraph,
    RamHeatmap,
    GpuInspector,
    StorageDisk,
}

/// What a RAM address holds in the heat map: code (0x00-0x3F),
/// data and video (0x40-0x9F), the stack (0xE0-0xFF), or free memory,
/// used or not.
#[derive(Clone, Copy, Debug, PartialEq, Eq, Structural)]
pub enum RamRegion {
    Code,
    Data,
    Stack,
    FreeUsed,
    FreeEmpty,
}

/// The task manager.
pub struct TaskManager {
    pub active_tab: ActiveTab,
    pub processes: Vec<QuatProcess>,
    pub selected_ram_addr: Option<u8>,
    pub disk_sectors_used: [bool; 64],
    pub io_read_bytes: u32,
    pub io_write_bytes: u32,
    pub auto_refresh: bool,
    pub tick_counter: u64,
}

/// The region of address `addr` holding `val`.
pub open spec fn region_of(addr: u8, val: u8) -> RamRegion {
    if addr <= 0x3F {
        RamRegion::Code
    } else if addr <= 0x9F {
        RamRegion::Data
    } else if addr >= 0xE0 {
        RamRegion::Stack
    } else if val != 0 {
        RamRegion::FreeUsed
    } else {
        RamRegion::FreeEmpty
    }
}

/// The pids of a process list.
pub open spec fn pids(ps: Seq<QuatProcess>) -> Seq<u8> {
    ps.map_values(|p: QuatProcess| p.pid)
}

/// The processes of `ps` whose pid is not `pid`, in order.
pub open spec fn without_pid(ps: Seq<QuatProcess>, pid: u8) -> Seq<QuatProcess>
    decreases ps.len(),
{
    if ps.len() == 0 {
        Seq::empty()
    } else {
        let r = without_pid(ps.drop_last(), pid);
        if ps.last().pid != pid {
            r.push(ps.last())
        } else {
            r
        }
    }
}

/// A copy of the process `q`.
fn copy_process(q: &QuatProcess) -> (r: QuatProcess)
    ensures
        r == *q,
{
    QuatProcess {
        pid: q.pid,
        name: q.name.clone(),
        state: q.state,
        priority: q.priority,
        mem_base: q.mem_base,
        mem_limit: q.mem_limit,
        cpu_cycles: q.cpu_cycles,
        quat_core_id: q.quat_core_id,
    }
}

/// Process `p` after a pause (running processes pause) or a resume
/// (paused processes run).
pub open spec fn toggled(p: QuatProcess, pause: bool) -> QuatProcess {
    if pause && p.state == ProcessState::Running {
        QuatProcess { state: ProcessState::Paused, ..p }
    } else if !pause && p.state == ProcessState::Paused {
        QuatProcess { state: ProcessState::Running, ..p }
    } else {
        p
    }
}

impl TaskManager {
    /// The overview tab, four demo processes (kernel.sys, quat_dos.sh,
    /// assembler_ide, chiptune_dsp on cores 0-3), the first 8 disk sectors
    /// used, 1024 bytes read and 256 written, auto-refresh on.
    pub fn new() -> (t: TaskManager)
        ensures
            t.active_tab == ActiveTab::Overview,
            t.processes@.len() == 4,
            pids(t.processes@) == seq![0u8, 1, 2, 3],
            t.processes@[0].name@ == "kernel.sys"@ && t.processes@[0].state == ProcessState::Running,
            t.processes@[1].name@ == "quat_dos.sh"@ && t.processes@[1].state == ProcessState::Ready,
            t.processes@[2].name@ == "assembler_ide"@ && t.processes@[2].state == ProcessState::Running,
            t.processes@[3].name@ == "chiptune_dsp"@ && t.processes@[3].state == ProcessState::Paused,
            forall|i: int| 0 <= i < 4 ==> #[trigger] t.processes@[i].quat_core_id == i,
            t.selected_ram_addr is None,
            forall|i: int| 0 <= i < 64 ==> #[trigger] t.disk_sectors_used@[i] == (i < 8),
            t.io_read_bytes == 1024,
            t.io_write_bytes == 256,
            t.auto_refresh,
            t.tick_counter == 0,
    {
        let mut disk_sectors = [false; 64];
        let mut i: usize = 0;
        while i < 8
            invariant
                i <= 8,
                forall|k: int| 0 <= k < 64 ==> #[trigger] disk_sectors@[k] == (k < i),
            decreases 8 - i,
        {
            disk_sectors[i] = true;
            i = i + 1;
        }
        let mut procs: Vec<QuatProcess> = Vec::new();
        procs.push(
            QuatProcess {
                pid: 0,
                name: String::from_str("kernel.sys"),
                state: ProcessState::Running,
                priority: 3,
                mem_base: 0x00,
                mem_limit: 0x1F,
                cpu_cycles: 14205,
                quat_core_id: 0,
            },
        );
        procs.push(
            QuatProcess {
                pid: 1,
                name: String::from_str("quat_dos.sh"),
                state: ProcessState::Ready,
                priority: 2,
                mem_base: 0x20,
                mem_limit: 0x3F,
                cpu_cycles: 3820,
                quat_core_id: 1,
            },
        );
        procs.push(
            QuatProcess {
                pid: 2,
                name: String::from_str("assembler_ide"),
                state: ProcessState::Running,
                priority: 1,
                mem_base: 0x40,
                mem_limit: 0x7F,
                cpu_cycles: 8940,
                quat_core_id: 2,
            },
        );
        procs.push(
            QuatProcess {
                pid: 3,
                name: String::from_str("chiptune_dsp"),
                state: ProcessState::Paused,
                priority: 1,
                mem_base: 0x80,
                mem_limit: 0x9F,
                cpu_cycles: 1200,
                quat_core_id: 3,
            },
        );
        let t = TaskManager {
            active_tab: ActiveTab::Overview,
            processes: procs,
            selected_ram_addr: None,
            disk_sectors_used: disk_sectors,
            io_read_bytes: 1024,
            io_write_bytes: 256,
            auto_refresh: true,
            tick_counter: 0,
        };
        assert(pids(t.processes@) =~= seq![0u8, 1, 2, 3]);
        t
    }

    /// One refresh of the counters; returns the number of RAM bytes in use
    /// for the RAM chart.
    pub fn update_metrics(&mut self, kernel: &QuatKernel) -> (used: usize)
        requires
            old(self).tick_counter < u64::MAX,
        ensures
            final(self).tick_counter == old(self).tick_counter + 1,
            used == count_used(kernel.ram@, 256),
            final(self).processes == old(self).processes,
            final(self).disk_sectors_used == old(self).disk_sectors_used,
    {
        self.tick_counter += 1;
        let mut n: usize = 0;
        let mut i: usize = 0;
        while i < 256
            invariant
                i <= 256,
                n == count_used(kernel.ram@, i as nat),
                n <= i,
            decreases 256 - i,
        {
            if kernel.ram[i].0 != 0 {
                n = n + 1;
            }
            i = i + 1;
        }
        n
    }

    /// Pauses (`pause`) or resumes the process at `index`: only a running
    /// process pauses and only a paused one resumes.
    pub fn set_paused(&mut self, index: usize, pause: bool)
        requires
            index < old(self).processes@.len(),
        ensures
            final(self).processes@ == old(self).processes@.update(
                index as int,
                toggled(old(self).processes@[index as int], pause),
            ),
            final(self).selected_ram_addr == old(self).selected_ram_addr,
            final(self).tick_counter == old(self).tick_counter,
    {
        let st = self.processes[index].state;
        if pause && st == ProcessState::Running {
            let mut p = copy_process(&self.processes[index]);
            p.state = ProcessState::Paused;
            self.processes.set(index, p);
        } else if !pause && st == ProcessState::Paused {
            let mut p = copy_process(&self.processes[index]);
            p.state = ProcessState::Running;
            self.processes.set(index, p);
        }
    }

    /// Kills process `pid`: every process with that pid leaves the table,
    /// the others keep their order.
    pub fn kill(&mut self, pid: u8)
        ensures
            final(self).processes@ == without_pid(old(self).processes@, pid),
            final(self).selected_ram_addr == old(self).selected_ram_addr,
            final(self).tick_counter == old(self).tick_counter,
    {
        let mut kept: Vec<QuatProcess> = Vec::new();
        let mut i: usize = 0;
        while i < self.processes.len()
            invariant
                i <= self.processes@.len(),
                self.processes == old(self).processes,
                self.selected_ram_addr == old(self).selected_ram_addr,
                self.tick_counter == old(self).tick_counter,
                kept@ == without_pid(self.processes@.take(i as int), pid),
            decreases self.processes@.len() - i,
        {
            let q = &self.processes[i];
            proof {
                let t = self.processes@.take(i + 1);
                assert(t.drop_last() =~= self.processes@.take(i as int));
                assert(t.last() == *q);
            }
            if q.pid != pid {
                kept.push(copy_process(q));
            }
            i = i + 1;
        }
        assert(self.processes@.take(self.processes@.len() as int) =~= self.processes@);
        self.processes = kept;
    }
}

/// The region of RAM address `addr` holding `val`, for the heat map.
pub fn ram_region(addr: u8, val: u8) -> (r: RamRegion)
    ensures
        r == region_of(addr, val),
{
    if addr <= 0x3F {
        RamRegion::Code
    } else if addr <= 0x9F {
        RamRegion::Data
    } else if addr >= 0xE0 {
        RamRegion::Stack
    } else if val != 0 {
        RamRegion::FreeUsed
    } else {
        RamRegion::FreeEmpty
    }
}

} // verus!
