//! Job objects: the limits put on a container's processes, and the accounts
//! kept of them.
//!
//! What a job is told are plain values here; the calls that tell it are made by
//! the program around this library.

use crate::container::config::{Failure, PsrootError, ResourceLimits};
use vstd::prelude::*;

verus! {

/// All processes of the job end when its last handle is closed.
pub const KILL_ON_JOB_CLOSE: u32 = 0x2000;

pub const LIMIT_JOB_MEMORY: u32 = 0x200;

pub const LIMIT_ACTIVE_PROCESS: u32 = 0x8;

pub const LIMIT_AFFINITY: u32 = 0x10;

pub const LIMIT_PRIORITY_CLASS: u32 = 0x20;

pub const CPU_RATE_CONTROL_ENABLE: u32 = 0x1;

pub const CPU_RATE_CONTROL_HARD_CAP: u32 = 0x4;

/// The rights with which a process is opened to be put into a job: setting its
/// quota and ending it.
pub const ASSIGN_RIGHTS: u32 = 0x0101;

/// The limits of a job, each in force where its flag is set.
#[derive(Clone, Copy, Debug, PartialEq, Eq, Structural)]
pub struct ExtendedLimits {
    pub flags: u32,
    pub memory: u64,
    pub processes: u32,
    pub affinity: u64,
    pub priority: u32,
}

/// One thing that a job is told.
#[derive(Clone, Copy, Debug, PartialEq, Eq, Structural)]
pub enum JobSetting {
    Limits(ExtendedLimits),
    CpuRate { flags: u32, rate: u32 },
}

/// `flags` with `flag`, where it is wanted.
pub open spec fn flagged(flags: u32, flag: u32, wanted: bool) -> u32 {
    if wanted {
        flags | flag
    } else {
        flags
    }
}

/// The limits that a configuration asks for. A limit of 0 is none.
pub open spec fn limits_of(l: ResourceLimits) -> ExtendedLimits {
    ExtendedLimits {
        flags: flagged(
            flagged(
                flagged(
                    flagged(KILL_ON_JOB_CLOSE, LIMIT_JOB_MEMORY, l.memory > 0),
                    LIMIT_ACTIVE_PROCESS,
                    l.max_processes > 0,
                ),
                LIMIT_AFFINITY,
                l.affinity > 0,
            ),
            LIMIT_PRIORITY_CLASS,
            l.priority_class > 0,
        ),
        memory: l.memory,
        processes: l.max_processes,
        affinity: l.affinity,
        priority: l.priority_class,
    }
}

/// The hard cap on the processor time, in hundredths of a percent.
pub open spec fn cpu_cap(rate: u32) -> JobSetting {
    JobSetting::CpuRate { flags: CPU_RATE_CONTROL_ENABLE | CPU_RATE_CONTROL_HARD_CAP, rate }
}

/// What a job is told for a configuration: its limits, and a cap on the
/// processor time where that is below the whole.
pub open spec fn settings_of(l: ResourceLimits) -> Seq<JobSetting> {
    if 0 < l.cpu_rate < 10_000 {
        seq![JobSetting::Limits(limits_of(l)), cpu_cap(l.cpu_rate)]
    } else {
        seq![JobSetting::Limits(limits_of(l))]
    }
}

/// The accounts of the processor time and the processes of a job.
#[derive(Clone, Copy, Debug)]
pub struct BasicAccountingInfo {
    pub total_user_time: i64,
    pub total_kernel_time: i64,
    pub this_period_user_time: i64,
    pub this_period_kernel_time: i64,
    pub total_page_fault_count: u32,
    pub total_processes: u32,
    pub active_processes: u32,
    pub total_terminated_processes: u32,
}

/// The accounts of a job's reads and writes.
#[derive(Clone, Copy, Debug)]
pub struct IoCounters {
    pub read_operation_count: u64,
    pub write_operation_count: u64,
    pub other_operation_count: u64,
    pub read_transfer_count: u64,
    pub write_transfer_count: u64,
    pub other_transfer_count: u64,
}

/// The accounts of a job.
#[derive(Clone, Copy, Debug)]
pub struct BasicAndIoAccountingInfo {
    pub basic: BasicAccountingInfo,
    pub io: IoCounters,
}

/// What a container has used.
#[derive(Clone, Copy, Debug, PartialEq, Eq, Structural)]
pub struct ContainerStats {
    pub cpu_user_time: u64,
    pub cpu_kernel_time: u64,
    pub process_count: u32,
    pub total_processes: u32,
    pub memory_usage: u64,
    pub io_read_bytes: u64,
    pub io_write_bytes: u64,
}

/// What a container has used, from the accounts of its job and the most memory
/// that the job held.
pub open spec fn stats_of(a: BasicAndIoAccountingInfo, peak_memory: u64) -> ContainerStats {
    ContainerStats {
        cpu_user_time: a.basic.total_user_time as u64,
        cpu_kernel_time: a.basic.total_kernel_time as u64,
        process_count: a.basic.active_processes,
        total_processes: a.basic.total_processes,
        memory_usage: peak_memory,
        io_read_bytes: a.io.read_transfer_count,
        io_write_bytes: a.io.write_transfer_count,
    }
}

/// A job object of the host.
#[derive(Debug)]
pub struct JobObject {
    pub handle: isize,
}

impl JobObject {
    /// The job object that a call to create one gave: none where the handle is
    /// 0.
    pub fn new(handle: isize, code: u32) -> (r: Result<Self, PsrootError>)
        ensures
            match r {
                Ok(j) => handle != 0 && j.handle == handle,
                Err(e) => handle == 0 && e@ == (Failure::Win32 {
                    op: "CreateJobObjectW"@,
                    code,
                }),
            },
    {
        if handle == 0 {
            return Err(PsrootError::win32("CreateJobObjectW", code));
        }
        Ok(JobObject { handle })
    }

    pub fn handle(&self) -> (h: isize)
        ensures
            h == self.handle,
    {
        self.handle
    }

    /// What a job is told so that its processes end with it.
    pub fn enable_kill_on_close() -> (s: JobSetting)
        ensures
            s == JobSetting::Limits(
                ExtendedLimits {
                    flags: KILL_ON_JOB_CLOSE,
                    memory: 0,
                    processes: 0,
                    affinity: 0,
                    priority: 0,
                },
            ),
    {
        JobSetting::Limits(
            ExtendedLimits {
                flags: KILL_ON_JOB_CLOSE,
                memory: 0,
                processes: 0,
                affinity: 0,
                priority: 0,
            },
        )
    }

    /// What a job is told for a configuration, in this order.
    pub fn apply_limits(limits: &ResourceLimits) -> (v: Vec<JobSetting>)
        ensures
            v@ == settings_of(*limits),
    {
        let mut flags: u32 = KILL_ON_JOB_CLOSE;
        if limits.memory > 0 {
            flags = flags | LIMIT_JOB_MEMORY;
        }
        if limits.max_processes > 0 {
            flags = flags | LIMIT_ACTIVE_PROCESS;
        }
        if limits.affinity > 0 {
            flags = flags | LIMIT_AFFINITY;
        }
        if limits.priority_class > 0 {
            flags = flags | LIMIT_PRIORITY_CLASS;
        }
        let mut v = vec![
            JobSetting::Limits(
                ExtendedLimits {
                    flags,
                    memory: limits.memory,
                    processes: limits.max_processes,
                    affinity: limits.affinity,
                    priority: limits.priority_class,
                },
            ),
        ];
        if limits.cpu_rate > 0 && limits.cpu_rate < 10_000 {
            v.push(Self::set_cpu_rate(limits.cpu_rate));
        }
        assert(v@ =~= settings_of(*limits));
        v
    }

    /// What a job is told to cap its processor time, in hundredths of a percent.
    pub fn set_cpu_rate(rate: u32) -> (s: JobSetting)
        ensures
            s == cpu_cap(rate),
    {
        JobSetting::CpuRate { flags: CPU_RATE_CONTROL_ENABLE | CPU_RATE_CONTROL_HARD_CAP, rate }
    }

    /// What a job is told to limit its memory.
    pub fn set_memory_limit(bytes: u64) -> (s: JobSetting)
        ensures
            s == JobSetting::Limits(
                ExtendedLimits {
                    flags: KILL_ON_JOB_CLOSE | LIMIT_JOB_MEMORY,
                    memory: bytes,
                    processes: 0,
                    affinity: 0,
                    priority: 0,
                },
            ),
    {
        JobSetting::Limits(
            ExtendedLimits {
                flags: KILL_ON_JOB_CLOSE | LIMIT_JOB_MEMORY,
                memory: bytes,
                processes: 0,
                affinity: 0,
                priority: 0,
            },
        )
    }

    /// What a job is told to limit its processes.
    pub fn set_process_limit(max: u32) -> (s: JobSetting)
        ensures
            s == JobSetting::Limits(
                ExtendedLimits {
                    flags: KILL_ON_JOB_CLOSE | LIMIT_ACTIVE_PROCESS,
                    memory: 0,
                    processes: max,
                    affinity: 0,
                    priority: 0,
                },
            ),
    {
        JobSetting::Limits(
            ExtendedLimits {
                flags: KILL_ON_JOB_CLOSE | LIMIT_ACTIVE_PROCESS,
                memory: 0,
                processes: max,
                affinity: 0,
                priority: 0,
            },
        )
    }

    /// What comes of telling the job a setting.
    pub fn set_info(ok: bool, code: u32) -> (r: Result<(), PsrootError>)
        ensures
            match r {
                Ok(_) => ok,
                Err(e) => !ok && e@ == (Failure::Win32 {
                    op: "SetInformationJobObject"@,
                    code,
                }),
            },
    {
        if !ok {
            return Err(PsrootError::win32("SetInformationJobObject", code));
        }
        Ok(())
    }

    /// What comes of asking the job for its accounts.
    pub fn query_info(ok: bool, code: u32) -> (r: Result<(), PsrootError>)
        ensures
            match r {
                Ok(_) => ok,
                Err(e) => !ok && e@ == (Failure::Win32 {
                    op: "QueryInformationJobObject"@,
                    code,
                }),
            },
    {
        if !ok {
            return Err(PsrootError::win32("QueryInformationJobObject", code));
        }
        Ok(())
    }

    /// What comes of putting a process into the job.
    pub fn assign_handle(ok: bool, code: u32) -> (r: Result<(), PsrootError>)
        ensures
            match r {
                Ok(_) => ok,
                Err(e) => !ok && e@ == (Failure::Win32 {
                    op: "AssignProcessToJobObject"@,
                    code,
                }),
            },
    {
        if !ok {
            return Err(PsrootError::win32("AssignProcessToJobObject", code));
        }
        Ok(())
    }

    /// What comes of putting a process into the job by its number: `process` is
    /// the handle under which it was opened, 0 if it was not. An opened handle
    /// is closed in either case.
    pub fn assign_pid(process: isize, open_code: u32, ok: bool, code: u32) -> (r: (
        Result<(), PsrootError>,
        bool,
    ))
        ensures
            r.1 == (process != 0),
            match r.0 {
                Ok(_) => process != 0 && ok,
                Err(e) => if process == 0 {
                    e@ == (Failure::Win32 { op: "OpenProcess"@, code: open_code })
                } else {
                    !ok && e@ == (Failure::Win32 { op: "AssignProcessToJobObject"@, code })
                },
            },
    {
        if process == 0 {
            return (Err(PsrootError::win32("OpenProcess", open_code)), false);
        }
        (Self::assign_handle(ok, code), true)
    }

    /// What comes of ending all processes of the job. That a job has none left
    /// is no failure: the error code is then 0.
    pub fn terminate(ok: bool, code: u32) -> (r: Result<(), PsrootError>)
        ensures
            match r {
                Ok(_) => ok || code == 0,
                Err(e) => !ok && code != 0 && e@ == (Failure::Win32 {
                    op: "TerminateJobObject"@,
                    code,
                }),
            },
    {
        if !ok && code != 0 {
            return Err(PsrootError::win32("TerminateJobObject", code));
        }
        Ok(())
    }

    /// What a container has used.
    pub fn query_stats(accounts: &BasicAndIoAccountingInfo, peak_memory: u64) -> (s: ContainerStats)
        ensures
            s == stats_of(*accounts, peak_memory),
    {
        ContainerStats {
            cpu_user_time: accounts.basic.total_user_time as u64,
            cpu_kernel_time: accounts.basic.total_kernel_time as u64,
            process_count: accounts.basic.active_processes,
            total_processes: accounts.basic.total_processes,
            memory_usage: peak_memory,
            io_read_bytes: accounts.io.read_transfer_count,
            io_write_bytes: accounts.io.write_transfer_count,
        }
    }
}

proof fn lemma_flags(f: u32, memory: bool, processes: bool, affinity: bool, priority: bool)
    requires
        f == flagged(
            flagged(
                flagged(
                    flagged(KILL_ON_JOB_CLOSE, LIMIT_JOB_MEMORY, memory),
                    LIMIT_ACTIVE_PROCESS,
                    processes,
                ),
                LIMIT_AFFINITY,
                affinity,
            ),
            LIMIT_PRIORITY_CLASS,
            priority,
        ),
    ensures
        f & KILL_ON_JOB_CLOSE != 0,
        f & LIMIT_JOB_MEMORY != 0 <==> memory,
        f & LIMIT_ACTIVE_PROCESS != 0 <==> processes,
        f & LIMIT_AFFINITY != 0 <==> affinity,
        f & LIMIT_PRIORITY_CLASS != 0 <==> priority,
{
    let a: u32 = if memory { 0x200u32 } else { 0u32 };
    let b: u32 = if processes { 0x8u32 } else { 0u32 };
    let c: u32 = if affinity { 0x10u32 } else { 0u32 };
    let d: u32 = if priority { 0x20u32 } else { 0u32 };
    assert(forall|x: u32| #[trigger] (x | 0u32) == x) by (bit_vector);
    let g = (((0x2000u32 | a) | b) | c) | d;
    assert(g == f);
    assert(g & 0x2000u32 != 0 && ((g & 0x200u32 != 0) <==> a == 0x200u32) && ((g & 0x8u32 != 0)
        <==> b == 0x8u32) && ((g & 0x10u32 != 0) <==> c == 0x10u32) && ((g & 0x20u32 != 0) <==> d
        == 0x20u32)) by (bit_vector)
        requires
            g == (((0x2000u32 | a) | b) | c) | d,
            a == 0 || a == 0x200u32,
            b == 0 || b == 0x8u32,
            c == 0 || c == 0x10u32,
            d == 0 || d == 0x20u32,
    ;
}

/// Whatever limits a job gets, its processes end with it; and a limit is in
/// force exactly where the configuration gives one.
pub proof fn law_limits_in_force(l: ResourceLimits)
    ensures
        limits_of(l).flags & KILL_ON_JOB_CLOSE != 0,
        limits_of(l).flags & LIMIT_JOB_MEMORY != 0 <==> l.memory > 0,
        limits_of(l).flags & LIMIT_ACTIVE_PROCESS != 0 <==> l.max_processes > 0,
        limits_of(l).flags & LIMIT_AFFINITY != 0 <==> l.affinity > 0,
        limits_of(l).flags & LIMIT_PRIORITY_CLASS != 0 <==> l.priority_class > 0,
{
    lemma_flags(
        limits_of(l).flags,
        l.memory > 0,
        l.max_processes > 0,
        l.affinity > 0,
        l.priority_class > 0,
    );
}

/// The limits of a job as Windows reads them: its processes end with it, each
/// limit is in force exactly where it is set, with its value, and no other flag
/// is.
pub proof fn law_limits_by_number(l: ResourceLimits)
    ensures
        ({
            let f = limits_of(l).flags;
            &&& f & 0x2000 != 0
            &&& f & 0x200 != 0 <==> l.memory > 0
            &&& f & 0x8 != 0 <==> l.max_processes > 0
            &&& f & 0x10 != 0 <==> l.affinity > 0
            &&& f & 0x20 != 0 <==> l.priority_class > 0
            &&& f & !(0x2000u32 | 0x200 | 0x8 | 0x10 | 0x20) == 0
            &&& limits_of(l).memory == l.memory
            &&& limits_of(l).processes == l.max_processes
            &&& limits_of(l).affinity == l.affinity
            &&& limits_of(l).priority == l.priority_class
        }),
{
    law_limits_in_force(l);
    let a = flagged(KILL_ON_JOB_CLOSE, LIMIT_JOB_MEMORY, l.memory > 0);
    let b = flagged(a, LIMIT_ACTIVE_PROCESS, l.max_processes > 0);
    let c = flagged(b, LIMIT_AFFINITY, l.affinity > 0);
    let d = flagged(c, LIMIT_PRIORITY_CLASS, l.priority_class > 0);
    assert((a == 0x2000 || a == 0x2000u32 | 0x200) && (b == a || b == a | 0x8) && (c == b || c == b
        | 0x10) && (d == c || d == c | 0x20) ==> d & !(0x2000u32 | 0x200 | 0x8 | 0x10 | 0x20) == 0)
        by (bit_vector);
}

/// The processor is capped, hard, exactly where less than all of it was asked
/// for, at the rate that was asked for; and the limits always come first.
pub proof fn law_processor_cap(l: ResourceLimits, rate: u32)
    ensures
        settings_of(l)[0] == JobSetting::Limits(limits_of(l)),
        settings_of(l).len() == 2 <==> 0 < l.cpu_rate < 10_000,
        settings_of(l).len() == 1 <==> l.cpu_rate == 0 || l.cpu_rate >= 10_000,
        settings_of(l).len() == 2 ==> settings_of(l)[1] == (JobSetting::CpuRate {
            flags: 5,
            rate: l.cpu_rate,
        }),
        cpu_cap(rate) == (JobSetting::CpuRate { flags: 5, rate }),
{
    assert(0x1u32 | 0x4 == 5) by (bit_vector);
}

/// What a container has used is what its job accounts for: times, processes that
/// run and that ran, the peak of its memory, and the bytes that it read and
/// wrote.
pub proof fn law_usage(a: BasicAndIoAccountingInfo, peak: u64)
    ensures
        a.basic.total_user_time >= 0 ==> stats_of(a, peak).cpu_user_time == a.basic.total_user_time,
        a.basic.total_kernel_time >= 0 ==> stats_of(a, peak).cpu_kernel_time
            == a.basic.total_kernel_time,
        stats_of(a, peak).process_count == a.basic.active_processes,
        stats_of(a, peak).total_processes == a.basic.total_processes,
        stats_of(a, peak).memory_usage == peak,
        stats_of(a, peak).io_read_bytes == a.io.read_transfer_count,
        stats_of(a, peak).io_write_bytes == a.io.write_transfer_count,
{
}

/// A process is put into a job with the rights to end it and to set its quota.
pub proof fn law_assign_rights()
    ensures
        ASSIGN_RIGHTS == 0x1u32 | 0x100,
{
    assert(0x0101u32 == 0x1u32 | 0x100) by (bit_vector);
}

} // verus!
