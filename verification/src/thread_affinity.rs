//! On which of the host's cores the emulator's threads run.
use vstd::prelude::*;

use crate::text::{dec, put, put_dec};

verus! {

/// What the emulator's threads do.
#[derive(Clone, Copy, Debug, PartialEq, Eq, Structural)]
pub enum PerfRole {
    MipsCpu,
    Rex3Processor,
    Rex3Refresh,
}

/// Which thread is to stay on which core.
#[derive(Clone, Copy, Debug, PartialEq, Eq, Structural)]
pub struct PerfConfig {
    pub thread_affinity: bool,
    pub cpu_core: Option<u32>,
    pub rex3_core: Option<u32>,
    pub refresh_core: Option<u32>,
}

/// The configuration, once it has been given.
#[derive(Clone, Copy, Debug, PartialEq, Eq, Structural)]
pub struct ThreadAffinity {
    pub perf: Option<PerfConfig>,
}

impl PerfConfig {
    /// The core for threads of a role.
    pub open spec fn core_of(&self, role: PerfRole) -> Option<u32> {
        match role {
            PerfRole::MipsCpu => self.cpu_core,
            PerfRole::Rex3Processor => self.rex3_core,
            PerfRole::Rex3Refresh => self.refresh_core,
        }
    }
}

/// A core, if there is one, in words.
pub open spec fn core_text(core: Option<u32>) -> Seq<char> {
    match core {
        Some(n) => "Some("@ + dec(n as nat) + ")"@,
        None => "None"@,
    }
}

pub open spec fn role_text(role: PerfRole) -> Seq<char> {
    match role {
        PerfRole::MipsCpu => "MipsCpu"@,
        PerfRole::Rex3Processor => "Rex3Processor"@,
        PerfRole::Rex3Refresh => "Rex3Refresh"@,
    }
}

fn put_core(s: &mut String, core: Option<u32>)
    ensures
        final(s)@ == old(s)@ + core_text(core),
{
    match core {
        Some(n) => {
            put(s, "Some(");
            put_dec(s, n as u64);
            put(s, ")");
        },
        None => put(s, "None"),
    }
    assert(s@ =~= old(s)@ + core_text(core));
}

impl ThreadAffinity {
    /// Nothing is configured yet.
    pub fn new() -> (t: Self)
        ensures
            t.perf is None,
    {
        ThreadAffinity { perf: None }
    }

    /// Takes the configuration; only the first one counts.
    pub fn init(&mut self, perf: PerfConfig)
        ensures
            final(self).perf == match old(self).perf {
                Some(p) => Some(p),
                None => Some(perf),
            },
    {
        if self.perf.is_none() {
            self.perf = Some(perf);
        }
    }

    /// The core to which a thread of this role is to be pinned, if it is.
    pub fn core_for(&self, role: PerfRole) -> (r: Option<u32>)
        ensures
            r == match self.perf {
                Some(p) => if p.thread_affinity {
                    p.core_of(role)
                } else {
                    None
                },
                None => None,
            },
    {
        match self.perf {
            Some(p) => if p.thread_affinity {
                match role {
                    PerfRole::MipsCpu => p.cpu_core,
                    PerfRole::Rex3Processor => p.rex3_core,
                    PerfRole::Rex3Refresh => p.refresh_core,
                }
            } else {
                None
            },
            None => None,
        }
    }

    /// The configuration in one line.
    pub fn status_line(&self) -> (s: String)
        ensures
            s@ == match self.perf {
                None => "thread_affinity: (not initialized)"@,
                Some(p) => if p.thread_affinity {
                    "thread_affinity: on  cpu="@ + core_text(p.cpu_core) + " rex3="@ + core_text(
                        p.rex3_core,
                    ) + " refresh="@ + core_text(p.refresh_core)
                } else {
                    "thread_affinity: off"@
                },
            },
    {
        match self.perf {
            None => "thread_affinity: (not initialized)".to_string(),
            Some(p) => {
                if !p.thread_affinity {
                    return "thread_affinity: off".to_string();
                }
                let mut s: String = "thread_affinity: on  cpu=".to_string();
                put_core(&mut s, p.cpu_core);
                put(&mut s, " rex3=");
                put_core(&mut s, p.rex3_core);
                put(&mut s, " refresh=");
                put_core(&mut s, p.refresh_core);
                s
            },
        }
    }
}

/// What is said of a thread that was pinned.
pub fn pinned_message(role: PerfRole, core: u32) -> (s: String)
    ensures
        s@ == "iris: pinned "@ + role_text(role) + " thread to core "@ + dec(core as nat),
{
    let mut s: String = "iris: pinned ".to_string();
    match role {
        PerfRole::MipsCpu => put(&mut s, "MipsCpu"),
        PerfRole::Rex3Processor => put(&mut s, "Rex3Processor"),
        PerfRole::Rex3Refresh => put(&mut s, "Rex3Refresh"),
    }
    put(&mut s, " thread to core ");
    put_dec(&mut s, core as u64);
    s
}

/// The mask with the bit of one core, the last one for cores past it.
pub fn core_mask(core: u32) -> (m: u64)
    ensures
        m == 1u64 << (if core < 63 {
            core
        } else {
            63
        }),
{
    if core < 63 {
        1u64 << core
    } else {
        1u64 << 63
    }
}

} // verus!
