//! Supervising mounts: every state answer comes from the kernel's mount table and from
//! systemd, not from what this process believes it started.

pub mod orphans;
pub mod targets;
pub mod state;
pub mod unmount;
pub mod waiting;
pub mod start;
pub mod prepare;
