//! The fixed figures and names, and what they have to do with each other.

use crate::actions::COMPLAINT_CAP;
use crate::config::UNIT_PREFIX;
use crate::ipc::{BUS_NAME, INTERFACE_NAME, INTERFACE_VERSION, OBJECT_PATH};
use crate::json::READ_DEPTH;
use crate::link::{Backoff, MIN_INTERFACE, START_HINT, UNIT};
use crate::menu::{FILE_CAP, NOTICE_LINES, NOTICE_WIDTH};
use crate::poller::NOT_FOUND;
use crate::supervisor::prepare::{ENOTCONN, RUNTIME_DIR_MODE};
use crate::supervisor::start::UNIT_UMASK;
use crate::supervisor::unmount::LEFT_MS;
use crate::supervisor::waiting::{
    GONE_TIMEOUT_MS, POLL_INTERVAL_MS, READY_TIMEOUT_MS, UNIT_GONE_TIMEOUT_MS,
};
use crate::text::finishes_with;
use crate::watch::SWEEP_INTERVAL_MS;
use vstd::prelude::*;

verus! {

/// Every wait takes many looks. A unit is given longer to go than its mount, and bringing one
/// up is given longest. A sweep comes round less often than a look, and within any such wait.
pub proof fn the_waits_fit_together()
    ensures
        100 * POLL_INTERVAL_MS <= GONE_TIMEOUT_MS < UNIT_GONE_TIMEOUT_MS < READY_TIMEOUT_MS,
        POLL_INTERVAL_MS == 250,
        GONE_TIMEOUT_MS == 30 * 1000,
        UNIT_GONE_TIMEOUT_MS == 35 * 1000,
        READY_TIMEOUT_MS == 45 * 1000,
        LEFT_MS == 10 * 1000,
        POLL_INTERVAL_MS < LEFT_MS < GONE_TIMEOUT_MS,
        SWEEP_INTERVAL_MS == 15 * 1000,
        POLL_INTERVAL_MS < SWEEP_INTERVAL_MS < GONE_TIMEOUT_MS,
        Backoff::FIRST == 1,
        Backoff::CEILING == 60,
{
}

/// The runtime directory is for its owner alone. What rclone creates is kept from being written
/// by others, and from nothing else. A point that lost its daemon fails as Linux says that it
/// does, and a command that is not there as in HTTP.
pub proof fn the_modes_keep_others_out()
    ensures
        RUNTIME_DIR_MODE == 7 * 64,
        RUNTIME_DIR_MODE % 64 == 0,
        UNIT_UMASK == 2 * 8 + 2,
        ENOTCONN == 107,
        NOT_FOUND == 404,
{
}

/// What is shown is bounded: files, rows and columns, and what is quoted.
pub proof fn what_is_shown_is_bounded()
    ensures
        FILE_CAP == 10,
        NOTICE_WIDTH == 64,
        NOTICE_LINES == 5,
        COMPLAINT_CAP == 200,
        COMPLAINT_CAP <= NOTICE_WIDTH * NOTICE_LINES,
        READ_DEPTH == 100,
{
}

/// The service goes by one name, which its interface has too, and which its object's path
/// spells with separators. This build speaks a version that it takes itself.
pub proof fn the_service_goes_by_one_name()
    ensures
        BUS_NAME@ == INTERFACE_NAME@,
        OBJECT_PATH@.len() == BUS_NAME@.len() + 1,
        OBJECT_PATH@[0] == '/',
        forall|i: int|
            0 <= i < BUS_NAME@.len() ==> #[trigger] OBJECT_PATH@[i + 1] == if BUS_NAME@[i] == '.' {
                '/'
            } else {
                BUS_NAME@[i]
            },
        MIN_INTERFACE <= INTERFACE_VERSION,
        INTERFACE_VERSION == 1,
        finishes_with(START_HINT@, " start "@ + UNIT@),
        UNIT_PREFIX@ == "rvt-mount-"@,
{
    reveal_strlit("io.github.stuckj.RcloneVfsmountTray1");
    reveal_strlit("/io/github/stuckj/RcloneVfsmountTray1");
    reveal_strlit("systemctl --user start rclone-vfsmount-trayd");
    reveal_strlit("rclone-vfsmount-trayd");
    reveal_strlit(" start ");
    let s = START_HINT@;
    let end = " start "@ + UNIT@;
    assert(s.subrange(s.len() - end.len(), s.len() as int) == end);
}

} // verus!
