//! The access-arbitration state machine of a reader/writer lock, as one
//! registry instance sees it: any number of readers may hold shared
//! access together, one writer holds exclusive access alone.

use vstd::prelude::*;

verus! {

/// The acquisition state of one reader/writer-locked value.
///
/// From `Idle`, any number of readers may enter shared access, or one
/// writer may enter exclusive access. While shared access is held, more
/// readers may join and holders may leave; a writer must wait until the
/// reader count reaches zero. While exclusive access is held, nobody else
/// may enter until the holder releases.
#[derive(Clone, Copy, Debug, PartialEq, Eq, Structural)]
pub enum AccessState {
    Idle,
    SharedHeld { readers: u64 },
    ExclusiveHeld,
}

impl AccessState {
    /// Well-formed: shared access is "held" only by at least one reader.
    pub open spec fn wf(&self) -> bool {
        match *self {
            AccessState::SharedHeld { readers } => readers >= 1,
            _ => true,
        }
    }

    /// A reader may enter whenever no writer holds exclusive access.
    pub open spec fn can_acquire_shared(&self) -> bool {
        match *self {
            AccessState::Idle => true,
            AccessState::SharedHeld { readers } => readers < u64::MAX,
            AccessState::ExclusiveHeld => false,
        }
    }

    /// A writer may enter only when nobody holds any access at all: it
    /// must wait for every current reader to release.
    pub open spec fn can_acquire_exclusive(&self) -> bool {
        *self == AccessState::Idle
    }

    /// The state after one more reader enters shared access.
    pub open spec fn after_acquire_shared(&self) -> AccessState
        recommends
            self.can_acquire_shared(),
    {
        match *self {
            AccessState::SharedHeld { readers } => AccessState::SharedHeld {
                readers: (readers + 1) as u64,
            },
            _ => AccessState::SharedHeld { readers: 1 },
        }
    }

    /// The state after one reader releases shared access.
    pub open spec fn after_release_shared(&self) -> AccessState
        recommends
            *self matches AccessState::SharedHeld { readers } && readers >= 1,
    {
        match *self {
            AccessState::SharedHeld { readers } => if readers <= 1 {
                AccessState::Idle
            } else {
                AccessState::SharedHeld { readers: (readers - 1) as u64 }
            },
            _ => AccessState::Idle,
        }
    }

    /// The initial state: nobody holds access.
    pub fn initial() -> (s: AccessState)
        ensures
            s == AccessState::Idle,
            s.wf(),
    {
        AccessState::Idle
    }

    /// One reader asks for shared access: granted (with the reader
    /// counted) exactly when no writer holds exclusive access, otherwise
    /// the reader must wait and the state is unchanged.
    pub fn try_acquire_shared(self) -> (r: Option<AccessState>)
        requires
            self.wf(),
        ensures
            self.can_acquire_shared() ==> r == Some(self.after_acquire_shared()),
            !self.can_acquire_shared() ==> r == None::<AccessState>,
            (r matches Some(next) ==> next.wf()),
    {
        match self {
            AccessState::Idle => Some(AccessState::SharedHeld { readers: 1 }),
            AccessState::SharedHeld { readers } => {
                if readers < u64::MAX {
                    Some(AccessState::SharedHeld { readers: readers + 1 })
                } else {
                    None
                }
            },
            AccessState::ExclusiveHeld => None,
        }
    }

    /// One reader releases shared access; when the count reaches zero the
    /// value is idle again (and a pending writer may now enter).
    pub fn release_shared(self) -> (r: AccessState)
        requires
            self.wf(),
            self matches AccessState::SharedHeld { readers },
        ensures
            r == self.after_release_shared(),
            r.wf(),
    {
        match self {
            AccessState::SharedHeld { readers } => {
                if readers <= 1 {
                    AccessState::Idle
                } else {
                    AccessState::SharedHeld { readers: readers - 1 }
                }
            },
            _ => AccessState::Idle,
        }
    }

    /// A writer asks for exclusive access: granted exactly when nobody
    /// holds any access, otherwise the writer must wait.
    pub fn try_acquire_exclusive(self) -> (r: Option<AccessState>)
        requires
            self.wf(),
        ensures
            self.can_acquire_exclusive() ==> r == Some(AccessState::ExclusiveHeld),
            !self.can_acquire_exclusive() ==> r == None::<AccessState>,
            (r matches Some(next) ==> next.wf()),
    {
        match self {
            AccessState::Idle => Some(AccessState::ExclusiveHeld),
            _ => None,
        }
    }

    /// The writer releases exclusive access.
    pub fn release_exclusive(self) -> (r: AccessState)
        requires
            self == AccessState::ExclusiveHeld,
        ensures
            r == AccessState::Idle,
            r.wf(),
    {
        AccessState::Idle
    }
}

/// The state in which exactly `k` readers hold shared access.
pub open spec fn readers_holding(k: u64) -> AccessState {
    if k == 0 {
        AccessState::Idle
    } else {
        AccessState::SharedHeld { readers: k }
    }
}

/// Readers never block each other: however many readers already hold
/// shared access, one more is admitted at once (never made to wait), and
/// any holder may release at once. Shared access therefore overlaps
/// freely among readers.
pub proof fn lemma_readers_never_block(k: u64)
    requires
        k < u64::MAX,
    ensures
        readers_holding(k).wf(),
        readers_holding(k).can_acquire_shared(),
        readers_holding(k).after_acquire_shared() == readers_holding((k + 1) as u64),
        readers_holding((k + 1) as u64).after_release_shared() == readers_holding(k),
{
}

/// A writer never interleaves with in-flight readers: while any reader
/// holds shared access a writer cannot enter, and while the writer holds
/// exclusive access no reader can enter and no second writer can enter.
/// No snapshot can therefore observe a half-applied replacement.
pub proof fn lemma_writer_excludes_readers(s: AccessState)
    requires
        s.wf(),
    ensures
        (s matches AccessState::SharedHeld { readers }) ==> !s.can_acquire_exclusive(),
        s == AccessState::ExclusiveHeld ==> !s.can_acquire_shared()
            && !s.can_acquire_exclusive(),
{
}

} // verus!
