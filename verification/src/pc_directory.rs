//! The directory of managed PCs.
//!
//! The directory owns every PC entry and an arena of shared owner
//! records. Owners are deduplicated by email address: two entries whose
//! owners carry the same email always reference the identical arena
//! record, and an attempt to register a second, different person under
//! an email already taken is rejected. Each entry's mutable state is
//! guarded by an exclusive maintenance lock, and mail is routed to the
//! first powered-on machine of the recipient, in insertion order.

use vstd::prelude::*;

use crate::pc::{default_os, is_beefy_workstation, OperatingSystem, PcBuilder, PcHardware};
use crate::person::{person_eq, valid_email, EmailAddr, Person};

verus! {

/// The ways a directory operation can fail.
#[derive(Debug)]
pub enum PcDirectoryError {
    /// A PC with a different owner, but the same email address, already
    /// exists.
    DuplicateEmailAddress { email: EmailAddr },
    /// No PC has an owner with the given email address.
    EmailNotFound { email: EmailAddr },
    /// All affected PCs are either off or in maintenance mode.
    Unavailable,
    /// The requested PC is already in maintenance for the given reason.
    InMaintenance { reason: String },
    /// The provided email address is invalid.
    InvalidEMailAddress,
}

/// The availability of one PC: powered on, powered off, or under
/// exclusive maintenance for a recorded reason.
#[derive(Debug, Clone)]
pub enum OperationalState {
    On,
    Off,
    BeingMaintained { reason: String },
}

impl OperationalState {
    pub fn is_on(&self) -> (r: bool)
        ensures
            r == (*self is On),
    {
        matches!(self, OperationalState::On)
    }
}

/// The mutable state block of one PC: its operating system, its mailbox
/// of pending messages in arrival order, and its operational state.
#[derive(Debug, Clone)]
pub struct PcState {
    pub os: OperatingSystem,
    pub mailbox: Vec<String>,
    pub maintenance: OperationalState,
}

/// One managed PC: a stable identifier, immutable hardware, an optional
/// reference into the directory's owner arena, and the mutable state.
#[derive(Debug)]
pub struct PcDirectoryEntry {
    pub id: usize,
    pub hardware: PcHardware,
    pub owner: Option<usize>,
    pub state: PcState,
}

/// The registry of PC entries. `owners` is the arena of shared person
/// records that entries reference by index.
pub struct PcDirectory {
    pub owners: Vec<Person>,
    pub directory: Vec<PcDirectoryEntry>,
}

/// The entry at position `i` carries `i` as its identifier and
/// references an existing arena record, if any.
pub open spec fn entry_valid(d: PcDirectory, i: int) -> bool {
    &&& d.directory@[i].id == i
    &&& match d.directory@[i].owner {
        Some(j) => (j as int) < d.owners@.len(),
        None => true,
    }
}

/// Some entry references arena record `j`.
pub open spec fn owner_referenced(d: PcDirectory, j: int) -> bool {
    exists|i: int|
        0 <= i < d.directory@.len() && (#[trigger] d.directory@[i]).owner == Some(j as usize)
}

/// Arena record `j` exists and carries `email`.
pub open spec fn owner_with_email(d: PcDirectory, email: Seq<char>, j: int) -> bool {
    0 <= j < d.owners@.len() && d.owners@[j].email@ == email
}

/// Some arena record carries `email`.
pub open spec fn has_owner_email(d: PcDirectory, email: Seq<char>) -> bool {
    exists|j: int| #[trigger] owner_with_email(d, email, j)
}

/// Registering person `p` collides with a different person already in
/// the arena under the same email address.
pub open spec fn add_conflict(d: PcDirectory, p: Person) -> bool {
    exists|j: int|
        #[trigger] owner_with_email(d, p.email@, j) && !person_eq(d.owners@[j], p)
}

impl PcDirectory {
    /// Well-formedness: identifiers are dense and stable, entry owner
    /// references stay inside the arena, arena emails are unique, and
    /// every arena record is referenced by at least one entry.
    pub open spec fn wf(&self) -> bool {
        &&& forall|i: int| 0 <= i < self.directory@.len() ==> #[trigger] entry_valid(*self, i)
        &&& forall|j: int, k: int|
            0 <= j < k < self.owners@.len() ==> (#[trigger] self.owners@[j]).email@ != (
            #[trigger] self.owners@[k]).email@
        &&& forall|j: int| 0 <= j < self.owners@.len() ==> #[trigger] owner_referenced(*self, j)
    }
}

impl Default for PcDirectory {
    fn default() -> (r: Self)
        ensures
            r.wf(),
            r.owners@.len() == 0,
            r.directory@.len() == 0,
    {
        PcDirectory { owners: Vec::new(), directory: Vec::new() }
    }
}

/// The new entry mirrors the builder: given parts are taken as they
/// are, missing ones are the defaults, the mailbox starts empty and the
/// machine starts powered on.
pub open spec fn entry_matches_builder(e: PcDirectoryEntry, id: int, b: PcBuilder) -> bool {
    &&& e.id == id
    &&& match b.hardware {
        Some(h) => e.hardware == h,
        None => is_beefy_workstation(e.hardware),
    }
    &&& match b.os {
        Some(os) => e.state.os == os,
        None => e.state.os == default_os(),
    }
    &&& e.state.mailbox@.len() == 0
    &&& e.state.maintenance is On
}

/// Everything [`PcDirectory::add_pc`] does, as a relation between the
/// directory before the call, the builder, the directory after the
/// call, and the result.
pub open spec fn add_pc_post(
    pre: PcDirectory,
    b: PcBuilder,
    post: PcDirectory,
    r: Result<(), PcDirectoryError>,
) -> bool {
    match b.owner {
        None => {
            &&& r is Ok
            &&& post.owners@ == pre.owners@
            &&& post.directory@.len() == pre.directory@.len() + 1
            &&& forall|i: int|
                0 <= i < pre.directory@.len() ==> post.directory@[i] == pre.directory@[i]
            &&& entry_matches_builder(post.directory@.last(), pre.directory@.len() as int, b)
            &&& post.directory@.last().owner is None
        },
        Some(p) => {
            if add_conflict(pre, p) {
                &&& r matches Err(PcDirectoryError::DuplicateEmailAddress { email })
                    && email@ == p.email@
                &&& post == pre
            } else {
                &&& r is Ok
                &&& post.directory@.len() == pre.directory@.len() + 1
                &&& forall|i: int|
                    0 <= i < pre.directory@.len() ==> post.directory@[i] == pre.directory@[i]
                &&& entry_matches_builder(post.directory@.last(), pre.directory@.len() as int, b)
                &&& if has_owner_email(pre, p.email@) {
                    &&& post.owners@ == pre.owners@
                    &&& exists|j: int|
                        #[trigger] owner_with_email(pre, p.email@, j) && person_eq(
                            pre.owners@[j],
                            p,
                        ) && post.directory@.last().owner == Some(j as usize)
                } else {
                    &&& post.owners@.len() == pre.owners@.len() + 1
                    &&& forall|k: int|
                        0 <= k < pre.owners@.len() ==> post.owners@[k] == pre.owners@[k]
                    &&& post.owners@.last() == p
                    &&& post.directory@.last().owner == Some(pre.owners@.len() as usize)
                }
            }
        },
    }
}

impl PcDirectoryEntry {
    fn new(id: usize, hardware: PcHardware, os: OperatingSystem, owner: Option<usize>) -> (e:
        Self)
        ensures
            e.id == id,
            e.hardware == hardware,
            e.owner == owner,
            e.state.os == os,
            e.state.mailbox@.len() == 0,
            e.state.maintenance is On,
    {
        PcDirectoryEntry {
            id,
            hardware,
            owner,
            state: PcState { os, mailbox: Vec::new(), maintenance: OperationalState::On },
        }
    }

    pub fn id(&self) -> (r: usize)
        ensures
            r == self.id,
    {
        self.id
    }
}

impl PcDirectory {
    /// Read-only view of all entries, in insertion order.
    pub fn iter_pcs(&self) -> (r: &Vec<PcDirectoryEntry>)
        ensures
            *r == self.directory,
    {
        &self.directory
    }

    /// Index of the arena record carrying `email`, if any.
    fn find_owner(&self, email: &EmailAddr) -> (r: Option<usize>)
        ensures
            match r {
                Some(j) => j < self.owners@.len() && self.owners@[j as int].email@ == email@,
                None => forall|j: int|
                    0 <= j < self.owners@.len() ==> (#[trigger] self.owners@[j]).email@ != email@,
            },
    {
        let n = self.owners.len();
        let mut j: usize = 0;
        while j < n
            invariant
                n == self.owners@.len(),
                0 <= j <= n,
                forall|k: int| 0 <= k < j ==> (#[trigger] self.owners@[k]).email@ != email@,
            decreases n - j,
        {
            let existing = &self.owners[j];
            if existing.email == *email {
                return Some(j);
            }
            j += 1;
        }
        None
    }

    /// Register a new PC.
    ///
    /// A builder without an owner always succeeds. A builder with an
    /// owner succeeds when the owner's email is new, or when it is
    /// already registered for the very same person, whose shared arena
    /// record is then reused; a different person under an already
    /// registered email is rejected and the directory is left
    /// unchanged.
    pub fn add_pc(&mut self, pcb: PcBuilder) -> (r: Result<(), PcDirectoryError>)
        requires
            old(self).wf(),
        ensures
            final(self).wf(),
            add_pc_post(*old(self), pcb, *final(self), r),
    {
        let mut b = pcb;
        b.fill_defaults();
        let id = self.directory.len();
        let PcBuilder { hardware, os, owner } = b;
        let hardware = hardware.unwrap();
        let os = os.unwrap();
        match owner {
            None => {
                self.directory.push(PcDirectoryEntry::new(id, hardware, os, None));
                proof {
                    lemma_push_keeps_wf(*old(self), *self);
                }
                Ok(())
            },
            Some(p) => {
                match self.find_owner(&p.email) {
                    Some(j) => {
                        let same = {
                            let existing = &self.owners[j];
                            *existing == p
                        };
                        if !same {
                            proof {
                                assert(owner_with_email(*old(self), p.email@, j as int));
                                assert(add_conflict(*old(self), p));
                            }
                            return Err(
                                PcDirectoryError::DuplicateEmailAddress { email: p.email.clone() },
                            );
                        }
                        self.directory.push(PcDirectoryEntry::new(id, hardware, os, Some(j)));
                        proof {
                            let pre = *old(self);
                            assert(owner_with_email(pre, p.email@, j as int));
                            assert forall|j2: int|
                                #[trigger] owner_with_email(pre, p.email@, j2) implies person_eq(
                                pre.owners@[j2],
                                p,
                            ) by {
                                if j2 != j as int {
                                    // two distinct arena records would share one email
                                    assert(pre.owners@[j2].email@ == pre.owners@[j as int].email@);
                                    assert(false);
                                }
                            }
                            assert(!add_conflict(pre, p));
                            lemma_push_keeps_wf(pre, *self);
                        }
                        Ok(())
                    },
                    None => {
                        let j = self.owners.len();
                        self.owners.push(p);
                        self.directory.push(PcDirectoryEntry::new(id, hardware, os, Some(j)));
                        proof {
                            let pre = *old(self);
                            assert forall|j2: int|
                                !(#[trigger] owner_with_email(pre, p.email@, j2)) by {}
                            assert(!add_conflict(pre, p));
                            assert(!has_owner_email(pre, p.email@));
                            lemma_append_owner_keeps_wf(pre, *self, j as int);
                        }
                        Ok(())
                    },
                }
            },
        }
    }
}

/// Entry `i` exists and its owner carries `email`.
pub open spec fn entry_owned_by(d: PcDirectory, i: int, email: Seq<char>) -> bool {
    &&& 0 <= i < d.directory@.len()
    &&& match d.directory@[i].owner {
        Some(j) => (j as int) < d.owners@.len() && d.owners@[j as int].email@ == email,
        None => false,
    }
}

/// Some entry's owner carries `email`.
pub open spec fn has_recipient(d: PcDirectory, email: Seq<char>) -> bool {
    exists|i: int| #[trigger] entry_owned_by(d, i, email)
}

/// Entry `i` is powered on.
pub open spec fn entry_on(d: PcDirectory, i: int) -> bool {
    d.directory@[i].state.maintenance is On
}

/// Entry `k` is the first one, in insertion order, that belongs to
/// `email` and is powered on.
pub open spec fn first_on_recipient(d: PcDirectory, email: Seq<char>, k: int) -> bool {
    &&& entry_owned_by(d, k, email)
    &&& entry_on(d, k)
    &&& forall|i: int| 0 <= i < k && #[trigger] entry_owned_by(d, i, email) ==> !entry_on(d, i)
}

/// Exactly one message, with the text `msg`, was appended to the
/// mailbox of entry `k`; everything else is unchanged.
pub open spec fn delivered(pre: PcDirectory, post: PcDirectory, k: int, msg: Seq<char>) -> bool {
    &&& 0 <= k < pre.directory@.len()
    &&& post.owners@ == pre.owners@
    &&& post.directory@.len() == pre.directory@.len()
    &&& forall|i: int|
        0 <= i < pre.directory@.len() && i != k ==> post.directory@[i] == pre.directory@[i]
    &&& post.directory@[k].id == pre.directory@[k].id
    &&& post.directory@[k].hardware == pre.directory@[k].hardware
    &&& post.directory@[k].owner == pre.directory@[k].owner
    &&& post.directory@[k].state.os == pre.directory@[k].state.os
    &&& post.directory@[k].state.maintenance == pre.directory@[k].state.maintenance
    &&& post.directory@[k].state.mailbox@.len() == pre.directory@[k].state.mailbox@.len() + 1
    &&& forall|m: int|
        0 <= m < pre.directory@[k].state.mailbox@.len() ==> post.directory@[k].state.mailbox@[m]
            == pre.directory@[k].state.mailbox@[m]
    &&& post.directory@[k].state.mailbox@.last()@ == msg
}

/// Everything [`PcDirectory::send_email`] does: an invalid address is
/// rejected, an address nobody owns a PC under is reported, otherwise
/// the message goes to the first powered-on PC of the recipient, and
/// when all their PCs are off or under maintenance nothing is
/// delivered.
pub open spec fn send_email_post(
    pre: PcDirectory,
    to: Seq<char>,
    msg: Seq<char>,
    post: PcDirectory,
    r: Result<(), PcDirectoryError>,
) -> bool {
    if !valid_email(to) {
        &&& r == Err::<(), PcDirectoryError>(PcDirectoryError::InvalidEMailAddress)
        &&& post == pre
    } else if !has_recipient(pre, to) {
        &&& r matches Err(PcDirectoryError::EmailNotFound { email }) && email@ == to
        &&& post == pre
    } else if exists|k: int| #[trigger] first_on_recipient(pre, to, k) {
        &&& r is Ok
        &&& exists|k: int| #[trigger] first_on_recipient(pre, to, k) && delivered(pre, post, k, msg)
    } else {
        &&& r == Err::<(), PcDirectoryError>(PcDirectoryError::Unavailable)
        &&& post == pre
    }
}

impl PcDirectory {
    /// Send `message` to the person with address `to`: it is put into
    /// the mailbox of the first powered-on PC belonging to that
    /// person, in insertion order.
    pub fn send_email(&mut self, to: &str, message: &str) -> (r: Result<(), PcDirectoryError>)
        requires
            old(self).wf(),
        ensures
            final(self).wf(),
            send_email_post(*old(self), to@, message@, *final(self), r),
    {
        let to_addr = match EmailAddr::new(to) {
            Some(a) => a,
            None => {
                return Err(PcDirectoryError::InvalidEMailAddress);
            },
        };
        let n = self.directory.len();
        let mut i: usize = 0;
        let mut any = false;
        while i < n
            invariant
                old(self).wf(),
                *self == *old(self),
                n == self.directory@.len(),
                0 <= i <= n,
                to_addr@ == to@,
                valid_email(to@),
                any <==> exists|k: int| 0 <= k < i && #[trigger] entry_owned_by(*self, k, to@),
                forall|k: int|
                    0 <= k < i && #[trigger] entry_owned_by(*self, k, to@) ==> !entry_on(*self, k),
            decreases n - i,
        {
            let mut deliver = false;
            {
                let e = &self.directory[i];
                match e.owner {
                    Some(j) => {
                        proof {
                            assert(entry_valid(*self, i as int));
                        }
                        if self.owners[j].email == to_addr {
                            any = true;
                            proof {
                                assert(entry_owned_by(*self, i as int, to@));
                            }
                            if e.state.maintenance.is_on() {
                                deliver = true;
                            }
                        } else {
                            proof {
                                assert(!entry_owned_by(*self, i as int, to@));
                            }
                        }
                    },
                    None => {
                        proof {
                            assert(!entry_owned_by(*self, i as int, to@));
                        }
                    },
                }
            }
            if deliver {
                proof {
                    assert(entry_owned_by(*self, i as int, to@));
                    assert(entry_on(*self, i as int));
                    assert(first_on_recipient(*old(self), to@, i as int));
                }
                let msg = String::from_str(message);
                let e = &mut self.directory[i];
                e.state.mailbox.push(msg);
                proof {
                    let pre = *old(self);
                    assert(delivered(pre, *self, i as int, message@));
                    assert forall|ii: int| 0 <= ii < self.directory@.len() implies #[trigger]
                    entry_valid(*self, ii) by {
                        assert(entry_valid(pre, ii));
                    }
                    assert forall|j: int| 0 <= j < self.owners@.len() implies #[trigger]
                    owner_referenced(*self, j) by {
                        assert(owner_referenced(pre, j));
                        let w = choose|w: int|
                            0 <= w < pre.directory@.len() && (#[trigger] pre.directory@[w]).owner
                                == Some(j as usize);
                        assert(self.directory@[w].owner == Some(j as usize));
                    }
                }
                return Ok(());
            }
            i += 1;
        }
        if any {
            proof {
                assert forall|k: int| !(#[trigger] first_on_recipient(*self, to@, k)) by {
                    if first_on_recipient(*self, to@, k) {
                        assert(entry_owned_by(*self, k, to@));
                        assert(!entry_on(*self, k));
                    }
                }
            }
            Err(PcDirectoryError::Unavailable)
        } else {
            proof {
                assert forall|k: int| !(#[trigger] entry_owned_by(*self, k, to@)) by {}
            }
            Err(PcDirectoryError::EmailNotFound { email: to_addr })
        }
    }
}

/// The witness that one maintenance lock is held on the entry whose
/// identifier it carries. It grants its holder exclusive permission to
/// overwrite the operating system of that entry, and must be given
/// back through [`MaintenanceHandle::release`] to end the maintenance
/// window.
#[derive(Debug)]
pub struct MaintenanceHandle {
    entry_id: usize,
}

/// Everything [`PcDirectoryEntry::acquire_maintenance_lock`] does: a
/// powered-on machine moves into maintenance and yields the one
/// handle; a machine already under maintenance reports the existing
/// reason; a powered-off machine is unavailable. Failed attempts leave
/// the entry unchanged.
pub open spec fn acquire_post(
    pre: PcDirectoryEntry,
    reason: Seq<char>,
    post: PcDirectoryEntry,
    r: Result<MaintenanceHandle, PcDirectoryError>,
) -> bool {
    match pre.state.maintenance {
        OperationalState::On => {
            &&& r matches Ok(h) && h.entry() == pre.id
            &&& post.id == pre.id
            &&& post.hardware == pre.hardware
            &&& post.owner == pre.owner
            &&& post.state.os == pre.state.os
            &&& post.state.mailbox == pre.state.mailbox
            &&& post.state.maintenance matches OperationalState::BeingMaintained { reason: rr }
                && rr@ == reason
        },
        OperationalState::BeingMaintained { reason: existing } => {
            &&& r matches Err(PcDirectoryError::InMaintenance { reason: rr }) && rr@ == existing@
            &&& post == pre
        },
        OperationalState::Off => {
            &&& r matches Err(e) && e is Unavailable
            &&& post == pre
        },
    }
}

/// Everything [`MaintenanceHandle::release`] does: the entry returns
/// to powered-on, whatever the recorded reason was and whether or not
/// the operating system was changed; nothing else moves.
pub open spec fn release_post(pre: PcDirectoryEntry, post: PcDirectoryEntry) -> bool {
    &&& post.id == pre.id
    &&& post.hardware == pre.hardware
    &&& post.owner == pre.owner
    &&& post.state.os == pre.state.os
    &&& post.state.mailbox == pre.state.mailbox
    &&& post.state.maintenance is On
}

impl PcDirectoryEntry {
    /// Open an exclusive maintenance window on this machine.
    ///
    /// At most one handle can be out at a time: while one is, every
    /// further attempt fails with the reason the window was opened
    /// for, until the handle is given back.
    pub fn acquire_maintenance_lock(&mut self, reason: &str) -> (r: Result<
        MaintenanceHandle,
        PcDirectoryError,
    >)
        ensures
            acquire_post(*old(self), reason@, *final(self), r),
    {
        match &self.state.maintenance {
            OperationalState::BeingMaintained { reason: existing } => Err(
                PcDirectoryError::InMaintenance { reason: existing.clone() },
            ),
            OperationalState::Off => Err(PcDirectoryError::Unavailable),
            OperationalState::On => {
                self.state.maintenance = OperationalState::BeingMaintained {
                    reason: String::from_str(reason),
                };
                Ok(MaintenanceHandle { entry_id: self.id })
            },
        }
    }
}

impl MaintenanceHandle {
    /// The identifier of the entry this handle was acquired on.
    pub closed spec fn entry(&self) -> usize {
        self.entry_id
    }

    /// Overwrite the operating system of the locked entry, the one
    /// mutation a maintenance window permits.
    pub fn update_os(&self, pc: &mut PcDirectoryEntry, new: OperatingSystem)
        requires
            self.entry() == old(pc).id,
            old(pc).state.maintenance is BeingMaintained,
        ensures
            final(pc).id == old(pc).id,
            final(pc).hardware == old(pc).hardware,
            final(pc).owner == old(pc).owner,
            final(pc).state.mailbox == old(pc).state.mailbox,
            final(pc).state.maintenance == old(pc).state.maintenance,
            final(pc).state.os == new,
    {
        pc.state.os = new;
    }

    /// Close the maintenance window: the entry returns to powered-on.
    /// The handle is consumed, so no access outlives the window.
    pub fn release(self, pc: &mut PcDirectoryEntry)
        requires
            self.entry() == old(pc).id,
            old(pc).state.maintenance is BeingMaintained,
        ensures
            release_post(*old(pc), *final(pc)),
    {
        pc.state.maintenance = OperationalState::On;
    }
}

/// Pushing one valid entry, with no change to the arena, preserves
/// directory well-formedness.
proof fn lemma_push_keeps_wf(pre: PcDirectory, post: PcDirectory)
    requires
        pre.wf(),
        post.owners@ == pre.owners@,
        post.directory@.len() == pre.directory@.len() + 1,
        forall|i: int| 0 <= i < pre.directory@.len() ==> post.directory@[i] == pre.directory@[i],
        post.directory@.last().id == pre.directory@.len(),
        match post.directory@.last().owner {
            Some(j) => (j as int) < post.owners@.len(),
            None => true,
        },
    ensures
        post.wf(),
{
    assert forall|i: int| 0 <= i < post.directory@.len() implies #[trigger] entry_valid(
        post,
        i,
    ) by {
        if i < pre.directory@.len() {
            assert(entry_valid(pre, i));
        }
    }
    assert forall|j: int| 0 <= j < post.owners@.len() implies #[trigger] owner_referenced(
        post,
        j,
    ) by {
        assert(owner_referenced(pre, j));
        let i = choose|i: int|
            0 <= i < pre.directory@.len() && (#[trigger] pre.directory@[i]).owner == Some(
                j as usize,
            );
        assert(post.directory@[i].owner == Some(j as usize));
    }
}

/// Pushing one entry that references a freshly appended arena record
/// preserves directory well-formedness, provided the new record's email
/// is new to the arena.
proof fn lemma_append_owner_keeps_wf(pre: PcDirectory, post: PcDirectory, j_new: int)
    requires
        pre.wf(),
        j_new == pre.owners@.len(),
        post.owners@.len() == pre.owners@.len() + 1,
        forall|k: int| 0 <= k < pre.owners@.len() ==> post.owners@[k] == pre.owners@[k],
        forall|k: int|
            0 <= k < pre.owners@.len() ==> (#[trigger] pre.owners@[k]).email@
                != post.owners@[j_new].email@,
        post.directory@.len() == pre.directory@.len() + 1,
        forall|i: int| 0 <= i < pre.directory@.len() ==> post.directory@[i] == pre.directory@[i],
        post.directory@.last().id == pre.directory@.len(),
        post.directory@.last().owner == Some(j_new as usize),
    ensures
        post.wf(),
{
    assert forall|i: int| 0 <= i < post.directory@.len() implies #[trigger] entry_valid(
        post,
        i,
    ) by {
        if i < pre.directory@.len() {
            assert(entry_valid(pre, i));
        }
    }
    assert forall|j: int, k: int|
        0 <= j < k < post.owners@.len() implies (#[trigger] post.owners@[j]).email@ != (
    #[trigger] post.owners@[k]).email@ by {
        if k < j_new {
            assert(pre.owners@[j].email@ != pre.owners@[k].email@);
        } else {
            assert(pre.owners@[j].email@ != post.owners@[j_new].email@);
        }
    }
    assert forall|j: int| 0 <= j < post.owners@.len() implies #[trigger] owner_referenced(
        post,
        j,
    ) by {
        if j < j_new {
            assert(owner_referenced(pre, j));
            let i = choose|i: int|
                0 <= i < pre.directory@.len() && (#[trigger] pre.directory@[i]).owner == Some(
                    j as usize,
                );
            assert(post.directory@[i].owner == Some(j as usize));
        } else {
            let i = post.directory@.len() - 1;
            assert(post.directory@[i].owner == Some(j as usize));
        }
    }
}

/// After a successful add of a PC owned by `p`, the directory holds
/// exactly one shared owner record under `p`'s email; it agrees with
/// `p` in every field, and the new entry references it.
proof fn lemma_add_ok_shared_record(
    pre: PcDirectory,
    b: PcBuilder,
    post: PcDirectory,
    r: Result<(), PcDirectoryError>,
    p: Person,
) -> (j: int)
    requires
        pre.wf(),
        b.owner == Some(p),
        add_pc_post(pre, b, post, r),
        r is Ok,
    ensures
        owner_with_email(post, p.email@, j),
        person_eq(post.owners@[j], p),
        post.directory@.last().owner == Some(j as usize),
{
    if add_conflict(pre, p) {
        assert(false);
    }
    if has_owner_email(pre, p.email@) {
        let j = choose|j: int|
            #[trigger] owner_with_email(pre, p.email@, j) && person_eq(pre.owners@[j], p)
                && post.directory@.last().owner == Some(j as usize);
        j
    } else {
        let j = pre.owners@.len() as int;
        assert(post.owners@[j] == p);
        j
    }
}

/// Dedup invariant: when one add has registered an owner, a second add
/// whose owner carries the same email but differs in any other field
/// fails with the duplicate-email error, and the failed call leaves
/// the directory, in particular its entry count, unchanged.
pub proof fn lemma_dedup_rejected(
    d0: PcDirectory,
    b1: PcBuilder,
    d1: PcDirectory,
    r1: Result<(), PcDirectoryError>,
    b2: PcBuilder,
    d2: PcDirectory,
    r2: Result<(), PcDirectoryError>,
)
    requires
        d0.wf(),
        d1.wf(),
        b1.owner matches Some(p1) && b2.owner matches Some(p2) && p1.email@ == p2.email@
            && !person_eq(p1, p2),
        add_pc_post(d0, b1, d1, r1),
        r1 is Ok,
        add_pc_post(d1, b2, d2, r2),
    ensures
        b2.owner matches Some(p2) && r2 matches Err(
            PcDirectoryError::DuplicateEmailAddress { email },
        ) && email@ == p2.email@,
        d2 == d1,
        d2.directory@.len() == d1.directory@.len(),
{
    let p1 = b1.owner->0;
    let p2 = b2.owner->0;
    let j = lemma_add_ok_shared_record(d0, b1, d1, r1, p1);
    assert(owner_with_email(d1, p2.email@, j));
    assert(!person_eq(d1.owners@[j], p2));
    assert(add_conflict(d1, p2));
}

/// Shared identity: when one add has registered an owner, a second add
/// whose owner agrees in every field also succeeds, and both new
/// entries reference the identical shared owner record.
pub proof fn lemma_shared_owner_identity(
    d0: PcDirectory,
    b1: PcBuilder,
    d1: PcDirectory,
    r1: Result<(), PcDirectoryError>,
    b2: PcBuilder,
    d2: PcDirectory,
    r2: Result<(), PcDirectoryError>,
)
    requires
        d0.wf(),
        d1.wf(),
        b1.owner matches Some(p1) && b2.owner matches Some(p2) && person_eq(p1, p2),
        add_pc_post(d0, b1, d1, r1),
        r1 is Ok,
        add_pc_post(d1, b2, d2, r2),
    ensures
        r2 is Ok,
        d2.directory@.len() == d1.directory@.len() + 1,
        d1.directory@.last().owner is Some,
        d2.directory@.last().owner == d1.directory@.last().owner,
{
    let p1 = b1.owner->0;
    let p2 = b2.owner->0;
    let j = lemma_add_ok_shared_record(d0, b1, d1, r1, p1);
    assert(owner_with_email(d1, p2.email@, j));
    assert forall|j2: int| #[trigger] owner_with_email(d1, p2.email@, j2) implies person_eq(
        d1.owners@[j2],
        p2,
    ) by {
        if j2 != j {
            assert(d1.owners@[j2].email@ == d1.owners@[j].email@);
            assert(false);
        }
    }
    assert(!add_conflict(d1, p2));
    assert(has_owner_email(d1, p2.email@));
    let j3 = choose|j3: int|
        #[trigger] owner_with_email(d1, p2.email@, j3) && person_eq(d1.owners@[j3], p2)
            && d2.directory@.last().owner == Some(j3 as usize);
    if j3 != j {
        assert(d1.owners@[j3].email@ == d1.owners@[j].email@);
        assert(false);
    }
}

/// Lock exclusivity: on a powered-on entry the first acquisition
/// succeeds; while its handle is out, a further acquisition fails,
/// reporting the reason of the first one and changing nothing; once
/// the handle is released, acquiring succeeds again.
pub proof fn lemma_lock_exclusivity(
    e0: PcDirectoryEntry,
    re1: Seq<char>,
    e1: PcDirectoryEntry,
    r1: Result<MaintenanceHandle, PcDirectoryError>,
    re2: Seq<char>,
    e2: PcDirectoryEntry,
    r2: Result<MaintenanceHandle, PcDirectoryError>,
    e3: PcDirectoryEntry,
    re4: Seq<char>,
    e4: PcDirectoryEntry,
    r4: Result<MaintenanceHandle, PcDirectoryError>,
)
    requires
        e0.state.maintenance is On,
        acquire_post(e0, re1, e1, r1),
        acquire_post(e1, re2, e2, r2),
        release_post(e2, e3),
        acquire_post(e3, re4, e4, r4),
    ensures
        r1 is Ok,
        r2 matches Err(PcDirectoryError::InMaintenance { reason }) && reason@ == re1,
        e2 == e1,
        r4 is Ok,
{
}

/// A lock on a powered-off entry always fails as unavailable, whatever
/// the reason text, and changes nothing.
pub proof fn lemma_lock_off_fails(
    e0: PcDirectoryEntry,
    reason: Seq<char>,
    e1: PcDirectoryEntry,
    r: Result<MaintenanceHandle, PcDirectoryError>,
)
    requires
        e0.state.maintenance is Off,
        acquire_post(e0, reason, e1, r),
    ensures
        r matches Err(e) && e is Unavailable,
        e1 == e0,
{
}

/// Routing policy: when a person owns exactly two entries, one powered
/// on and one not, delivery goes to the powered-on one and the other
/// entry is untouched.
pub proof fn lemma_routing_prefers_on(
    d: PcDirectory,
    email: Seq<char>,
    msg: Seq<char>,
    i: int,
    j: int,
    post: PcDirectory,
    r: Result<(), PcDirectoryError>,
)
    requires
        d.wf(),
        valid_email(email),
        entry_owned_by(d, i, email),
        entry_owned_by(d, j, email),
        entry_on(d, i),
        !entry_on(d, j),
        forall|k: int| #[trigger] entry_owned_by(d, k, email) ==> k == i || k == j,
        send_email_post(d, email, msg, post, r),
    ensures
        r is Ok,
        delivered(d, post, i, msg),
        post.directory@[j] == d.directory@[j],
{
    assert(has_recipient(d, email));
    assert(first_on_recipient(d, email, i));
    let k = choose|k: int| #[trigger] first_on_recipient(d, email, k) && delivered(d, post, k, msg);
    assert(entry_owned_by(d, k, email));
    assert(k == i);
}

/// Routing policy, the blocked half: while every entry of a recipient
/// is powered off or under maintenance, nothing is delivered and the
/// call fails as unavailable.
pub proof fn lemma_unavailable_under_maintenance(
    d: PcDirectory,
    email: Seq<char>,
    msg: Seq<char>,
    post: PcDirectory,
    r: Result<(), PcDirectoryError>,
)
    requires
        d.wf(),
        valid_email(email),
        has_recipient(d, email),
        forall|k: int| #[trigger] entry_owned_by(d, k, email) ==> !entry_on(d, k),
        send_email_post(d, email, msg, post, r),
    ensures
        r == Err::<(), PcDirectoryError>(PcDirectoryError::Unavailable),
        post == d,
{
    assert forall|k: int| !(#[trigger] first_on_recipient(d, email, k)) by {
        if first_on_recipient(d, email, k) {
            assert(entry_owned_by(d, k, email));
            assert(!entry_on(d, k));
        }
    }
}

/// Among the entries of `email`, some powered-on one is the first.
proof fn lemma_exists_first_on(d: PcDirectory, email: Seq<char>, i: int)
    requires
        entry_owned_by(d, i, email),
        entry_on(d, i),
    ensures
        exists|k: int| #[trigger] first_on_recipient(d, email, k),
    decreases i,
{
    if exists|m: int| 0 <= m < i && #[trigger] entry_owned_by(d, m, email) && entry_on(d, m) {
        let m = choose|m: int|
            0 <= m < i && #[trigger] entry_owned_by(d, m, email) && entry_on(d, m);
        lemma_exists_first_on(d, email, m);
    } else {
        assert(first_on_recipient(d, email, i));
    }
}

/// Routing policy, the recovered half: as soon as the recipient owns
/// some powered-on entry again, delivery succeeds.
pub proof fn lemma_delivery_when_powered_on(
    d: PcDirectory,
    email: Seq<char>,
    msg: Seq<char>,
    i: int,
    post: PcDirectory,
    r: Result<(), PcDirectoryError>,
)
    requires
        d.wf(),
        valid_email(email),
        entry_owned_by(d, i, email),
        entry_on(d, i),
        send_email_post(d, email, msg, post, r),
    ensures
        r is Ok,
        exists|k: int| #[trigger] first_on_recipient(d, email, k) && delivered(d, post, k, msg),
{
    assert(has_recipient(d, email));
    lemma_exists_first_on(d, email, i);
}

/// Unknown recipient: sending to a valid address under which nobody
/// owns a PC fails with the not-found error carrying that address, and
/// changes nothing.
pub proof fn lemma_unknown_recipient(
    d: PcDirectory,
    email: Seq<char>,
    msg: Seq<char>,
    post: PcDirectory,
    r: Result<(), PcDirectoryError>,
)
    requires
        valid_email(email),
        !has_recipient(d, email),
        send_email_post(d, email, msg, post, r),
    ensures
        r matches Err(PcDirectoryError::EmailNotFound { email: e }) && e@ == email,
        post == d,
{
}

} // verus!
