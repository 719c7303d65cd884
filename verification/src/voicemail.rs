//! Voicemail boxes and the records of their messages. The recordings are
//! files that the caller writes and removes under the paths given here.

use vstd::prelude::*;
use vstd::string::*;
use crate::b2bua::session::{is_uuid_text, random_uuid};
use crate::clock::unix_now;
use crate::text::{append_str, str_eq, string_of};

verus! {

#[derive(Debug, Clone, PartialEq, Eq)]
pub enum VoicemailGreeting {
    Default,
    /// Path to a custom greeting file
    Custom(String),
    Name,
    Unavailable,
}

/// Voicemail box configuration.
#[derive(Debug, Clone)]
pub struct VoicemailBox {
    pub id: String,
    pub extension: String,
    pub name: String,
    pub pin: String,
    pub email: Option<String>,
    pub email_attach: bool,
    pub max_messages: usize,
    /// The longest message, in seconds
    pub max_message_length: u32,
    pub greeting: VoicemailGreeting,
    pub enabled: bool,
}

impl Default for VoicemailBox {
    fn default() -> (r: Self)
        ensures
            r.id@.len() == 0,
            r.extension@.len() == 0,
            r.name@.len() == 0,
            r.pin@ == "0000"@,
            r.email is None,
            !r.email_attach,
            r.max_messages == 100,
            r.max_message_length == 300,
            r.greeting == VoicemailGreeting::Default,
            r.enabled,
    {
        VoicemailBox {
            id: String::new(),
            extension: String::new(),
            name: String::new(),
            pin: "0000".to_owned(),
            email: None,
            email_attach: false,
            max_messages: 100,
            max_message_length: 300,
            greeting: VoicemailGreeting::Default,
            enabled: true,
        }
    }
}

/// The record of a message.
#[derive(Debug, Clone)]
pub struct VoicemailMessage {
    pub id: String,
    pub mailbox_id: String,
    pub from_number: String,
    pub from_name: Option<String>,
    /// When the message was left, in seconds since the Unix epoch
    pub timestamp: u64,
    /// The length of the message, in seconds
    pub duration: u32,
    pub file_path: String,
    pub read: bool,
    pub urgent: bool,
}

/// Message waiting indicator status.
#[derive(Debug, Clone)]
pub struct MwiStatus {
    pub mailbox_id: String,
    pub new_messages: usize,
    pub old_messages: usize,
    pub total_messages: usize,
}

/// Why a voicemail operation was refused.
#[derive(Debug, Clone, Copy, PartialEq, Eq, Structural)]
pub enum VoicemailError {
    MailboxExists,
    MailboxNotFound,
    MailboxDisabled,
    MailboxFull,
    MessageTooLong,
    MessageNotFound,
}

impl VoicemailError {
    /// A description of the error.
    pub fn message(&self) -> (s: String)
        ensures
            s@ == (match self {
                VoicemailError::MailboxExists => "Mailbox already exists"@,
                VoicemailError::MailboxNotFound => "Mailbox not found"@,
                VoicemailError::MailboxDisabled => "Mailbox is disabled"@,
                VoicemailError::MailboxFull => "Mailbox is full"@,
                VoicemailError::MessageTooLong => "Message too long"@,
                VoicemailError::MessageNotFound => "Message not found"@,
            }),
    {
        match self {
            VoicemailError::MailboxExists => "Mailbox already exists".to_owned(),
            VoicemailError::MailboxNotFound => "Mailbox not found".to_owned(),
            VoicemailError::MailboxDisabled => "Mailbox is disabled".to_owned(),
            VoicemailError::MailboxFull => "Mailbox is full".to_owned(),
            VoicemailError::MessageTooLong => "Message too long".to_owned(),
            VoicemailError::MessageNotFound => "Message not found".to_owned(),
        }
    }
}

/// The index at or after `from` of the mailbox `id`, or the number of
/// mailboxes.
pub open spec fn mailbox_index(boxes: Seq<VoicemailBox>, id: Seq<char>, from: int) -> int
    decreases boxes.len() - from,
{
    if 0 <= from < boxes.len() && boxes[from].id@ != id {
        mailbox_index(boxes, id, from + 1)
    } else {
        from
    }
}

/// The index at or after `from` of the message `id`, or the number of
/// messages.
pub open spec fn message_index(messages: Seq<VoicemailMessage>, id: Seq<char>, from: int) -> int
    decreases messages.len() - from,
{
    if 0 <= from < messages.len() && messages[from].id@ != id {
        message_index(messages, id, from + 1)
    } else {
        from
    }
}

/// The messages of a mailbox, in their order; the unread ones alone
/// unless `include_read`.
pub open spec fn messages_of(
    messages: Seq<VoicemailMessage>,
    mailbox: Seq<char>,
    include_read: bool,
) -> Seq<VoicemailMessage>
    decreases messages.len(),
{
    if messages.len() == 0 {
        Seq::empty()
    } else if messages.last().mailbox_id@ == mailbox && (include_read || !messages.last().read) {
        messages_of(messages.drop_last(), mailbox, include_read).push(messages.last())
    } else {
        messages_of(messages.drop_last(), mailbox, include_read)
    }
}

/// The messages of other mailboxes, in their order.
pub open spec fn messages_elsewhere(messages: Seq<VoicemailMessage>, mailbox: Seq<char>) -> Seq<
    VoicemailMessage,
>
    decreases messages.len(),
{
    if messages.len() == 0 {
        Seq::empty()
    } else if messages.last().mailbox_id@ != mailbox {
        messages_elsewhere(messages.drop_last(), mailbox).push(messages.last())
    } else {
        messages_elsewhere(messages.drop_last(), mailbox)
    }
}

/// The directory of a mailbox: `<base-dir>/<mailbox>`.
pub open spec fn mailbox_dir_text(base: Seq<char>, mailbox: Seq<char>) -> Seq<char> {
    base + seq!['/'] + mailbox
}

/// The path of a recording: `<base-dir>/<mailbox>/<message>.wav`.
pub open spec fn message_path_text(base: Seq<char>, mailbox: Seq<char>, message: Seq<char>) -> Seq<
    char,
> {
    mailbox_dir_text(base, mailbox) + seq!['/'] + message + ".wav"@
}

/// Whether a message can be left in a mailbox: the mailbox is there and
/// enabled, holds fewer messages than it may, and the message is no
/// longer than it may be.
pub open spec fn admission(
    boxes: Seq<VoicemailBox>,
    messages: Seq<VoicemailMessage>,
    mailbox: Seq<char>,
    duration: u32,
) -> Result<(), VoicemailError> {
    let i = mailbox_index(boxes, mailbox, 0);
    if !(0 <= i < boxes.len()) {
        Err(VoicemailError::MailboxNotFound)
    } else if !boxes[i].enabled {
        Err(VoicemailError::MailboxDisabled)
    } else if messages_of(messages, mailbox, true).len() >= boxes[i].max_messages {
        Err(VoicemailError::MailboxFull)
    } else if duration > boxes[i].max_message_length {
        Err(VoicemailError::MessageTooLong)
    } else {
        Ok(())
    }
}

pub proof fn lemma_mailbox_index_is(boxes: Seq<VoicemailBox>, id: Seq<char>, from: int, r: int)
    requires
        0 <= from <= r <= boxes.len(),
        forall|j: int| from <= j < r ==> (#[trigger] boxes[j]).id@ != id,
        r < boxes.len() ==> boxes[r].id@ == id,
    ensures
        mailbox_index(boxes, id, from) == r,
    decreases r - from,
{
    if from < r {
        lemma_mailbox_index_is(boxes, id, from + 1, r);
    }
}

pub proof fn lemma_message_index_is(
    messages: Seq<VoicemailMessage>,
    id: Seq<char>,
    from: int,
    r: int,
)
    requires
        0 <= from <= r <= messages.len(),
        forall|j: int| from <= j < r ==> (#[trigger] messages[j]).id@ != id,
        r < messages.len() ==> messages[r].id@ == id,
    ensures
        message_index(messages, id, from) == r,
    decreases r - from,
{
    if from < r {
        lemma_message_index_is(messages, id, from + 1, r);
    }
}

pub open spec fn message_refs(r: Seq<&VoicemailMessage>) -> Seq<VoicemailMessage> {
    Seq::new(r.len(), |i: int| *r[i])
}

pub open spec fn mailbox_refs(r: Seq<&VoicemailBox>) -> Seq<VoicemailBox> {
    Seq::new(r.len(), |i: int| *r[i])
}

/// Voicemail manager.
#[derive(Debug, Clone)]
pub struct VoicemailManager {
    base_dir: String,
    mailboxes: Vec<VoicemailBox>,
    messages: Vec<VoicemailMessage>,
}

impl VoicemailManager {
    pub closed spec fn base(&self) -> Seq<char> {
        self.base_dir@
    }

    pub closed spec fn boxes(&self) -> Seq<VoicemailBox> {
        self.mailboxes@
    }

    pub closed spec fn records(&self) -> Seq<VoicemailMessage> {
        self.messages@
    }

    /// Create a new voicemail manager over a directory.
    pub fn new(base_dir: &str) -> (r: Self)
        ensures
            r.base() == base_dir@,
            r.boxes().len() == 0,
            r.records().len() == 0,
    {
        VoicemailManager { base_dir: base_dir.to_owned(), mailboxes: Vec::new(), messages: Vec::new() }
    }

    fn mailbox_position(&self, id: &str) -> (i: usize)
        ensures
            i == mailbox_index(self.boxes(), id@, 0),
            i <= self.mailboxes.len(),
    {
        let mut i: usize = 0;
        while i < self.mailboxes.len()
            invariant
                i <= self.mailboxes.len(),
                forall|j: int| 0 <= j < i ==> (#[trigger] self.boxes()[j]).id@ != id@,
            decreases self.mailboxes.len() - i,
        {
            if str_eq(self.mailboxes[i].id.as_str(), id) {
                proof {
                    lemma_mailbox_index_is(self.boxes(), id@, 0, i as int);
                }
                return i;
            }
            i += 1;
        }
        proof {
            lemma_mailbox_index_is(self.boxes(), id@, 0, i as int);
        }
        i
    }

    fn message_position(&self, id: &str) -> (i: usize)
        ensures
            i == message_index(self.records(), id@, 0),
            i <= self.messages.len(),
    {
        let mut i: usize = 0;
        while i < self.messages.len()
            invariant
                i <= self.messages.len(),
                forall|j: int| 0 <= j < i ==> (#[trigger] self.records()[j]).id@ != id@,
            decreases self.messages.len() - i,
        {
            if str_eq(self.messages[i].id.as_str(), id) {
                proof {
                    lemma_message_index_is(self.records(), id@, 0, i as int);
                }
                return i;
            }
            i += 1;
        }
        proof {
            lemma_message_index_is(self.records(), id@, 0, i as int);
        }
        i
    }

    /// The directory of a mailbox.
    pub fn mailbox_dir(&self, mailbox_id: &str) -> (p: String)
        ensures
            p@ == mailbox_dir_text(self.base(), mailbox_id@),
    {
        let mut out: Vec<char> = Vec::new();
        append_str(&mut out, self.base_dir.as_str());
        out.push('/');
        append_str(&mut out, mailbox_id);
        assert(out@ =~= mailbox_dir_text(self.base(), mailbox_id@));
        string_of(&out)
    }

    /// The path of the recording of a message.
    pub fn message_file_path(&self, mailbox_id: &str, message_id: &str) -> (p: String)
        ensures
            p@ == message_path_text(self.base(), mailbox_id@, message_id@),
    {
        let mut out: Vec<char> = Vec::new();
        append_str(&mut out, self.base_dir.as_str());
        out.push('/');
        append_str(&mut out, mailbox_id);
        out.push('/');
        append_str(&mut out, message_id);
        append_str(&mut out, ".wav");
        assert(out@ =~= message_path_text(self.base(), mailbox_id@, message_id@));
        string_of(&out)
    }

    /// Add a mailbox, unless there is one with its identifier.
    pub fn add_mailbox(&mut self, mailbox: VoicemailBox) -> (r: Result<(), VoicemailError>)
        ensures
            final(self).base() == old(self).base(),
            final(self).records() == old(self).records(),
            match r {
                Ok(_) => mailbox_index(old(self).boxes(), mailbox.id@, 0) == old(self).boxes().len()
                    && final(self).boxes() == old(self).boxes().push(mailbox),
                Err(e) => e == VoicemailError::MailboxExists && mailbox_index(
                    old(self).boxes(),
                    mailbox.id@,
                    0,
                ) < old(self).boxes().len() && final(self).boxes() == old(self).boxes(),
            },
    {
        let i = self.mailbox_position(mailbox.id.as_str());
        if i < self.mailboxes.len() {
            return Err(VoicemailError::MailboxExists);
        }
        self.mailboxes.push(mailbox);
        Ok(())
    }

    /// Get a mailbox by its identifier.
    pub fn get_mailbox(&self, mailbox_id: &str) -> (r: Option<&VoicemailBox>)
        ensures
            match r {
                Some(m) => {
                    let i = mailbox_index(self.boxes(), mailbox_id@, 0);
                    0 <= i < self.boxes().len() && *m == self.boxes()[i]
                },
                None => mailbox_index(self.boxes(), mailbox_id@, 0) == self.boxes().len(),
            },
    {
        let i = self.mailbox_position(mailbox_id);
        if i < self.mailboxes.len() {
            Some(&self.mailboxes[i])
        } else {
            None
        }
    }

    /// Remove a mailbox and the records of its messages; tells whether
    /// there was one.
    pub fn remove_mailbox(&mut self, mailbox_id: &str) -> (found: bool)
        ensures
            final(self).base() == old(self).base(),
            ({
                let i = mailbox_index(old(self).boxes(), mailbox_id@, 0);
                &&& found == (i < old(self).boxes().len())
                &&& final(self).boxes() == (if found {
                    old(self).boxes().remove(i)
                } else {
                    old(self).boxes()
                })
                &&& final(self).records() == (if found {
                    messages_elsewhere(old(self).records(), mailbox_id@)
                } else {
                    old(self).records()
                })
            }),
    {
        let i = self.mailbox_position(mailbox_id);
        if i >= self.mailboxes.len() {
            return false;
        }
        let _ = self.mailboxes.remove(i);
        let mut rest: Vec<VoicemailMessage> = Vec::new();
        core::mem::swap(&mut rest, &mut self.messages);
        let ghost all = rest@;
        let ghost mut k: int = 0;
        assert(all.take(0) =~= Seq::empty());
        while rest.len() > 0
            invariant
                0 <= k <= all.len(),
                rest@ == all.skip(k),
                self.messages@ == messages_elsewhere(all.take(k), mailbox_id@),
                self.mailboxes@ == old(self).boxes().remove(i as int),
                self.base_dir == old(self).base_dir,
            decreases rest.len(),
        {
            assert(rest@[0] == all[k]);
            let x = rest.remove(0);
            assert(rest@ =~= all.skip(k + 1));
            proof {
                assert(all.take(k + 1).drop_last() =~= all.take(k));
                assert(all.take(k + 1).last() == all[k]);
            }
            if !str_eq(x.mailbox_id.as_str(), mailbox_id) {
                self.messages.push(x);
            }
            proof {
                k = k + 1;
            }
        }
        assert(all.take(all.len() as int) =~= all);
        true
    }

    fn count_messages(&self, mailbox_id: &str, include_read: bool) -> (n: usize)
        ensures
            n == messages_of(self.records(), mailbox_id@, include_read).len(),
    {
        let mut n: usize = 0;
        let mut i: usize = 0;
        assert(self.records().take(0) =~= Seq::empty());
        while i < self.messages.len()
            invariant
                i <= self.messages.len(),
                n <= i,
                n == messages_of(self.records().take(i as int), mailbox_id@, include_read).len(),
            decreases self.messages.len() - i,
        {
            proof {
                assert(self.records().take(i + 1).drop_last() =~= self.records().take(i as int));
                assert(self.records().take(i + 1).last() == self.records()[i as int]);
            }
            if str_eq(self.messages[i].mailbox_id.as_str(), mailbox_id) && (include_read
                || !self.messages[i].read) {
                n += 1;
            }
            i += 1;
        }
        assert(self.records().take(self.messages.len() as int) =~= self.records());
        n
    }

    /// Record a message for a mailbox under a fresh random identifier, the
    /// text of a random UUID, at the time of the system clock. Gives the
    /// identifier; the recording is to be written under the path of the
    /// new record, which is `message_file_path` of the identifier.
    pub fn leave_message(
        &mut self,
        mailbox_id: &str,
        from_number: &str,
        from_name: Option<String>,
        duration: u32,
    ) -> (r: Result<String, VoicemailError>)
        ensures
            final(self).base() == old(self).base(),
            final(self).boxes() == old(self).boxes(),
            match r {
                Ok(id) => admission(old(self).boxes(), old(self).records(), mailbox_id@, duration)
                    is Ok && is_uuid_text(id@) && final(self).records().len() == old(
                    self,
                ).records().len() + 1 && final(self).records().drop_last() == old(self).records()
                    && ({
                    let m = final(self).records().last();
                    &&& m.id@ == id@
                    &&& m.mailbox_id@ == mailbox_id@
                    &&& m.from_number@ == from_number@
                    &&& m.from_name == from_name
                    &&& m.duration == duration
                    &&& m.file_path@ == message_path_text(old(self).base(), mailbox_id@, id@)
                    &&& !m.read
                    &&& !m.urgent
                }),
                Err(e) => admission(old(self).boxes(), old(self).records(), mailbox_id@, duration)
                    == Err::<(), VoicemailError>(e) && final(self).records() == old(self).records(),
            },
    {
        let id = random_uuid();
        let now = unix_now();
        match self.leave_message_with(mailbox_id, from_number, from_name, duration, id.as_str(), now) {
            Ok(_) => Ok(id),
            Err(e) => Err(e),
        }
    }

    /// Record a message for a mailbox under the identifier `message_id`,
    /// left at `timestamp`. Gives the path under which the recording is to
    /// be written.
    pub fn leave_message_with(
        &mut self,
        mailbox_id: &str,
        from_number: &str,
        from_name: Option<String>,
        duration: u32,
        message_id: &str,
        timestamp: u64,
    ) -> (r: Result<String, VoicemailError>)
        ensures
            final(self).base() == old(self).base(),
            final(self).boxes() == old(self).boxes(),
            match r {
                Ok(path) => admission(old(self).boxes(), old(self).records(), mailbox_id@, duration)
                    is Ok && path@ == message_path_text(old(self).base(), mailbox_id@, message_id@)
                    && final(self).records().len() == old(self).records().len() + 1
                    && final(self).records().drop_last() == old(self).records() && ({
                    let m = final(self).records().last();
                    &&& m.id@ == message_id@
                    &&& m.mailbox_id@ == mailbox_id@
                    &&& m.from_number@ == from_number@
                    &&& m.from_name == from_name
                    &&& m.timestamp == timestamp
                    &&& m.duration == duration
                    &&& m.file_path@ == path@
                    &&& !m.read
                    &&& !m.urgent
                }),
                Err(e) => admission(old(self).boxes(), old(self).records(), mailbox_id@, duration)
                    == Err::<(), VoicemailError>(e) && final(self).records() == old(self).records(),
            },
    {
        let i = self.mailbox_position(mailbox_id);
        if i >= self.mailboxes.len() {
            return Err(VoicemailError::MailboxNotFound);
        }
        if !self.mailboxes[i].enabled {
            return Err(VoicemailError::MailboxDisabled);
        }
        if self.count_messages(mailbox_id, true) >= self.mailboxes[i].max_messages {
            return Err(VoicemailError::MailboxFull);
        }
        if duration > self.mailboxes[i].max_message_length {
            return Err(VoicemailError::MessageTooLong);
        }
        let path = self.message_file_path(mailbox_id, message_id);
        self.messages.push(
            VoicemailMessage {
                id: message_id.to_owned(),
                mailbox_id: mailbox_id.to_owned(),
                from_number: from_number.to_owned(),
                from_name,
                timestamp,
                duration,
                file_path: path.clone(),
                read: false,
                urgent: false,
            },
        );
        assert(self.records().drop_last() =~= old(self).records());
        Ok(path)
    }

    /// The messages of a mailbox; the unread ones alone unless
    /// `include_read`.
    pub fn get_messages(&self, mailbox_id: &str, include_read: bool) -> (r: Vec<&VoicemailMessage>)
        ensures
            message_refs(r@) == messages_of(self.records(), mailbox_id@, include_read),
    {
        let mut out: Vec<&VoicemailMessage> = Vec::new();
        let mut i: usize = 0;
        assert(self.records().take(0) =~= Seq::empty());
        assert(message_refs(out@) =~= Seq::empty());
        while i < self.messages.len()
            invariant
                i <= self.messages.len(),
                message_refs(out@) == messages_of(
                    self.records().take(i as int),
                    mailbox_id@,
                    include_read,
                ),
            decreases self.messages.len() - i,
        {
            proof {
                assert(self.records().take(i + 1).drop_last() =~= self.records().take(i as int));
                assert(self.records().take(i + 1).last() == self.records()[i as int]);
            }
            if str_eq(self.messages[i].mailbox_id.as_str(), mailbox_id) && (include_read
                || !self.messages[i].read) {
                let ghost before = message_refs(out@);
                out.push(&self.messages[i]);
                assert(message_refs(out@) =~= before.push(self.records()[i as int]));
            }
            i += 1;
        }
        assert(self.records().take(self.messages.len() as int) =~= self.records());
        out
    }

    /// Mark a message as read.
    pub fn mark_message_read(&mut self, message_id: &str) -> (r: Result<(), VoicemailError>)
        ensures
            final(self).base() == old(self).base(),
            final(self).boxes() == old(self).boxes(),
            ({
                let i = message_index(old(self).records(), message_id@, 0);
                match r {
                    Ok(_) => 0 <= i < old(self).records().len() && final(self).records() == old(
                        self,
                    ).records().update(
                        i,
                        VoicemailMessage { read: true, ..old(self).records()[i] },
                    ),
                    Err(e) => e == VoicemailError::MessageNotFound && i == old(self).records().len()
                        && final(self).records() == old(self).records(),
                }
            }),
    {
        let i = self.message_position(message_id);
        if i >= self.messages.len() {
            return Err(VoicemailError::MessageNotFound);
        }
        let mut m = self.messages.remove(i);
        m.read = true;
        self.messages.insert(i, m);
        assert(self.records() =~= old(self).records().update(
            i as int,
            VoicemailMessage { read: true, ..old(self).records()[i as int] },
        ));
        Ok(())
    }

    /// Delete the record of a message. Gives the path of its recording,
    /// which is to be removed.
    pub fn delete_message(&mut self, message_id: &str) -> (r: Result<String, VoicemailError>)
        ensures
            final(self).base() == old(self).base(),
            final(self).boxes() == old(self).boxes(),
            ({
                let i = message_index(old(self).records(), message_id@, 0);
                match r {
                    Ok(path) => 0 <= i < old(self).records().len() && path == old(
                        self,
                    ).records()[i].file_path && final(self).records() == old(
                        self,
                    ).records().remove(i),
                    Err(e) => e == VoicemailError::MessageNotFound && i == old(self).records().len()
                        && final(self).records() == old(self).records(),
                }
            }),
    {
        let i = self.message_position(message_id);
        if i >= self.messages.len() {
            return Err(VoicemailError::MessageNotFound);
        }
        let m = self.messages.remove(i);
        Ok(m.file_path)
    }

    /// The message waiting status of a mailbox: its unread messages, its
    /// read messages, and all of them.
    pub fn get_mwi_status(&self, mailbox_id: &str) -> (r: MwiStatus)
        ensures
            r.mailbox_id@ == mailbox_id@,
            r.total_messages == messages_of(self.records(), mailbox_id@, true).len(),
            r.new_messages == messages_of(self.records(), mailbox_id@, false).len(),
            r.old_messages == r.total_messages - r.new_messages,
    {
        let total = self.count_messages(mailbox_id, true);
        let new_messages = self.count_messages(mailbox_id, false);
        proof {
            lemma_unread_are_fewer(self.records(), mailbox_id@);
        }
        MwiStatus {
            mailbox_id: mailbox_id.to_owned(),
            new_messages,
            old_messages: total - new_messages,
            total_messages: total,
        }
    }

    /// Whether `pin` is the PIN of the mailbox; false where there is no
    /// such mailbox.
    pub fn verify_pin(&self, mailbox_id: &str, pin: &str) -> (b: bool)
        ensures
            ({
                let i = mailbox_index(self.boxes(), mailbox_id@, 0);
                b == (0 <= i < self.boxes().len() && self.boxes()[i].pin@ == pin@)
            }),
    {
        let i = self.mailbox_position(mailbox_id);
        if i < self.mailboxes.len() {
            crate::auth::constant_time_eq(self.mailboxes[i].pin.as_str(), pin)
        } else {
            false
        }
    }

    /// List all mailboxes.
    pub fn list_mailboxes(&self) -> (r: Vec<&VoicemailBox>)
        ensures
            mailbox_refs(r@) == self.boxes(),
    {
        let mut out: Vec<&VoicemailBox> = Vec::new();
        let mut i: usize = 0;
        while i < self.mailboxes.len()
            invariant
                i <= self.mailboxes.len(),
                out@.len() == i,
                forall|j: int| 0 <= j < i ==> *(#[trigger] out@[j]) == self.boxes()[j],
            decreases self.mailboxes.len() - i,
        {
            out.push(&self.mailboxes[i]);
            i += 1;
        }
        assert(mailbox_refs(out@) =~= self.boxes());
        out
    }
}

/// The unread messages of a mailbox are among its messages.
pub proof fn lemma_unread_are_fewer(messages: Seq<VoicemailMessage>, mailbox: Seq<char>)
    ensures
        messages_of(messages, mailbox, false).len() <= messages_of(messages, mailbox, true).len(),
    decreases messages.len(),
{
    if messages.len() > 0 {
        lemma_unread_are_fewer(messages.drop_last(), mailbox);
    }
}

} // verus!
