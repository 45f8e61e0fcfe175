//! The manager of the mailboxes in which messages between clients, and
//! their headers, are accounted for.

use crate::error::{ClientError, InternalError};
use crate::name_map::NameMap;
use crate::types::{MessageId, XorName};
use vstd::prelude::*;

verus! {

/// The most that the inbox of an account may hold, in bytes.
pub const MAX_INBOX_SIZE: u64 = 134_217_728;

/// The most that the outbox of an account may hold, in bytes.
pub const MAX_OUTBOX_SIZE: u64 = 134_217_728;

/// A mailbox as plain values.
pub ghost struct MailBoxView {
    pub allowance: nat,
    pub used_space: nat,
    pub space_available: nat,
    /// By the name of a message or header, the public key of its sender.
    pub mail_box: Map<Seq<u8>, Option<[u8; 32]>>,
}

impl MailBoxView {
    /// Whether an entry of `size` bytes under `entry` is taken in: it must
    /// fit, and the name must be new.
    pub open spec fn takes(self, size: nat, entry: Seq<u8>) -> bool {
        size <= self.space_available && !self.mail_box.dom().contains(entry)
    }

    /// The mailbox after `put`: where the entry is taken in it is kept and
    /// its size counted; else nothing changes.
    pub open spec fn with(self, size: nat, entry: Seq<u8>, public_key: Option<[u8; 32]>) -> MailBoxView {
        if self.takes(size, entry) {
            MailBoxView {
                allowance: self.allowance,
                used_space: self.used_space + size,
                space_available: (self.space_available - size) as nat,
                mail_box: self.mail_box.insert(entry, public_key),
            }
        } else {
            self
        }
    }

    /// Whether the entry under `entry` can be dropped as one of `size`
    /// bytes: it must be kept, and no more may be given back than is used.
    pub open spec fn gives(self, size: nat, entry: Seq<u8>) -> bool {
        size <= self.used_space && self.mail_box.dom().contains(entry)
    }

    /// The mailbox after `remove`: where the entry can be dropped it is, and
    /// its size is given back; else nothing changes.
    pub open spec fn without(self, size: nat, entry: Seq<u8>) -> MailBoxView {
        if self.gives(size, entry) {
            MailBoxView {
                allowance: self.allowance,
                used_space: (self.used_space - size) as nat,
                space_available: self.space_available + size,
                mail_box: self.mail_box.remove(entry),
            }
        } else {
            self
        }
    }
}

/// Putting and removing leave what is used and what is left adding up to
/// the allowance, and a put that is taken in is undone by its removal.
pub proof fn mailbox_keeps_its_allowance(
    start: MailBoxView,
    size: nat,
    entry: Seq<u8>,
    public_key: Option<[u8; 32]>,
)
    requires
        start.used_space + start.space_available == start.allowance,
    ensures
        start.with(size, entry, public_key).used_space + start.with(
            size,
            entry,
            public_key,
        ).space_available == start.allowance,
        start.without(size, entry).used_space + start.without(size, entry).space_available
            == start.allowance,
        start.takes(size, entry) ==> start.with(size, entry, public_key).without(size, entry)
            == start,
{
    if start.takes(size, entry) {
        let put = start.with(size, entry, public_key);
        assert(put.mail_box.remove(entry) =~= start.mail_box);
    }
}

/// The entries of an inbox or an outbox, and the space they may take.
pub struct MailBox {
    allowance: u64,
    used_space: u64,
    space_available: u64,
    // key: msg or header's name; value: sender's public key
    mail_box: NameMap<Option<[u8; 32]>>,
}

impl View for MailBox {
    type V = MailBoxView;

    closed spec fn view(&self) -> MailBoxView {
        MailBoxView {
            allowance: self.allowance as nat,
            used_space: self.used_space as nat,
            space_available: self.space_available as nat,
            mail_box: self.mail_box@,
        }
    }
}

impl MailBox {
    /// What is used and what is left add up to the allowance.
    #[verifier::type_invariant]
    spec fn adds_up(self) -> bool {
        self.used_space + self.space_available == self.allowance
    }

    /// An empty mailbox that may hold `allowance` bytes.
    pub fn new(allowance: u64) -> (mail_box: MailBox)
        ensures
            mail_box@ == (MailBoxView {
                allowance: allowance as nat,
                used_space: 0,
                space_available: allowance as nat,
                mail_box: Map::empty(),
            }),
    {
        MailBox { allowance, used_space: 0, space_available: allowance, mail_box: NameMap::new() }
    }

    /// Keeps `entry` and counts its `size`, where it fits and the name is
    /// new; else nothing changes.
    pub fn put(&mut self, size: u64, entry: &XorName, public_key: &Option<[u8; 32]>) -> (counted:
        bool)
        ensures
            counted == old(self)@.takes(size as nat, entry@),
            final(self)@ == old(self)@.with(size as nat, entry@, *public_key),
            final(self)@.used_space + final(self)@.space_available == final(self)@.allowance,
    {
        proof {
            use_type_invariant(&*self);
        }
        if size > self.space_available {
            return false;
        }
        if self.mail_box.contains_key(entry) {
            return false;
        }
        let mut mail_box: NameMap<Option<[u8; 32]>> = NameMap::new();
        std::mem::swap(&mut self.mail_box, &mut mail_box);
        let _ = mail_box.insert(*entry, *public_key);
        *self = MailBox {
            allowance: self.allowance,
            used_space: self.used_space + size,
            space_available: self.space_available - size,
            mail_box,
        };
        true
    }

    /// Drops `entry` and gives its `size` back, where it is kept and no more
    /// is given back than is used; else nothing changes.
    pub fn remove(&mut self, size: u64, entry: &XorName) -> (dropped: bool)
        ensures
            dropped == old(self)@.gives(size as nat, entry@),
            final(self)@ == old(self)@.without(size as nat, entry@),
            final(self)@.used_space + final(self)@.space_available == final(self)@.allowance,
    {
        proof {
            use_type_invariant(&*self);
        }
        if !self.mail_box.contains_key(entry) {
            return false;
        }
        if size > self.used_space {
            return false;
        }
        let mut mail_box: NameMap<Option<[u8; 32]>> = NameMap::new();
        std::mem::swap(&mut self.mail_box, &mut mail_box);
        let _ = mail_box.remove(entry);
        *self = MailBox {
            allowance: self.allowance,
            used_space: self.used_space - size,
            space_available: self.space_available + size,
            mail_box,
        };
        true
    }

    /// Whether `entry` is kept.
    pub fn has(&mut self, entry: &XorName) -> (kept: bool)
        ensures
            kept == old(self)@.mail_box.dom().contains(entry@),
            final(self)@ == old(self)@,
    {
        self.mail_box.contains_key(entry)
    }

    /// The bytes that the entries take.
    pub fn used_space(&self) -> (bytes: u64)
        ensures
            bytes == self@.used_space,
    {
        self.used_space
    }

    /// The bytes that are left.
    pub fn space_available(&self) -> (bytes: u64)
        ensures
            bytes == self@.space_available,
    {
        self.space_available
    }
}

/// An account as plain values.
pub ghost struct AccountView {
    pub clients: Seq<XorName>,
    pub inbox: MailBoxView,
    pub outbox: MailBoxView,
}

/// What a new account holds: two empty mailboxes.
pub open spec fn fresh_account() -> AccountView {
    AccountView {
        clients: Seq::empty(),
        inbox: MailBoxView {
            allowance: MAX_INBOX_SIZE as nat,
            used_space: 0,
            space_available: MAX_INBOX_SIZE as nat,
            mail_box: Map::empty(),
        },
        outbox: MailBoxView {
            allowance: MAX_OUTBOX_SIZE as nat,
            used_space: 0,
            space_available: MAX_OUTBOX_SIZE as nat,
            mail_box: Map::empty(),
        },
    }
}

/// The mailboxes of one messaging client.
pub struct Account {
    // account owners' registered client proxies
    clients: Vec<XorName>,
    inbox: MailBox,
    outbox: MailBox,
}

impl View for Account {
    type V = AccountView;

    closed spec fn view(&self) -> AccountView {
        AccountView { clients: self.clients@, inbox: self.inbox@, outbox: self.outbox@ }
    }
}

impl Default for Account {
    // The allowance is granted by default.
    fn default() -> (account: Account)
        ensures
            account@ == fresh_account(),
    {
        Account {
            clients: Vec::new(),
            inbox: MailBox::new(MAX_INBOX_SIZE),
            outbox: MailBox::new(MAX_OUTBOX_SIZE),
        }
    }
}

impl Account {
    pub fn put_into_outbox(&mut self, size: u64, entry: &XorName, public_key: &Option<[u8; 32]>) -> (counted:
        bool)
        ensures
            counted == old(self)@.outbox.takes(size as nat, entry@),
            final(self)@ == (AccountView {
                outbox: old(self)@.outbox.with(size as nat, entry@, *public_key),
                ..old(self)@
            }),
    {
        self.outbox.put(size, entry, public_key)
    }

    pub fn put_into_inbox(&mut self, size: u64, entry: &XorName, public_key: &Option<[u8; 32]>) -> (counted:
        bool)
        ensures
            counted == old(self)@.inbox.takes(size as nat, entry@),
            final(self)@ == (AccountView {
                inbox: old(self)@.inbox.with(size as nat, entry@, *public_key),
                ..old(self)@
            }),
    {
        self.inbox.put(size, entry, public_key)
    }

    pub fn remove_from_outbox(&mut self, size: u64, entry: &XorName) -> (dropped: bool)
        ensures
            dropped == old(self)@.outbox.gives(size as nat, entry@),
            final(self)@ == (AccountView {
                outbox: old(self)@.outbox.without(size as nat, entry@),
                ..old(self)@
            }),
    {
        self.outbox.remove(size, entry)
    }

    pub fn remove_from_inbox(&mut self, size: u64, entry: &XorName) -> (dropped: bool)
        ensures
            dropped == old(self)@.inbox.gives(size as nat, entry@),
            final(self)@ == (AccountView {
                inbox: old(self)@.inbox.without(size as nat, entry@),
                ..old(self)@
            }),
    {
        self.inbox.remove(size, entry)
    }
}

/// What a put to the manager wraps.
#[derive(Clone, Copy, Debug, PartialEq, Eq)]
pub enum MpidMessageWrapper {
    /// The header of a message, sent to the manager of the recipient.
    PutHeader,
    /// A full message, sent by `sender` to the manager of its own account,
    /// with the name of its header where that could be computed.
    PutMessage { sender: XorName, recipient: XorName, header_name: Option<XorName> },
}

/// A put of plain data whose content is a wrapper.
#[derive(Clone, Copy, Debug, PartialEq, Eq)]
pub struct MpidPut {
    /// The manager that the put was sent to.
    pub manager: XorName,
    /// The name of the data.
    pub name: XorName,
    /// The size of the data, in bytes.
    pub payload_size: u64,
    pub wrapper: MpidMessageWrapper,
    pub message_id: MessageId,
}

/// What the caller has to do after a put was handled, in this order. Where
/// a step fails the caller stops and has the put undone.
#[derive(Clone, Copy, Debug, PartialEq, Eq)]
pub enum MpidAction {
    /// Keep the data in the chunk store of inboxes.
    StoreHeader { name: XorName },
    /// Keep the data in the chunk store of outboxes.
    StoreMessage { name: XorName },
    /// Send the header of the message, under `name`, to the manager of
    /// `recipient`.
    NotifyRecipient { manager: XorName, recipient: XorName, name: XorName, message_id: MessageId },
}

/// The account that a put is booked to.
pub open spec fn owner_of(request: MpidPut) -> Seq<u8> {
    match request.wrapper {
        MpidMessageWrapper::PutHeader => request.manager@,
        MpidMessageWrapper::PutMessage { sender, recipient, header_name } => sender@,
    }
}

/// The account of the owner as it stands before the put: a new one where it
/// has none.
pub open spec fn account_of(accounts: Map<Seq<u8>, AccountView>, request: MpidPut) -> AccountView {
    if accounts.dom().contains(owner_of(request)) {
        accounts[owner_of(request)]
    } else {
        fresh_account()
    }
}

/// Why a put is turned down, if it is: the data is stored already, or the
/// name of a message's header could not be computed.
pub open spec fn refusal(request: MpidPut, has_chunk: bool) -> Option<ClientError> {
    if has_chunk {
        Some(ClientError::DataExists)
    } else if request.wrapper matches MpidMessageWrapper::PutMessage { header_name: None, .. } {
        Some(ClientError::NoSuchAccount)
    } else {
        None
    }
}

/// Whether the mailbox that the put belongs in takes it in.
pub open spec fn is_counted(account: AccountView, request: MpidPut) -> bool {
    match request.wrapper {
        MpidMessageWrapper::PutHeader => account.inbox.takes(
            request.payload_size as nat,
            request.name@,
        ),
        MpidMessageWrapper::PutMessage { sender, recipient, header_name } => account.outbox.takes(
            request.payload_size as nat,
            request.name@,
        ),
    }
}

/// The account of the owner after the put: the name of the data is entered
/// into the inbox for a header and into the outbox for a message.
pub open spec fn booked(account: AccountView, request: MpidPut) -> AccountView {
    match request.wrapper {
        MpidMessageWrapper::PutHeader => AccountView {
            inbox: account.inbox.with(request.payload_size as nat, request.name@, None),
            ..account
        },
        MpidMessageWrapper::PutMessage { sender, recipient, header_name } => AccountView {
            outbox: account.outbox.with(request.payload_size as nat, request.name@, None),
            ..account
        },
    }
}

/// The accounts after a put that is not turned down.
pub open spec fn accounts_after(accounts: Map<Seq<u8>, AccountView>, request: MpidPut) -> Map<
    Seq<u8>,
    AccountView,
> {
    accounts.insert(owner_of(request), booked(account_of(accounts, request), request))
}

/// What is to be done for a put that its mailbox has counted: a header is
/// stored; a message is stored and its recipient notified.
pub open spec fn steps(request: MpidPut) -> Seq<MpidAction> {
    match request.wrapper {
        MpidMessageWrapper::PutHeader => seq![MpidAction::StoreHeader { name: request.name }],
        MpidMessageWrapper::PutMessage { sender, recipient, header_name } => seq![
            MpidAction::StoreMessage { name: request.name },
            MpidAction::NotifyRecipient {
                manager: request.manager,
                recipient,
                name: header_name->0,
                message_id: request.message_id,
            },
        ],
    }
}

/// The accounts of messaging clients.
pub struct MpidManager {
    accounts: NameMap<Account>,
}

impl MpidManager {
    /// The accounts, by the name of their owner.
    pub closed spec fn accounts(&self) -> Map<Seq<u8>, AccountView> {
        self.accounts@.map_values(|account: Account| account@)
    }

    /// A manager without accounts.
    pub fn new() -> (manager: MpidManager)
        ensures
            manager.accounts() == Map::<Seq<u8>, AccountView>::empty(),
    {
        let manager = MpidManager { accounts: NameMap::new() };
        assert(manager.accounts() =~= Map::<Seq<u8>, AccountView>::empty());
        manager
    }

    /// Whether the inbox and the outbox of `owner` hold `name`, if `owner`
    /// has an account.
    pub fn mailboxes_hold(&self, owner: &XorName, name: &XorName) -> (held: Option<(bool, bool)>)
        ensures
            match held {
                Some((inbox, outbox)) => self.accounts().dom().contains(owner@) && inbox
                    == self.accounts()[owner@].inbox.mail_box.dom().contains(name@) && outbox
                    == self.accounts()[owner@].outbox.mail_box.dom().contains(name@),
                None => !self.accounts().dom().contains(owner@),
            },
    {
        match self.accounts.get(owner) {
            Some(account) => Some(
                (account.inbox.mail_box.contains_key(name), account.outbox.mail_box.contains_key(name)),
            ),
            None => None,
        }
    }

    /// The bytes used in the inbox and in the outbox of `owner`, if it has
    /// an account.
    pub fn space_used(&self, owner: &XorName) -> (used: Option<(u64, u64)>)
        ensures
            match used {
                Some((inbox, outbox)) => self.accounts().dom().contains(owner@) && inbox
                    == self.accounts()[owner@].inbox.used_space && outbox
                    == self.accounts()[owner@].outbox.used_space,
                None => !self.accounts().dom().contains(owner@),
            },
    {
        match self.accounts.get(owner) {
            Some(account) => Some((account.inbox.used_space(), account.outbox.used_space())),
            None => None,
        }
    }

    /// Takes a put of a header or of a message. `has_chunk` says whether the
    /// chunk store that the data belongs in holds it already. A put that is
    /// turned down changes nothing. Else the name of the data is entered
    /// into the inbox of the manager's own account for a header, into the
    /// outbox of the sender's account for a message, where an account is made
    /// for who has none; and where the mailbox has counted the entry, the
    /// data is to be stored and, for a message, the recipient notified.
    pub fn handle_put(&mut self, request: &MpidPut, has_chunk: bool) -> (handled: (
        Result<(), InternalError>,
        Vec<MpidAction>,
    ))
        ensures
            match refusal(*request, has_chunk) {
                Some(error) => {
                    &&& handled.0 matches Err(InternalError::Client(e)) && e == error
                    &&& handled.1@.len() == 0
                    &&& final(self).accounts() == old(self).accounts()
                },
                None => {
                    &&& handled.0 is Ok
                    &&& final(self).accounts() == accounts_after(old(self).accounts(), *request)
                    &&& handled.1@ == (if is_counted(
                        account_of(old(self).accounts(), *request),
                        *request,
                    ) {
                        steps(*request)
                    } else {
                        Seq::empty()
                    })
                },
            },
    {
        let mut actions: Vec<MpidAction> = Vec::new();
        if has_chunk {
            return (Err(InternalError::Client(ClientError::DataExists)), actions);
        }
        match request.wrapper {
            MpidMessageWrapper::PutHeader => {
                let mut account = self.take_account(&request.manager);
                let counted = account.put_into_inbox(request.payload_size, &request.name, &None);
                let _ = self.accounts.insert(request.manager, account);
                assert(self.accounts() =~= accounts_after(old(self).accounts(), *request));
                if counted {
                    actions.push(MpidAction::StoreHeader { name: request.name });
                    assert(actions@ =~= steps(*request));
                }
            },
            MpidMessageWrapper::PutMessage { sender, recipient, header_name } => {
                let name = match header_name {
                    Some(name) => name,
                    None => {
                        return (Err(InternalError::Client(ClientError::NoSuchAccount)), actions);
                    },
                };
                let mut account = self.take_account(&sender);
                let counted = account.put_into_outbox(request.payload_size, &request.name, &None);
                let _ = self.accounts.insert(sender, account);
                assert(self.accounts() =~= accounts_after(old(self).accounts(), *request));
                if counted {
                    actions.push(MpidAction::StoreMessage { name: request.name });
                    // Send notification to the manager of the receiver.
                    actions.push(
                        MpidAction::NotifyRecipient {
                            manager: request.manager,
                            recipient,
                            name,
                            message_id: request.message_id,
                        },
                    );
                    assert(actions@ =~= steps(*request));
                }
            },
        }
        (Ok(()), actions)
    }

    /// Takes back what a put has entered, for data that could not be
    /// stored: the entry leaves its mailbox and its size is given back.
    pub fn undo_put(&mut self, request: &MpidPut)
        ensures
            !old(self).accounts().dom().contains(owner_of(*request)) ==> final(self).accounts()
                == old(self).accounts(),
            old(self).accounts().dom().contains(owner_of(*request)) ==> final(self).accounts()
                == old(self).accounts().insert(
                owner_of(*request),
                match request.wrapper {
                    MpidMessageWrapper::PutHeader => AccountView {
                        inbox: old(self).accounts()[owner_of(*request)].inbox.without(
                            request.payload_size as nat,
                            request.name@,
                        ),
                        ..old(self).accounts()[owner_of(*request)]
                    },
                    MpidMessageWrapper::PutMessage { sender, recipient, header_name } => AccountView {
                        outbox: old(self).accounts()[owner_of(*request)].outbox.without(
                            request.payload_size as nat,
                            request.name@,
                        ),
                        ..old(self).accounts()[owner_of(*request)]
                    },
                },
            ),
    {
        let owner = match request.wrapper {
            MpidMessageWrapper::PutHeader => request.manager,
            MpidMessageWrapper::PutMessage { sender, .. } => sender,
        };
        match self.accounts.remove(&owner) {
            Some(mut account) => {
                match request.wrapper {
                    MpidMessageWrapper::PutHeader => {
                        let _ = account.remove_from_inbox(request.payload_size, &request.name);
                    },
                    MpidMessageWrapper::PutMessage { .. } => {
                        let _ = account.remove_from_outbox(request.payload_size, &request.name);
                    },
                }
                let ghost view = account@;
                let _ = self.accounts.insert(owner, account);
                assert(self.accounts() =~= old(self).accounts().insert(owner_of(*request), view));
            },
            None => {
                assert(self.accounts() =~= old(self).accounts());
            },
        }
    }

    /// Takes the account of `owner` out of the table, or a new one where it
    /// has none.
    fn take_account(&mut self, owner: &XorName) -> (account: Account)
        ensures
            account@ == (if old(self).accounts().dom().contains(owner@) {
                old(self).accounts()[owner@]
            } else {
                fresh_account()
            }),
            final(self).accounts@ == old(self).accounts@.remove(owner@),
    {
        match self.accounts.remove(owner) {
            Some(account) => account,
            None => Account::default(),
        }
    }
}

} // verus!
