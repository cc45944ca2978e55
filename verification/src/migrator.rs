//! Migrating an account from a session token: the decisions of the flow,
//! step by step. The requests themselves are made by the caller, who hands
//! each answer back.

use crate::codec::{base64url_encode, base64url_text, hex_bytes, hex_decode, MAX_ENCODE_LEN};
use crate::error::{ErrorKind, ErrorView};
use crate::text::{decimal, push_char, push_decimal, str_eq};
use vstd::prelude::*;
use vstd::string::StringExecFns;

verus! {

/// The scope of the profile.
pub open spec fn profile_scope() -> Seq<char> {
    "profile"@
}

/// The scope of the sync keys.
pub open spec fn old_sync_scope() -> Seq<char> {
    "https://identity.mozilla.com/apps/oldsync"@
}

/// A key that is scoped to one use.
#[derive(Debug, Clone)]
pub struct ScopedKey {
    pub kty: String,
    pub scope: String,
    pub k: String,
    pub kid: String,
}

pub struct ScopedKeyView {
    pub kty: Seq<char>,
    pub scope: Seq<char>,
    pub k: Seq<char>,
    pub kid: Seq<char>,
}

impl View for ScopedKey {
    type V = ScopedKeyView;

    open spec fn view(&self) -> ScopedKeyView {
        ScopedKeyView { kty: self.kty@, scope: self.scope@, k: self.k@, kid: self.kid@ }
    }
}

/// What an account holds.
pub struct AccountView {
    pub session_token: Option<Seq<char>>,
    pub refresh_token: Option<Seq<char>>,
    pub scoped_keys: Seq<ScopedKeyView>,
}

/// An account: its session token, its refresh token and its scoped keys,
/// of which there is at most one for a scope.
#[derive(Debug)]
pub struct FirefoxAccount {
    pub session_token: Option<String>,
    pub refresh_token: Option<String>,
    pub scoped_keys: Vec<ScopedKey>,
}

/// The views of a list of keys.
pub open spec fn keys_view(keys: Seq<ScopedKey>) -> Seq<ScopedKeyView> {
    Seq::new(keys.len(), |i: int| keys[i]@)
}

/// An optional string as its characters.
pub open spec fn option_view(s: Option<String>) -> Option<Seq<char>> {
    match s {
        Some(t) => Some(t@),
        None => None,
    }
}

impl View for FirefoxAccount {
    type V = AccountView;

    open spec fn view(&self) -> AccountView {
        AccountView {
            session_token: option_view(self.session_token),
            refresh_token: option_view(self.refresh_token),
            scoped_keys: keys_view(self.scoped_keys@),
        }
    }
}

/// The request that a migration waits for.
#[derive(Debug, Clone, Copy, PartialEq, Eq, Structural)]
pub enum MigrationStep {
    /// The session is being duplicated.
    Duplicate,
    /// The session token is being traded for OAuth tokens.
    Tokens,
    /// The data of the scoped key is being fetched.
    KeyData,
}

/// A migration under way: the request it waits for, the session token it
/// works with, and the two keys, in hexadecimal until the tokens are there
/// and in URL-safe base64 after that.
#[derive(Debug)]
pub struct Migration {
    pub step: MigrationStep,
    pub session_token: String,
    pub k_sync: String,
    pub k_xcs: String,
}

pub struct MigrationView {
    pub step: MigrationStep,
    pub session_token: Seq<char>,
    pub k_sync: Seq<char>,
    pub k_xcs: Seq<char>,
}

impl View for Migration {
    type V = MigrationView;

    open spec fn view(&self) -> MigrationView {
        MigrationView { step: self.step, session_token: self.session_token@, k_sync: self.k_sync@, k_xcs: self.k_xcs@ }
    }
}

/// An answer to a migration's request.
#[derive(Debug)]
pub enum MigrationEvent {
    /// The session was duplicated; this is the new session's token.
    SessionDuplicated(String),
    /// The tokens came, with or without a refresh token.
    Tokens(Option<String>),
    /// The key data came: the rotation time stamp of the sync key, or
    /// nothing where the session has no access to that key.
    KeyData(Option<u64>),
}

pub enum EventView {
    SessionDuplicated(Seq<char>),
    Tokens(Option<Seq<char>>),
    KeyData(Option<u64>),
}

impl View for MigrationEvent {
    type V = EventView;

    open spec fn view(&self) -> EventView {
        match self {
            MigrationEvent::SessionDuplicated(t) => EventView::SessionDuplicated(t@),
            MigrationEvent::Tokens(t) => EventView::Tokens(option_view(*t)),
            MigrationEvent::KeyData(ts) => EventView::KeyData(*ts),
        }
    }
}

/// The id of a sync key: its rotation time stamp in decimal, a hyphen, and
/// the key's check value in URL-safe base64.
pub open spec fn key_id(rotation_timestamp: u64, k_xcs: Seq<char>) -> Seq<char> {
    decimal(rotation_timestamp as nat) + seq!['-'] + k_xcs
}

/// The keys with `key` in the place of the key for its scope, or at the
/// end where there is none for it.
pub open spec fn put_key(keys: Seq<ScopedKeyView>, key: ScopedKeyView) -> Seq<ScopedKeyView> {
    let at = scope_pos(keys, key.scope);
    if at < keys.len() {
        keys.update(at, key)
    } else {
        keys.push(key)
    }
}

/// The place of the first key for `scope`, or the number of keys where
/// there is none.
pub open spec fn scope_pos(keys: Seq<ScopedKeyView>, scope: Seq<char>) -> int
    decreases keys.len(),
{
    if keys.len() == 0 || keys[0].scope == scope {
        0
    } else {
        1 + scope_pos(keys.drop_first(), scope)
    }
}

/// The first key for a scope is where no earlier key is for it.
pub proof fn lemma_scope_pos(keys: Seq<ScopedKeyView>, scope: Seq<char>, at: int)
    requires
        0 <= at <= keys.len(),
        forall|j: int| 0 <= j < at ==> (#[trigger] keys[j]).scope != scope,
        at == keys.len() || keys[at].scope == scope,
    ensures
        scope_pos(keys, scope) == at,
    decreases keys.len(),
{
    if at > 0 {
        let rest = keys.drop_first();
        assert forall|j: int| 0 <= j < at - 1 implies (#[trigger] rest[j]).scope != scope by {
            assert(rest[j] == keys[j + 1]);
        }
        lemma_scope_pos(rest, scope, at - 1);
    }
}

/// The key in URL-safe base64 that a key in hexadecimal stands for, if it
/// is hexadecimal and within the encoder's limit.
pub open spec fn recoded(hex: Seq<char>) -> Option<Seq<char>> {
    match hex_bytes(hex) {
        Some(bytes) => if bytes.len() <= MAX_ENCODE_LEN {
            Some(base64url_text(bytes))
        } else {
            None
        },
        None => None,
    }
}

/// How a migration starts: not at all on an account that has a session
/// token; else with the duplication of the session if that is asked for,
/// and with the trade for tokens if not.
pub open spec fn migration_start(
    account: AccountView,
    session_token: Seq<char>,
    k_sync: Seq<char>,
    k_xcs: Seq<char>,
    copy_session_token: bool,
) -> Result<MigrationView, ErrorView> {
    if account.session_token is Some {
        Err(ErrorView::IllegalState)
    } else {
        Ok(
            MigrationView {
                step: if copy_session_token {
                    MigrationStep::Duplicate
                } else {
                    MigrationStep::Tokens
                },
                session_token,
                k_sync,
                k_xcs,
            },
        )
    }
}

/// What an answer makes of an account and a migration: the account after
/// it, and the migration that goes on, the end (`Ok(None)`) or the
/// failure.
///
/// A duplicated session's token replaces the migration's. With the tokens
/// the account takes the refresh token, if one came, and the two keys are
/// recoded from hexadecimal; keys that are not hexadecimal fail the
/// migration, the refresh token staying. With the key data the account
/// takes the session token and the sync key under its scope, and the
/// migration ends; without access to the key it fails. An answer to
/// another request than the one outstanding is an illegal state.
pub open spec fn migration_next(account: AccountView, m: MigrationView, event: EventView) -> (
    AccountView,
    Result<Option<MigrationView>, ErrorView>,
) {
    match (m.step, event) {
        (MigrationStep::Duplicate, EventView::SessionDuplicated(token)) => (
            account,
            Ok(Some(MigrationView { step: MigrationStep::Tokens, session_token: token, ..m })),
        ),
        (MigrationStep::Tokens, EventView::Tokens(refresh)) => {
            let with_token = AccountView {
                refresh_token: if refresh is Some {
                    refresh
                } else {
                    account.refresh_token
                },
                ..account
            };
            match (recoded(m.k_sync), recoded(m.k_xcs)) {
                (Some(k_sync), Some(k_xcs)) => (
                    with_token,
                    Ok(Some(MigrationView { step: MigrationStep::KeyData, k_sync, k_xcs, ..m })),
                ),
                _ => (with_token, Err(ErrorView::IllegalState)),
            }
        },
        (MigrationStep::KeyData, EventView::KeyData(Some(ts))) => (
            AccountView {
                session_token: Some(m.session_token),
                scoped_keys: put_key(
                    account.scoped_keys,
                    ScopedKeyView { kty: "oct"@, scope: old_sync_scope(), k: m.k_sync, kid: key_id(ts, m.k_xcs) },
                ),
                ..account
            },
            Ok(None),
        ),
        _ => (account, Err(ErrorView::IllegalState)),
    }
}

fn recode(hex: &str) -> (r: Option<String>)
    ensures
        r is Some <==> recoded(hex@) is Some,
        r matches Some(t) ==> recoded(hex@) == Some(t@),
{
    match hex_decode(hex) {
        Some(bytes) => if bytes.len() <= MAX_ENCODE_LEN {
            Some(base64url_encode(bytes.as_slice()))
        } else {
            None
        },
        None => None,
    }
}

fn store_key(keys: &mut Vec<ScopedKey>, key: ScopedKey)
    ensures
        keys_view(final(keys)@) == put_key(keys_view(old(keys)@), key@),
{
    let ghost before = keys_view(keys@);
    let mut i: usize = 0;
    while i < keys.len()
        invariant
            0 <= i <= keys.len(),
            before == keys_view(keys@),
            keys@ == old(keys)@,
            forall|j: int| 0 <= j < i ==> (#[trigger] before[j]).scope != key@.scope,
        decreases keys.len() - i,
    {
        if str_eq(keys[i].scope.as_str(), key.scope.as_str()) {
            proof {
                lemma_scope_pos(before, key@.scope, i as int);
            }
            assert(keys_view(keys@.update(i as int, key)) =~= before.update(i as int, key@));
            keys.set(i, key);
            return;
        }
        i += 1;
    }
    proof {
        lemma_scope_pos(before, key@.scope, i as int);
    }
    assert(keys_view(keys@.push(key)) =~= before.push(key@));
    keys.push(key);
}

impl Migration {
    /// The scopes that the trade for tokens asks for.
    pub fn token_scopes() -> (scopes: Vec<String>)
        ensures
            scopes@.len() == 2,
            scopes@[0]@ == profile_scope(),
            scopes@[1]@ == old_sync_scope(),
    {
        let mut scopes: Vec<String> = Vec::new();
        scopes.push("profile".to_owned());
        scopes.push("https://identity.mozilla.com/apps/oldsync".to_owned());
        scopes
    }

    /// The scope whose key data is fetched.
    pub fn key_scope() -> (scope: &'static str)
        ensures
            scope@ == old_sync_scope(),
    {
        "https://identity.mozilla.com/apps/oldsync"
    }
}

impl FirefoxAccount {
    /// An account that holds nothing.
    pub fn new() -> (account: FirefoxAccount)
        ensures
            account@ == (AccountView { session_token: None, refresh_token: None, scoped_keys: Seq::empty() }),
    {
        let account = FirefoxAccount { session_token: None, refresh_token: None, scoped_keys: Vec::new() };
        assert(account@.scoped_keys =~= Seq::<ScopedKeyView>::empty());
        account
    }

    /// Starts the migration from a session token, with the sync key and
    /// its check value in hexadecimal. The migration that is returned says
    /// which request to make first.
    pub fn migrate_from_session_token(
        &self,
        session_token: &str,
        k_sync: &str,
        k_xcs: &str,
        copy_session_token: bool,
    ) -> (r: Result<Migration, ErrorKind>)
        ensures
            r matches Ok(m) ==> migration_start(self@, session_token@, k_sync@, k_xcs@, copy_session_token) == Ok::<
                MigrationView,
                ErrorView,
            >(m@),
            r matches Err(e) ==> migration_start(self@, session_token@, k_sync@, k_xcs@, copy_session_token) == Err::<
                MigrationView,
                ErrorView,
            >(e@),
    {
        if self.session_token.is_some() {
            return Err(ErrorKind::IllegalState);
        }
        Ok(
            Migration {
                step: if copy_session_token {
                    MigrationStep::Duplicate
                } else {
                    MigrationStep::Tokens
                },
                session_token: session_token.to_owned(),
                k_sync: k_sync.to_owned(),
                k_xcs: k_xcs.to_owned(),
            },
        )
    }

    /// Takes the answer to a migration's request. Returns the migration
    /// that goes on, or nothing when the migration is complete.
    pub fn continue_migration(&mut self, migration: Migration, event: MigrationEvent) -> (r: Result<
        Option<Migration>,
        ErrorKind,
    >)
        ensures
            final(self)@ == migration_next(old(self)@, migration@, event@).0,
            r matches Ok(Some(m)) ==> migration_next(old(self)@, migration@, event@).1 == Ok::<
                Option<MigrationView>,
                ErrorView,
            >(Some(m@)),
            r matches Ok(None) ==> migration_next(old(self)@, migration@, event@).1 == Ok::<
                Option<MigrationView>,
                ErrorView,
            >(None),
            r matches Err(e) ==> migration_next(old(self)@, migration@, event@).1 == Err::<
                Option<MigrationView>,
                ErrorView,
            >(e@),
    {
        let Migration { step, session_token, k_sync, k_xcs } = migration;
        match (step, event) {
            (MigrationStep::Duplicate, MigrationEvent::SessionDuplicated(token)) => Ok(
                Some(Migration { step: MigrationStep::Tokens, session_token: token, k_sync, k_xcs }),
            ),
            (MigrationStep::Tokens, MigrationEvent::Tokens(refresh)) => {
                match refresh {
                    Some(token) => {
                        self.refresh_token = Some(token);
                    },
                    None => {},
                }
                match (recode(k_sync.as_str()), recode(k_xcs.as_str())) {
                    (Some(k_sync), Some(k_xcs)) => Ok(
                        Some(Migration { step: MigrationStep::KeyData, session_token, k_sync, k_xcs }),
                    ),
                    _ => Err(ErrorKind::IllegalState),
                }
            },
            (MigrationStep::KeyData, MigrationEvent::KeyData(Some(ts))) => {
                let mut kid = String::new();
                push_decimal(&mut kid, ts);
                push_char(&mut kid, '-');
                kid.append(k_xcs.as_str());
                assert(kid@ =~= key_id(ts, k_xcs@));
                let key = ScopedKey {
                    kty: "oct".to_owned(),
                    scope: "https://identity.mozilla.com/apps/oldsync".to_owned(),
                    k: k_sync,
                    kid,
                };
                self.session_token = Some(session_token);
                store_key(&mut self.scoped_keys, key);
                Ok(None)
            },
            _ => Err(ErrorKind::IllegalState),
        }
    }
}

} // verus!
