//! Who is logged in to the management server, and the stores of users and
//! of cluster clients by session id.

use vstd::prelude::*;
use crate::connector::ClientError;

verus! {

/// Why an authentication step failed.
#[derive(Debug, Clone, Copy, PartialEq, Eq, Structural)]
pub enum AuthError {
    LoadError,
    PoisonError,
    DeserializeError,
    LoginError,
    LogoutError,
    SessionError,
}

/// Optional credentials for a BOB cluster
#[derive(Clone, Debug, PartialEq, Eq, PartialOrd, Ord, Hash, Default)]
pub struct Credentials {
    pub login: String,
    pub password: String,
}

/// A user of the management server: the login with which it reached the cluster.
#[derive(Debug, Clone)]
pub struct BobUser {
    login: String,
}

impl BobUser {
    /// A user with this login.
    pub fn new(login: String) -> (r: Self)
        ensures
            r.login_view() == login@,
    {
        BobUser { login }
    }

    /// The login of the user.
    pub closed spec fn login_view(&self) -> Seq<char> {
        self.login@
    }

    /// The login of the user.
    pub fn login(&self) -> (r: &str)
        ensures
            r@ == self.login_view(),
    {
        self.login.as_str()
    }

    /// The user recorded for a connection: its login, or `Unknown` when it
    /// came without credentials.
    pub fn for_credentials(credentials: Option<crate::models::shared::Credentials>) -> (r: Self)
        ensures
            r.login_view() == (match credentials {
                Some(c) => c.login@,
                None => "Unknown"@,
            }),
    {
        match credentials {
            Some(c) => BobUser { login: c.login },
            None => BobUser { login: String::from_str("Unknown") },
        }
    }
}

/// Who is logged in in a session: nobody, or a user and its id.
#[derive(Debug, Clone)]
pub struct AuthData<User, UserId> {
    user: Option<User>,
    user_id: Option<UserId>,
}

impl<User, UserId> AuthData<User, UserId> {
    /// Session data with this user and id.
    pub fn new(user: Option<User>, user_id: Option<UserId>) -> (r: Self)
        ensures
            r.user_spec() == user,
            r.user_id_spec() == user_id,
    {
        AuthData { user, user_id }
    }

    /// Nobody is logged in.
    pub fn empty() -> (r: Self)
        ensures
            r.user_spec() is None,
            r.user_id_spec() is None,
    {
        AuthData { user: None, user_id: None }
    }

    /// The user logged in.
    pub closed spec fn user_spec(&self) -> Option<User> {
        self.user
    }

    /// The id of the user logged in.
    pub closed spec fn user_id_spec(&self) -> Option<UserId> {
        self.user_id
    }

    /// The user logged in.
    pub fn user(&self) -> (r: &Option<User>)
        ensures
            *r == self.user_spec(),
    {
        &self.user
    }

    /// The id of the user logged in.
    pub fn user_id(&self) -> (r: &Option<UserId>)
        ensures
            *r == self.user_id_spec(),
    {
        &self.user_id
    }
}

/// A store of values by id.
pub trait Store<Id, Value> {
    /// The value stored under this id, if any.
    fn load(&self, user_id: &Id) -> Result<Option<Value>, AuthError>;

    /// Stores a value under this id, and gives back the one it replaces.
    fn save(&mut self, user_id: Id, value: Value) -> Result<Option<Value>, AuthError>;
}

/// The value of the first entry from index `j` on with this id.
pub open spec fn entry_from<V>(es: Seq<(u128, V)>, id: u128, j: int) -> Option<V>
    decreases es.len() - j,
{
    if j < 0 || j >= es.len() {
        None
    } else if es[j].0 == id {
        Some(es[j].1)
    } else {
        entry_from(es, id, j + 1)
    }
}

proof fn lemma_entry_update<V>(es: Seq<(u128, V)>, p: int, v: V, id: u128, j: int)
    requires
        0 <= p < es.len(),
        0 <= j,
        id != es[p].0,
    ensures
        entry_from(es.update(p, (es[p].0, v)), id, j) == entry_from(es, id, j),
    decreases es.len() - j,
{
    if j < es.len() {
        lemma_entry_update(es, p, v, id, j + 1);
    }
}

proof fn lemma_entry_found<V>(es: Seq<(u128, V)>, id: u128, p: int, j: int)
    requires
        0 <= j <= p < es.len(),
        es[p].0 == id,
        forall|k: int| 0 <= k < p ==> es[k].0 != id,
    ensures
        entry_from(es, id, j) == Some(es[p].1),
    decreases p - j,
{
    if j < p {
        lemma_entry_found(es, id, p, j + 1);
    }
}

proof fn lemma_entry_push<V>(es: Seq<(u128, V)>, x: (u128, V), id: u128, j: int)
    requires
        0 <= j <= es.len(),
    ensures
        entry_from(es.push(x), id, j) == (match entry_from(es, id, j) {
            Some(v) => Some(v),
            None => if x.0 == id {
                Some(x.1)
            } else {
                None
            },
        }),
    decreases es.len() - j,
{
    if j < es.len() {
        assert(es.push(x)[j] == es[j]);
        lemma_entry_push(es, x, id, j + 1);
    } else {
        assert(es.push(x)[j] == x);
        assert(entry_from(es.push(x), id, j + 1) is None);
    }
}

/// Values by id, kept in memory.
#[derive(Debug)]
pub struct InMemorySessionStore<Value> {
    entries: Vec<(u128, Value)>,
}

impl<Value> InMemorySessionStore<Value> {
    /// The value stored under this id, if any.
    pub closed spec fn stored(&self, id: u128) -> Option<Value> {
        entry_from(self.entries@, id, 0)
    }

    /// An empty store.
    pub fn new() -> (r: Self)
        ensures
            forall|id: u128| #[trigger] r.stored(id) is None,
    {
        InMemorySessionStore { entries: Vec::new() }
    }
}

impl<Value> Default for InMemorySessionStore<Value> {
    /// An empty store.
    fn default() -> (r: Self)
        ensures
            forall|id: u128| #[trigger] r.stored(id) is None,
    {
        Self::new()
    }
}

impl<Value: Clone> Store<u128, Value> for InMemorySessionStore<Value> {
    /// A copy of the value stored under this id; never fails.
    fn load(&self, user_id: &u128) -> (r: Result<Option<Value>, AuthError>)
        ensures
            match r {
                Ok(Some(v)) => self.stored(*user_id) matches Some(w) && cloned(w, v),
                Ok(None) => self.stored(*user_id) is None,
                Err(_) => false,
            },
    {
        let mut j: usize = 0;
        while j < self.entries.len()
            invariant
                0 <= j <= self.entries.len(),
                entry_from(self.entries@, *user_id, 0) == entry_from(self.entries@, *user_id, j as int),
            decreases self.entries.len() - j,
        {
            if self.entries[j].0 == *user_id {
                return Ok(Some(self.entries[j].1.clone()));
            }
            j = j + 1;
        }
        Ok(None)
    }

    /// Stores the value under this id, replacing and giving back the one
    /// stored there before; never fails. Other ids keep their values.
    fn save(&mut self, user_id: u128, value: Value) -> (r: Result<Option<Value>, AuthError>)
        ensures
            r == Ok::<Option<Value>, AuthError>(old(self).stored(user_id)),
            saved(*old(self), *final(self), user_id, value),
    {
        let ghost es = self.entries@;
        let mut j: usize = 0;
        while j < self.entries.len()
            invariant
                0 <= j <= self.entries.len(),
                self.entries@ == es,
                es == old(self).entries@,
                forall|k: int| 0 <= k < j ==> es[k].0 != user_id,
                entry_from(es, user_id, 0) == entry_from(es, user_id, j as int),
            decreases self.entries.len() - j,
        {
            if self.entries[j].0 == user_id {
                let old_entry = self.entries.remove(j);
                self.entries.insert(j, (user_id, value));
                proof {
                    assert(self.entries@ =~= es.update(j as int, (es[j as int].0, value)));
                    lemma_entry_found(es, user_id, j as int, 0);
                    lemma_entry_found(self.entries@, user_id, j as int, 0);
                    assert forall|o: u128| o != user_id implies #[trigger] self.stored(o) == entry_from(es, o, 0) by {
                        lemma_entry_update(es, j as int, value, o, 0);
                    }
                }
                return Ok(Some(old_entry.1));
            }
            j = j + 1;
        }
        self.entries.push((user_id, value));
        proof {
            lemma_entry_push(es, (user_id, value), user_id, 0);
            assert forall|o: u128| o != user_id implies #[trigger] self.stored(o) == entry_from(es, o, 0) by {
                lemma_entry_push(es, (user_id, value), o, 0);
            }
        }
        Ok(None)
    }
}

/// `after` is `before` with `v` saved under `id`: it gives `v` back under
/// `id`, and under every other id what `before` gives.
pub open spec fn saved<V>(before: InMemorySessionStore<V>, after: InMemorySessionStore<V>, id: u128, v: V) -> bool {
    &&& after.stored(id) == Some(v)
    &&& forall|o: u128| o != id ==> #[trigger] after.stored(o) == before.stored(o)
}

/// Of two saves under one id, the later one is what the store keeps.
pub proof fn lemma_store_last_save_wins<V>(
    s0: InMemorySessionStore<V>,
    s1: InMemorySessionStore<V>,
    s2: InMemorySessionStore<V>,
    id: u128,
    v1: V,
    v2: V,
)
    requires
        saved(s0, s1, id, v1),
        saved(s1, s2, id, v2),
    ensures
        saved(s0, s2, id, v2),
{
}

/// Saves under two different ids give the same store in either order.
pub proof fn lemma_store_saves_commute<V>(
    s0: InMemorySessionStore<V>,
    s1: InMemorySessionStore<V>,
    s2: InMemorySessionStore<V>,
    t1: InMemorySessionStore<V>,
    t2: InMemorySessionStore<V>,
    a: u128,
    va: V,
    b: u128,
    vb: V,
)
    requires
        a != b,
        saved(s0, s1, a, va),
        saved(s1, s2, b, vb),
        saved(s0, t1, b, vb),
        saved(t1, t2, a, va),
    ensures
        forall|id: u128| #[trigger] s2.stored(id) == t2.stored(id),
{
    assert forall|id: u128| #[trigger] s2.stored(id) == t2.stored(id) by {
        if id != a && id != b {
            assert(s2.stored(id) == s1.stored(id));
            assert(t2.stored(id) == t1.stored(id));
        }
    }
}

/// The stores of the server: users and cluster clients, by session id.
#[derive(Debug)]
pub struct AuthState<UserStore, ClientStore> {
    pub user_store: UserStore,
    pub client_store: ClientStore,
}

impl<UserStore, ClientStore> AuthState<UserStore, ClientStore> {
    /// The state with these stores.
    pub fn new(user_store: UserStore, client_store: ClientStore) -> (r: Self)
        ensures
            r.user_store == user_store,
            r.client_store == client_store,
    {
        AuthState { user_store, client_store }
    }
}

/// The authentication of one request: who is logged in in its session.
#[derive(Debug, Clone)]
pub struct AuthStore<User> {
    auth_data: AuthData<User, u128>,
}

impl<User: Clone> AuthStore<User> {
    /// Who is logged in.
    pub closed spec fn data(&self) -> AuthData<User, u128> {
        self.auth_data
    }

    /// The authentication of a request whose session holds this data, if
    /// any: the user is read again from the store, so that one no longer
    /// stored is no longer logged in.
    pub fn from_session(data: Option<AuthData<User, u128>>, user_store: &InMemorySessionStore<User>) -> (r: Self)
        ensures
            r.data().user_id_spec() == (match data {
                Some(d) => d.user_id_spec(),
                None => None,
            }),
            match r.data().user_id_spec() {
                Some(id) => match user_store.stored(id) {
                    Some(u) => r.data().user_spec() matches Some(v) && cloned(u, v),
                    None => r.data().user_spec() is None,
                },
                None => r.data().user_spec() == (match data {
                    Some(d) => d.user_spec(),
                    None => None,
                }),
            },
    {
        let auth_data = match data {
            Some(d) => d,
            None => AuthData::empty(),
        };
        match auth_data.user_id {
            Some(id) => {
                let loaded = user_store.load(&id);
                match loaded {
                    Ok(user) => AuthStore { auth_data: AuthData { user, user_id: Some(id) } },
                    Err(_) => AuthStore { auth_data: AuthData { user: None, user_id: Some(id) } },
                }
            },
            None => AuthStore { auth_data },
        }
    }

    /// Logs in the user stored under this id; where none is stored, who was
    /// logged in stays.
    pub fn login(&mut self, user_store: &InMemorySessionStore<User>, user_id: u128) -> (r: Result<(), AuthError>)
        ensures
            r is Ok,
            match user_store.stored(user_id) {
                Some(u) => final(self).data().user_id_spec() == Some(user_id)
                    && (final(self).data().user_spec() matches Some(v) && cloned(u, v)),
                None => final(self).data() == old(self).data(),
            },
    {
        let loaded = user_store.load(&user_id);
        match loaded {
            Ok(Some(user)) => {
                self.auth_data = AuthData { user: Some(user), user_id: Some(user_id) };
            },
            _ => {},
        }
        Ok(())
    }

    /// Logs out: nobody is logged in.
    pub fn logout(&mut self) -> (r: Result<(), AuthError>)
        ensures
            r is Ok,
            final(self).data().user_spec() is None,
            final(self).data().user_id_spec() is None,
    {
        self.auth_data = AuthData::empty();
        Ok(())
    }

    /// The user logged in.
    pub fn user(&self) -> (r: Option<&User>)
        ensures
            match self.data().user_spec() {
                Some(u) => r == Some(&u),
                None => r is None,
            },
    {
        match &self.auth_data.user {
            Some(u) => Some(u),
            None => None,
        }
    }

    /// The data to keep in the session.
    pub fn session_data(&self) -> (r: AuthData<User, u128>)
        ensures
            r.user_id_spec() == self.data().user_id_spec(),
            match self.data().user_spec() {
                Some(u) => r.user_spec() matches Some(v) && cloned(u, v),
                None => r.user_spec() is None,
            },
    {
        let user = match &self.auth_data.user {
            Some(u) => Some(u.clone()),
            None => None,
        };
        AuthData { user, user_id: self.auth_data.user_id }
    }

    /// The client of a request that needs a login: the one stored under the
    /// id of the user logged in, else none, and the request is refused.
    pub fn authorized_client<Client: Clone>(&self, client_store: &InMemorySessionStore<Client>) -> (r: Option<Client>)
        ensures
            match self.data().user_id_spec() {
                Some(id) => match client_store.stored(id) {
                    Some(c) => r matches Some(d) && cloned(c, d),
                    None => r is None,
                },
                None => r is None,
            },
    {
        match self.auth_data.user_id {
            Some(id) => match client_store.load(&id) {
                Ok(c) => c,
                Err(_) => None,
            },
            None => None,
        }
    }
}

/// After a logout, a login of an id leaves that id and its user logged in
/// when the store holds a user under it, and nobody logged in when it does not.
pub proof fn lemma_login_after_logout<User: Clone>(
    after_logout: AuthStore<User>,
    after_login: AuthStore<User>,
    store: InMemorySessionStore<User>,
    id: u128,
)
    requires
        after_logout.data().user_spec() is None,
        after_logout.data().user_id_spec() is None,
        match store.stored(id) {
            Some(u) => after_login.data().user_id_spec() == Some(id)
                && (after_login.data().user_spec() matches Some(v) && cloned(u, v)),
            None => after_login.data() == after_logout.data(),
        },
    ensures
        after_login.data().user_id_spec() == (if store.stored(id) is Some {
            Some(id)
        } else {
            None
        }),
        after_login.data().user_spec() is Some <==> store.stored(id) is Some,
{
}

/// The status code with which a login answers when no client of the
/// cluster could be made: a bad request for an address that gives no
/// client, not found for a cluster that cannot be reached, unauthorized
/// for refused permission, else an internal error.
pub fn login_failure_code(err: ClientError) -> (r: u16)
    ensures
        r == (match err {
            ClientError::InitClient => 400u16,
            ClientError::Inaccessible => 404u16,
            ClientError::PermissionDenied => 401u16,
            _ => 500u16,
        }),
{
    match err {
        ClientError::InitClient => 400,
        ClientError::Inaccessible => 404,
        ClientError::PermissionDenied => 401,
        _ => 500,
    }
}

/// The answer of a login from the probe of the cluster's main node: the
/// probe's code, and whether the user is logged in, which happens exactly
/// when the code is 200; unauthorized where the probe failed.
pub fn login_answer(probe: Result<u16, ClientError>) -> (r: (u16, bool))
    ensures
        r == (match probe {
            Ok(code) => (code, code == 200),
            Err(_) => (401u16, false),
        }),
{
    match probe {
        Ok(code) => (code, code == 200),
        Err(_) => (401, false),
    }
}

} // verus!
