use vstd::prelude::*;
use crate::reset::{is_redeemable, redeemable};
use crate::user::{User, UserView};

verus! {

/// What an account is looked up by.
#[derive(Clone, Copy, Debug)]
pub enum UserKey<'a> {
    Username(&'a str),
    Email(&'a str),
    Id(i32),
    /// A reset token, and the moment at which it must still be valid.
    ResetToken(&'a str, i64),
}

/// A lookup key, as mathematical values.
pub ghost enum KeyView {
    Username(Seq<char>),
    Email(Seq<char>),
    Id(int),
    ResetToken(Seq<char>, int),
}

impl<'a> View for UserKey<'a> {
    type V = KeyView;

    open spec fn view(&self) -> KeyView {
        match *self {
            UserKey::Username(name) => KeyView::Username(name@),
            UserKey::Email(email) => KeyView::Email(email@),
            UserKey::Id(id) => KeyView::Id(id as int),
            UserKey::ResetToken(token, now) => KeyView::ResetToken(token@, now as int),
        }
    }
}

/// Whether an account answers to a key.
pub open spec fn key_matches(user: UserView, key: KeyView) -> bool {
    match key {
        KeyView::Username(name) => user.username == name,
        KeyView::Email(email) => user.email == email,
        KeyView::Id(id) => user.id == id,
        KeyView::ResetToken(token, now) => redeemable(user, token, now),
    }
}

/// Whether `i` is the place of the first account that answers to `key`.
pub open spec fn is_first_match(users: Seq<UserView>, key: KeyView, i: int) -> bool {
    &&& 0 <= i < users.len()
    &&& key_matches(users[i], key)
    &&& forall|j: int| 0 <= j < i ==> !key_matches(#[trigger] users[j], key)
}

/// The place of the first account that answers to `key`, if any does.
pub open spec fn lookup(users: Seq<UserView>, key: KeyView) -> Option<int> {
    if exists|i: int| is_first_match(users, key, i) {
        Some(choose|i: int| is_first_match(users, key, i))
    } else {
        None
    }
}

/// No two accounts share an id, a username or an email.
pub open spec fn unique_keys(users: Seq<UserView>) -> bool {
    forall|i: int, j: int|
        0 <= i < j < users.len() ==> {
            &&& (#[trigger] users[i]).id != (#[trigger] users[j]).id
            &&& users[i].username != users[j].username
            &&& users[i].email != users[j].email
        }
}

/// The invariants of the whole store: every account meets its own, and no
/// two share an id, a username or an email.
pub open spec fn store_wf(users: Seq<UserView>) -> bool {
    &&& unique_keys(users)
    &&& forall|i: int| 0 <= i < users.len() ==> (#[trigger] users[i]).wf()
}

/// The largest id in use, and 0 for an empty store.
pub open spec fn max_id(users: Seq<UserView>) -> int
    decreases users.len(),
{
    if users.len() == 0 {
        0
    } else if users.last().id > max_id(users.drop_last()) {
        users.last().id
    } else {
        max_id(users.drop_last())
    }
}

/// The first match is the answer of [`lookup`].
pub proof fn lemma_lookup_is_first_match(users: Seq<UserView>, key: KeyView, i: int)
    requires
        is_first_match(users, key, i),
    ensures
        lookup(users, key) == Some(i),
{
    let c = choose|c: int| is_first_match(users, key, c);
    assert(is_first_match(users, key, c));
    if c < i {
        assert(!key_matches(users[c], key));
    }
    if i < c {
        assert(!key_matches(users[i], key));
    }
}

/// Where no account answers to a key, [`lookup`] finds none.
pub proof fn lemma_lookup_none(users: Seq<UserView>, key: KeyView)
    requires
        forall|j: int| 0 <= j < users.len() ==> !key_matches(#[trigger] users[j], key),
    ensures
        lookup(users, key) is None,
{
}

/// What [`lookup`] finds is a first match.
pub proof fn lemma_lookup_some(users: Seq<UserView>, key: KeyView)
    ensures
        lookup(users, key) matches Some(i) ==> is_first_match(users, key, i),
        lookup(users, key) is None ==> forall|j: int|
            0 <= j < users.len() ==> !key_matches(#[trigger] users[j], key),
{
    if lookup(users, key) is None {
        assert forall|j: int| 0 <= j < users.len() implies !key_matches(
            #[trigger] users[j],
            key,
        ) by {
            if key_matches(users[j], key) {
                lemma_some_match_has_first(users, key, j);
            }
        }
    }
}

/// A change to one account that keeps its id, username and email leaves
/// every lookup by id, username or email as it was.
pub proof fn lemma_lookup_after_update(
    users: Seq<UserView>,
    i: int,
    changed: UserView,
    key: KeyView,
)
    requires
        0 <= i < users.len(),
        changed.id == users[i].id,
        changed.username == users[i].username,
        changed.email == users[i].email,
        !(key is ResetToken),
    ensures
        lookup(users.update(i, changed), key) == lookup(users, key),
{
    let after = users.update(i, changed);
    lemma_lookup_some(users, key);
    match lookup(users, key) {
        Some(k) => {
            assert(key_matches(after[k], key));
            assert forall|j: int| 0 <= j < k implies !key_matches(#[trigger] after[j], key) by {
                assert(!key_matches(users[j], key));
            }
            lemma_lookup_is_first_match(after, key, k);
        },
        None => {
            assert forall|j: int| 0 <= j < after.len() implies !key_matches(
                #[trigger] after[j],
                key,
            ) by {
                assert(!key_matches(users[j], key));
            }
            lemma_lookup_none(after, key);
        },
    }
}

proof fn lemma_some_match_has_first(users: Seq<UserView>, key: KeyView, j: int)
    requires
        0 <= j < users.len(),
        key_matches(users[j], key),
    ensures
        exists|i: int| is_first_match(users, key, i),
    decreases j,
{
    if exists|k: int| 0 <= k < j && key_matches(#[trigger] users[k], key) {
        let k = choose|k: int| 0 <= k < j && key_matches(#[trigger] users[k], key);
        lemma_some_match_has_first(users, key, k);
    } else {
        assert(is_first_match(users, key, j));
    }
}

/// No id in use exceeds [`max_id`], which is never negative.
pub proof fn lemma_max_id_bounds(users: Seq<UserView>)
    ensures
        max_id(users) >= 0,
        forall|i: int| 0 <= i < users.len() ==> (#[trigger] users[i]).id <= max_id(users),
    decreases users.len(),
{
    if users.len() > 0 {
        lemma_max_id_bounds(users.drop_last());
        assert forall|i: int| 0 <= i < users.len() implies (#[trigger] users[i]).id <= max_id(
            users,
        ) by {
            if i < users.len() - 1 {
                assert(users.drop_last()[i] == users[i]);
            }
        }
    }
}

/// Executable form of [`key_matches`].
pub fn user_matches(user: &User, key: &UserKey) -> (b: bool)
    ensures
        b == key_matches(user@, key@),
{
    match *key {
        UserKey::Username(name) => user.username.as_str().eq(name),
        UserKey::Email(email) => user.email.as_str().eq(email),
        UserKey::Id(id) => user.id == id,
        UserKey::ResetToken(token, now) => is_redeemable(user, token, now),
    }
}

/// The views of a list of accounts, in order.
pub open spec fn rows_of(users: Seq<User>) -> Seq<UserView> {
    users.map_values(|u: User| u@)
}

/// The accounts, in the order in which they were added.
#[derive(Debug)]
pub struct UserStore {
    pub(crate) users: Vec<User>,
}

impl View for UserStore {
    type V = Seq<UserView>;

    closed spec fn view(&self) -> Seq<UserView> {
        rows_of(self.users@)
    }
}

impl UserStore {
    /// Whether the store meets its invariants.
    pub open spec fn wf(&self) -> bool {
        store_wf(self@)
    }

    /// A store without accounts.
    pub fn new() -> (store: UserStore)
        ensures
            store@ == Seq::<UserView>::empty(),
            store.wf(),
    {
        let store = UserStore { users: Vec::new() };
        assert(store@ =~= Seq::<UserView>::empty());
        store
    }

    /// How many accounts the store holds.
    pub fn len(&self) -> (n: usize)
        ensures
            n == self@.len(),
    {
        self.users.len()
    }

    /// The account at place `index`.
    pub fn user(&self, index: usize) -> (user: &User)
        requires
            index < self@.len(),
        ensures
            user@ == self@[index as int],
    {
        &self.users[index]
    }

    /// The view lists the views of the accounts, in order.
    pub(crate) proof fn lemma_rows(&self)
        ensures
            self@.len() == self.users@.len(),
            forall|i: int|
                #![trigger self@[i]]
                #![trigger self.users@[i]]
                0 <= i < self.users@.len() ==> self@[i] == self.users@[i]@,
    {
    }

    /// The id for the next account: one more than the largest in use, and
    /// `None` once that no longer fits.
    pub fn next_id(&self) -> (r: Option<i32>)
        ensures
            r == if max_id(self@) + 1 <= i32::MAX {
                Some((max_id(self@) + 1) as i32)
            } else {
                None::<i32>
            },
    {
        let mut largest: i32 = 0;
        let mut i: usize = 0;
        proof {
            self.lemma_rows();
            assert(self@.subrange(0, 0) =~= Seq::<UserView>::empty());
        }
        while i < self.users.len()
            invariant
                i <= self.users.len(),
                self@.len() == self.users@.len(),
                forall|j: int|
                    #![trigger self@[j]]
                    #![trigger self.users@[j]]
                    0 <= j < self.users@.len() ==> self@[j] == self.users@[j]@,
                largest == max_id(self@.subrange(0, i as int)),
            decreases self.users.len() - i,
        {
            proof {
                let next = self@.subrange(0, i + 1);
                assert(next.drop_last() =~= self@.subrange(0, i as int));
                assert(next.last() == self@[i as int]);
            }
            if self.users[i].id > largest {
                largest = self.users[i].id;
            }
            i = i + 1;
        }
        assert(self@.subrange(0, i as int) =~= self@);
        largest.checked_add(1)
    }

    /// Adds an account at the end. Its id, username and email must be new to
    /// the store.
    pub(crate) fn insert(&mut self, user: User)
        requires
            old(self).wf(),
            user@.wf(),
            lookup(old(self)@, KeyView::Id(user@.id)) is None,
            lookup(old(self)@, KeyView::Username(user@.username)) is None,
            lookup(old(self)@, KeyView::Email(user@.email)) is None,
        ensures
            final(self).wf(),
            final(self)@ == old(self)@.push(user@),
    {
        proof {
            self.lemma_rows();
            lemma_lookup_some(self@, KeyView::Id(user@.id));
            lemma_lookup_some(self@, KeyView::Username(user@.username));
            lemma_lookup_some(self@, KeyView::Email(user@.email));
        }
        let ghost added = user@;
        self.users.push(user);
        proof {
            self.lemma_rows();
            assert(self@ =~= old(self)@.push(added));
            assert forall|i: int, j: int| 0 <= i < j < self@.len() implies {
                &&& (#[trigger] self@[i]).id != (#[trigger] self@[j]).id
                &&& self@[i].username != self@[j].username
                &&& self@[i].email != self@[j].email
            } by {
                if j == self@.len() - 1 {
                    assert(!key_matches(old(self)@[i], KeyView::Id(added.id)));
                    assert(!key_matches(old(self)@[i], KeyView::Username(added.username)));
                    assert(!key_matches(old(self)@[i], KeyView::Email(added.email)));
                } else {
                    assert(self@[i] == old(self)@[i]);
                    assert(self@[j] == old(self)@[j]);
                }
            }
        }
    }

    /// A store of the given accounts, in their order; `None` unless every
    /// account meets its invariants and no two share an id, a username or
    /// an email.
    pub fn from_users(users: Vec<User>) -> (r: Option<UserStore>)
        ensures
            match r {
                Some(store) => store.wf() && store@ == rows_of(users@),
                None => !store_wf(rows_of(users@)),
            },
    {
        let ghost rows = rows_of(users@);
        let store = UserStore { users };
        proof {
            store.lemma_rows();
        }
        let n = store.users.len();
        let mut j: usize = 0;
        while j < n
            invariant
                n == store.users.len(),
                j <= n,
                store@.len() == n,
                store@ == rows,
                rows == rows_of(users@),
                forall|k: int|
                    #![trigger store@[k]]
                    #![trigger store.users@[k]]
                    0 <= k < n ==> store@[k] == store.users@[k]@,
                store_wf(store@.subrange(0, j as int)),
            decreases n - j,
        {
            let ghost seen = store@.subrange(0, j as int);
            let ghost next = store@.subrange(0, j + 1);
            if !store.users[j].is_well_formed() {
                assert(store@[j as int] == store.users@[j as int]@);
                assert(!store@[j as int].wf());
                return None;
            }
            let mut i: usize = 0;
            while i < j
                invariant
                    n == store.users.len(),
                    i <= j < n,
                    store@.len() == n,
                    store@ == rows,
                    rows == rows_of(users@),
                    forall|k: int|
                        #![trigger store@[k]]
                        #![trigger store.users@[k]]
                        0 <= k < n ==> store@[k] == store.users@[k]@,
                    forall|k: int|
                        0 <= k < i ==> {
                            &&& (#[trigger] store@[k]).id != store@[j as int].id
                            &&& store@[k].username != store@[j as int].username
                            &&& store@[k].email != store@[j as int].email
                        },
                decreases j - i,
            {
                let a = &store.users[i];
                let b = &store.users[j];
                if a.id == b.id || a.username == b.username || a.email == b.email {
                    assert(store@[i as int] == store.users@[i as int]@);
                    assert(store@[j as int] == store.users@[j as int]@);
                    return None;
                }
                i = i + 1;
            }
            proof {
                assert forall|a: int, b: int| 0 <= a < b < next.len() implies {
                    &&& (#[trigger] next[a]).id != (#[trigger] next[b]).id
                    &&& next[a].username != next[b].username
                    &&& next[a].email != next[b].email
                } by {
                    assert(next[a] == store@[a]);
                    assert(next[b] == store@[b]);
                    if b < j {
                        assert(seen[a] == store@[a]);
                        assert(seen[b] == store@[b]);
                    }
                }
                assert forall|k: int| 0 <= k < next.len() implies (#[trigger] next[k]).wf() by {
                    if k < j {
                        assert(seen[k] == next[k]);
                    }
                }
            }
            j = j + 1;
        }
        assert(store@.subrange(0, n as int) =~= store@);
        Some(store)
    }

    /// The place of the first account that answers to `key`.
    pub fn find(&self, key: &UserKey) -> (r: Option<usize>)
        ensures
            match r {
                Some(i) => lookup(self@, key@) == Some(i as int) && i < self@.len(),
                None => lookup(self@, key@) is None,
            },
    {
        let mut i: usize = 0;
        while i < self.users.len()
            invariant
                i <= self.users.len(),
                forall|j: int| 0 <= j < i ==> !key_matches(#[trigger] self@[j], key@),
            decreases self.users.len() - i,
        {
            if user_matches(&self.users[i], key) {
                proof {
                    lemma_lookup_is_first_match(self@, key@, i as int);
                }
                return Some(i);
            }
            i = i + 1;
        }
        proof {
            lemma_lookup_none(self@, key@);
        }
        None
    }

    /// The first account that answers to `key`.
    pub fn find_user(&self, key: &UserKey) -> (r: Option<&User>)
        ensures
            match r {
                Some(user) => lookup(self@, key@) matches Some(i) && user@ == self@[i],
                None => lookup(self@, key@) is None,
            },
    {
        match self.find(key) {
            Some(i) => Some(&self.users[i]),
            None => None,
        }
    }
}

} // verus!
