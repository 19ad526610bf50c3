use vstd::prelude::*;
use vstd::string::*;
use crate::errors::AppError;
use crate::hashing::{hash_password, spec_hash_password, spec_verify_password, verify_password};
use crate::text::same_text;

verus! {

/// A registered user: the identifier that the store gave it, its username,
/// and the encoded hash of its secret.
#[derive(Clone, Debug, PartialEq, Eq)]
pub struct Account {
    pub id: i64,
    pub username: String,
    pub password_hash: String,
}

/// An account as its contract sees it: the texts as character sequences.
pub struct AccountView {
    pub id: i64,
    pub username: Seq<char>,
    pub password_hash: Seq<char>,
}

impl View for Account {
    type V = AccountView;

    open spec fn view(&self) -> AccountView {
        AccountView {
            id: self.id,
            username: self.username@,
            password_hash: self.password_hash@,
        }
    }
}

/// What a user saves of a provider.
#[derive(Debug, PartialEq, Eq)]
pub struct ProviderSnapshot {
    pub photo: String,
    pub name: String,
    pub address: String,
    pub rating: String,
}

/// A snapshot as its contract sees it.
pub struct ProviderSnapshotView {
    pub photo: Seq<char>,
    pub name: Seq<char>,
    pub address: Seq<char>,
    pub rating: Seq<char>,
}

impl View for ProviderSnapshot {
    type V = ProviderSnapshotView;

    open spec fn view(&self) -> ProviderSnapshotView {
        ProviderSnapshotView {
            photo: self.photo@,
            name: self.name@,
            address: self.address@,
            rating: self.rating@,
        }
    }
}

/// A saved provider: the identifier that the store gave it, the account that
/// owns it, and the snapshot, whose name is the title.
#[derive(Clone, Debug, PartialEq, Eq)]
pub struct Favorite {
    pub id: i64,
    pub user_id: i64,
    pub photo: String,
    pub title: String,
    pub address: String,
    pub rating: String,
}

/// A favorite as its contract sees it.
pub struct FavoriteView {
    pub id: i64,
    pub user_id: i64,
    pub photo: Seq<char>,
    pub title: Seq<char>,
    pub address: Seq<char>,
    pub rating: Seq<char>,
}

impl View for Favorite {
    type V = FavoriteView;

    open spec fn view(&self) -> FavoriteView {
        FavoriteView {
            id: self.id,
            user_id: self.user_id,
            photo: self.photo@,
            title: self.title@,
            address: self.address@,
            rating: self.rating@,
        }
    }
}

/// The accounts of a list as their contracts see them.
pub open spec fn account_views(accounts: Seq<Account>) -> Seq<AccountView> {
    accounts.map_values(|a: Account| a@)
}

/// The favorites of a list as their contracts see them.
pub open spec fn favorite_views(favorites: Seq<Favorite>) -> Seq<FavoriteView> {
    favorites.map_values(|f: Favorite| f@)
}

/// The first account of the list that carries the username.
pub open spec fn find_account(accounts: Seq<AccountView>, username: Seq<char>) -> Option<
    AccountView,
>
    decreases accounts.len(),
{
    if accounts.len() == 0 {
        None
    } else if accounts[0].username == username {
        Some(accounts[0])
    } else {
        find_account(accounts.drop_first(), username)
    }
}

/// The favorites of the list that the account owns, in the order of the
/// list.
pub open spec fn favorites_of(favorites: Seq<FavoriteView>, account_id: i64) -> Seq<FavoriteView>
    decreases favorites.len(),
{
    if favorites.len() == 0 {
        Seq::<FavoriteView>::empty()
    } else {
        let front = favorites_of(favorites.drop_last(), account_id);
        if favorites.last().user_id == account_id {
            front.push(favorites.last())
        } else {
            front
        }
    }
}

/// What the account store holds: the accounts and the favorites, each in the
/// order of insertion, and the identifiers that the next of each will get.
pub struct StoreModel {
    pub accounts: Seq<AccountView>,
    pub favorites: Seq<FavoriteView>,
    pub next_account_id: int,
    pub next_favorite_id: int,
}

impl StoreModel {
    /// The invariant of the store: no username occurs twice; identifiers are
    /// positive, grow with the order of insertion and stay below the next
    /// one to be given.
    pub open spec fn valid(self) -> bool {
        &&& 1 <= self.next_account_id <= i64::MAX
        &&& 1 <= self.next_favorite_id <= i64::MAX
        &&& forall|i: int|
            0 <= i < self.accounts.len() ==> 1 <= (#[trigger] self.accounts[i]).id
                < self.next_account_id
        &&& forall|i: int, j: int|
            0 <= i < j < self.accounts.len() ==> (#[trigger] self.accounts[i]).id < (
            #[trigger] self.accounts[j]).id
        &&& forall|i: int, j: int|
            0 <= i < j < self.accounts.len() ==> (#[trigger] self.accounts[i]).username != (
            #[trigger] self.accounts[j]).username
        &&& forall|i: int|
            0 <= i < self.favorites.len() ==> 1 <= (#[trigger] self.favorites[i]).id
                < self.next_favorite_id
        &&& forall|i: int, j: int|
            0 <= i < j < self.favorites.len() ==> (#[trigger] self.favorites[i]).id < (
            #[trigger] self.favorites[j]).id
    }

    /// The store with nothing in it.
    pub open spec fn empty() -> StoreModel {
        StoreModel {
            accounts: Seq::<AccountView>::empty(),
            favorites: Seq::<FavoriteView>::empty(),
            next_account_id: 1,
            next_favorite_id: 1,
        }
    }

    /// The store that holds the given rows: the next identifiers follow the
    /// last ones.
    pub open spec fn restored(accounts: Seq<AccountView>, favorites: Seq<FavoriteView>)
        -> StoreModel {
        StoreModel {
            accounts,
            favorites,
            next_account_id: if accounts.len() == 0 {
                1
            } else {
                accounts.last().id + 1
            },
            next_favorite_id: if favorites.len() == 0 {
                1
            } else {
                favorites.last().id + 1
            },
        }
    }

    /// The account that carries the username.
    pub open spec fn find(self, username: Seq<char>) -> Option<AccountView> {
        find_account(self.accounts, username)
    }

    /// The account that `create` makes.
    pub open spec fn new_account(self, username: Seq<char>, password_hash: Seq<char>) -> AccountView {
        AccountView { id: self.next_account_id as i64, username, password_hash }
    }

    /// Creating an account for a username with the encoded hash of its
    /// secret: `Conflict` where the username is taken, `Store` where the
    /// identifiers are used up, else the store with the new account at its
    /// end.
    pub open spec fn create(self, username: Seq<char>, password_hash: Seq<char>) -> Result<
        StoreModel,
        AppError,
    > {
        if self.find(username) is Some {
            Err(AppError::Conflict)
        } else if self.next_account_id >= i64::MAX {
            Err(AppError::Store)
        } else {
            Ok(
                StoreModel {
                    accounts: self.accounts.push(self.new_account(username, password_hash)),
                    next_account_id: self.next_account_id + 1,
                    ..self
                },
            )
        }
    }

    /// Registering a username with a secret and a salt: `Conflict` where the
    /// username is taken, `Validation` where the secret is too long to hash,
    /// else `create` with the encoded hash of the secret under the salt.
    pub open spec fn register(self, username: Seq<char>, secret: Seq<u8>, salt: Seq<u8>) -> Result<
        StoreModel,
        AppError,
    > {
        if self.find(username) is Some {
            Err(AppError::Conflict)
        } else {
            match spec_hash_password(secret, salt) {
                Ok(password_hash) => self.create(username, password_hash),
                Err(e) => Err(e),
            }
        }
    }

    /// Whether a secret is the one of the account with the username: the
    /// account exists and its hash accepts the secret.
    pub open spec fn verify(self, username: Seq<char>, secret: Seq<u8>) -> bool {
        match self.find(username) {
            Some(account) => spec_verify_password(account.password_hash, secret),
            None => false,
        }
    }

    /// The favorite that `add_favorite` makes.
    pub open spec fn new_favorite(self, account_id: i64, snapshot: ProviderSnapshotView)
        -> FavoriteView {
        FavoriteView {
            id: self.next_favorite_id as i64,
            user_id: account_id,
            photo: snapshot.photo,
            title: snapshot.name,
            address: snapshot.address,
            rating: snapshot.rating,
        }
    }

    /// Saving a snapshot for an account: `Store` where the identifiers are
    /// used up, else the store with the new favorite at its end.
    pub open spec fn add_favorite(self, account_id: i64, snapshot: ProviderSnapshotView) -> Result<
        StoreModel,
        AppError,
    > {
        if self.next_favorite_id >= i64::MAX {
            Err(AppError::Store)
        } else {
            Ok(
                StoreModel {
                    favorites: self.favorites.push(self.new_favorite(account_id, snapshot)),
                    next_favorite_id: self.next_favorite_id + 1,
                    ..self
                },
            )
        }
    }

    /// The favorites of an account, in the order of insertion.
    pub open spec fn list_favorites(self, account_id: i64) -> Seq<FavoriteView> {
        favorites_of(self.favorites, account_id)
    }
}

/// The account store: the rows of the users and of their favorites.
#[derive(Debug)]
pub struct AccountStore {
    accounts: Vec<Account>,
    favorites: Vec<Favorite>,
    next_account_id: i64,
    next_favorite_id: i64,
}

impl View for AccountStore {
    type V = StoreModel;

    closed spec fn view(&self) -> StoreModel {
        StoreModel {
            accounts: account_views(self.accounts@),
            favorites: favorite_views(self.favorites@),
            next_account_id: self.next_account_id as int,
            next_favorite_id: self.next_favorite_id as int,
        }
    }
}

/// What `find_account` finds carries the username and stands in the list,
/// and it finds nothing only where no account carries the username.
pub proof fn lemma_find_account(accounts: Seq<AccountView>, username: Seq<char>)
    ensures
        match find_account(accounts, username) {
            Some(account) => account.username == username && accounts.contains(account),
            None => forall|i: int|
                0 <= i < accounts.len() ==> (#[trigger] accounts[i]).username != username,
        },
    decreases accounts.len(),
{
    if accounts.len() > 0 && accounts[0].username != username {
        let rest = accounts.drop_first();
        lemma_find_account(rest, username);
        match find_account(rest, username) {
            Some(account) => {
                let i = choose|i: int| 0 <= i < rest.len() && rest[i] == account;
                assert(accounts[i + 1] == account);
            },
            None => {
                assert forall|i: int| 0 <= i < accounts.len() implies (
                #[trigger] accounts[i]).username != username by {
                    if i > 0 {
                        assert(rest[i - 1] == accounts[i]);
                    }
                }
            },
        }
    } else if accounts.len() > 0 {
        assert(accounts[0] == accounts[0]);
    }
}

/// Looking up a username after one more account went in: what was found
/// before is found still; else the new account is found where it carries the
/// username.
pub proof fn lemma_find_after_push(
    accounts: Seq<AccountView>,
    added: AccountView,
    username: Seq<char>,
)
    ensures
        find_account(accounts.push(added), username) == match find_account(accounts, username) {
            Some(account) => Some(account),
            None => if added.username == username {
                Some(added)
            } else {
                None
            },
        },
    decreases accounts.len(),
{
    let longer = accounts.push(added);
    if accounts.len() == 0 {
        assert(longer.drop_first() =~= Seq::<AccountView>::empty());
    } else {
        assert(longer.drop_first() =~= accounts.drop_first().push(added));
        if accounts[0].username != username {
            lemma_find_after_push(accounts.drop_first(), added, username);
        }
    }
}

/// The favorites of an account after one more favorite went in.
pub proof fn lemma_favorites_after_push(
    favorites: Seq<FavoriteView>,
    added: FavoriteView,
    account_id: i64,
)
    ensures
        favorites_of(favorites.push(added), account_id) == if added.user_id == account_id {
            favorites_of(favorites, account_id).push(added)
        } else {
            favorites_of(favorites, account_id)
        },
{
    assert(favorites.push(added).drop_last() =~= favorites);
}

/// Every favorite that is listed for an account is owned by it and stands in
/// the store.
pub proof fn lemma_favorites_are_owned(favorites: Seq<FavoriteView>, account_id: i64)
    ensures
        forall|i: int|
            0 <= i < favorites_of(favorites, account_id).len() ==> {
                &&& (#[trigger] favorites_of(favorites, account_id)[i]).user_id == account_id
                &&& favorites.contains(favorites_of(favorites, account_id)[i])
            },
    decreases favorites.len(),
{
    if favorites.len() > 0 {
        let front = favorites.drop_last();
        lemma_favorites_are_owned(front, account_id);
        let listed = favorites_of(favorites, account_id);
        let before = favorites_of(front, account_id);
        assert forall|i: int| 0 <= i < listed.len() implies {
            &&& (#[trigger] listed[i]).user_id == account_id
            &&& favorites.contains(listed[i])
        } by {
            if i < before.len() {
                assert(listed[i] == before[i]);
                let k = choose|k: int| 0 <= k < front.len() && front[k] == before[i];
                assert(favorites[k] == listed[i]);
            } else {
                assert(listed[i] == favorites.last());
                assert(favorites[favorites.len() - 1] == listed[i]);
            }
        }
    }
}

impl AccountStore {
    /// The store is valid at every moment.
    #[verifier::type_invariant]
    pub open spec fn well_formed(self) -> bool {
        self@.valid()
    }

    /// A store with nothing in it.
    pub fn new() -> (store: AccountStore)
        ensures
            store@ == StoreModel::empty(),
    {
        let store = AccountStore {
            accounts: Vec::new(),
            favorites: Vec::new(),
            next_account_id: 1,
            next_favorite_id: 1,
        };
        assert(store@.accounts =~= Seq::<AccountView>::empty());
        assert(store@.favorites =~= Seq::<FavoriteView>::empty());
        store
    }

    /// A store that holds the rows of an earlier one, each list in the order
    /// of its identifiers. Rows that no valid store can hold are refused
    /// with `Store`: a username that occurs twice, an identifier that is not
    /// positive, that does not grow, or that leaves none for the next row.
    pub fn restore(accounts: Vec<Account>, favorites: Vec<Favorite>) -> (store: Result<
        AccountStore,
        AppError,
    >)
        ensures
            match store {
                Ok(restored) => {
                    &&& restored@ == StoreModel::restored(
                        account_views(accounts@),
                        favorite_views(favorites@),
                    )
                    &&& restored@.valid()
                },
                Err(e) => {
                    &&& e == AppError::Store
                    &&& !StoreModel::restored(
                        account_views(accounts@),
                        favorite_views(favorites@),
                    ).valid()
                },
            },
    {
        proof {
            lemma_restored_valid(account_views(accounts@), favorite_views(favorites@));
        }
        let next_account_id = match next_account_id(&accounts) {
            Some(id) => id,
            None => {
                return Err(AppError::Store);
            },
        };
        if !usernames_differ(&accounts) {
            return Err(AppError::Store);
        }
        let next_favorite_id = match next_favorite_id(&favorites) {
            Some(id) => id,
            None => {
                return Err(AppError::Store);
            },
        };
        Ok(AccountStore { accounts, favorites, next_account_id, next_favorite_id })
    }

    /// The account that carries the username; `NotFound` where none does.
    pub fn find_by_username(&self, username: &str) -> (found: Result<&Account, AppError>)
        ensures
            self@.valid(),
            match found {
                Ok(account) => self@.find(username@) == Some(account@),
                Err(e) => e == AppError::NotFound && self@.find(username@) is None,
            },
    {
        proof {
            use_type_invariant(self);
        }
        let mut i: usize = 0;
        assert(self@.accounts.skip(0) =~= self@.accounts);
        while i < self.accounts.len()
            invariant
                i <= self.accounts.len(),
                self@.valid(),
                self@.accounts == account_views(self.accounts@),
                self@.find(username@) == find_account(self@.accounts.skip(i as int), username@),
            decreases self.accounts.len() - i,
        {
            let ghost rest = self@.accounts.skip(i as int);
            assert(rest[0] == self.accounts@[i as int]@);
            assert(rest.drop_first() =~= self@.accounts.skip(i + 1));
            if same_text(self.accounts[i].username.as_str(), username) {
                return Ok(&self.accounts[i]);
            }
            i += 1;
        }
        Err(AppError::NotFound)
    }

    /// Makes an account for a username, with the hash of the secret under
    /// the salt. A success leaves the store so that `verify_credential`
    /// accepts the secret for the username.
    pub fn create_account(&mut self, username: &str, secret: &str, salt: &[u8; 16]) -> (created:
        Result<Account, AppError>)
        ensures
            final(self)@.valid(),
            match old(self)@.register(username@, secret.spec_bytes(), salt@) {
                Ok(next) => {
                    &&& final(self)@ == next
                    &&& created matches Ok(account)
                    &&& final(self)@.find(username@) == Some(account@)
                    &&& final(self)@.verify(username@, secret.spec_bytes())
                },
                Err(e) => created == Err::<Account, AppError>(e) && final(self)@ == old(self)@,
            },
    {
        proof {
            use_type_invariant(&*self);
        }
        if self.find_by_username(username).is_ok() {
            return Err(AppError::Conflict);
        }
        let password_hash = match hash_password(secret, salt) {
            Ok(hash) => hash,
            Err(e) => {
                return Err(e);
            },
        };
        if self.next_account_id >= i64::MAX {
            return Err(AppError::Store);
        }
        let id = self.next_account_id;
        let account = Account { id, username: String::from_str(username), password_hash };
        let copy = Account {
            id,
            username: account.username.clone(),
            password_hash: account.password_hash.clone(),
        };
        let ghost before = self@;
        proof {
            lemma_find_account(before.accounts, username@);
            lemma_find_after_push(before.accounts, account@, username@);
        }
        let mut accounts: Vec<Account> = Vec::new();
        std::mem::swap(&mut accounts, &mut self.accounts);
        accounts.push(account);
        self.next_account_id = id + 1;
        proof {
            let old_views = before.accounts;
            let views = account_views(accounts@);
            assert(views =~= old_views.push(copy@));
            assert forall|i: int| 0 <= i < views.len() implies 1 <= (#[trigger] views[i]).id < id
                + 1 by {
                if i < old_views.len() {
                    assert(views[i] == old_views[i]);
                }
            }
            assert forall|i: int, j: int| 0 <= i < j < views.len() implies (#[trigger] views[i]).id
                < (#[trigger] views[j]).id && views[i].username != views[j].username by {
                assert(views[i] == old_views[i]);
                if j < old_views.len() {
                    assert(views[j] == old_views[j]);
                }
            }
        }
        self.accounts = accounts;
        proof {
            assert(self@.accounts =~= before.accounts.push(copy@));
            assert(self@.favorites == before.favorites);
        }
        Ok(copy)
    }

    /// Whether the secret is the one that the account with the username was
    /// created with, as far as its hash tells.
    pub fn verify_credential(&self, username: &str, secret: &str) -> (accepted: bool)
        ensures
            accepted == self@.verify(username@, secret.spec_bytes()),
    {
        match self.find_by_username(username) {
            Ok(account) => verify_password(account.password_hash.as_str(), secret),
            Err(_) => false,
        }
    }

    /// Saves a snapshot of a provider for an account.
    pub fn add_favorite(&mut self, account_id: i64, snapshot: &ProviderSnapshot) -> (added: Result<
        Favorite,
        AppError,
    >)
        ensures
            final(self)@.valid(),
            match old(self)@.add_favorite(account_id, snapshot@) {
                Ok(next) => {
                    &&& final(self)@ == next
                    &&& added matches Ok(favorite)
                    &&& favorite@ == old(self)@.new_favorite(account_id, snapshot@)
                },
                Err(e) => added == Err::<Favorite, AppError>(e) && final(self)@ == old(self)@,
            },
    {
        proof {
            use_type_invariant(&*self);
        }
        if self.next_favorite_id >= i64::MAX {
            return Err(AppError::Store);
        }
        let id = self.next_favorite_id;
        let favorite = Favorite {
            id,
            user_id: account_id,
            photo: snapshot.photo.clone(),
            title: snapshot.name.clone(),
            address: snapshot.address.clone(),
            rating: snapshot.rating.clone(),
        };
        let copy = copy_favorite(&favorite);
        let ghost before = self@;
        let mut favorites: Vec<Favorite> = Vec::new();
        std::mem::swap(&mut favorites, &mut self.favorites);
        favorites.push(favorite);
        self.next_favorite_id = id + 1;
        proof {
            let old_views = before.favorites;
            let views = favorite_views(favorites@);
            assert(views =~= old_views.push(copy@));
            assert forall|i: int| 0 <= i < views.len() implies 1 <= (#[trigger] views[i]).id < id
                + 1 by {
                if i < old_views.len() {
                    assert(views[i] == old_views[i]);
                }
            }
            assert forall|i: int, j: int| 0 <= i < j < views.len() implies (#[trigger] views[i]).id
                < (#[trigger] views[j]).id by {
                assert(views[i] == old_views[i]);
                if j < old_views.len() {
                    assert(views[j] == old_views[j]);
                }
            }
        }
        self.favorites = favorites;
        proof {
            assert(self@.favorites =~= before.favorites.push(copy@));
            assert(self@.accounts == before.accounts);
        }
        Ok(copy)
    }

    /// The favorites of an account, in the order in which they were saved.
    pub fn list_favorites(&self, account_id: i64) -> (listed: Vec<Favorite>)
        ensures
            favorite_views(listed@) == self@.list_favorites(account_id),
    {
        let mut listed: Vec<Favorite> = Vec::new();
        let mut i: usize = 0;
        assert(favorite_views(listed@) =~= Seq::<FavoriteView>::empty());
        assert(self@.favorites.take(0) =~= Seq::<FavoriteView>::empty());
        while i < self.favorites.len()
            invariant
                i <= self.favorites.len(),
                self@.favorites == favorite_views(self.favorites@),
                favorite_views(listed@) == favorites_of(self@.favorites.take(i as int), account_id),
            decreases self.favorites.len() - i,
        {
            let ghost before = listed@;
            proof {
                assert(self@.favorites.take(i + 1).drop_last() =~= self@.favorites.take(i as int));
                assert(self@.favorites.take(i + 1).last() == self.favorites@[i as int]@);
            }
            if self.favorites[i].user_id == account_id {
                let copy = copy_favorite(&self.favorites[i]);
                listed.push(copy);
                assert(favorite_views(listed@) =~= favorite_views(before).push(copy@));
            }
            i += 1;
        }
        assert(self@.favorites.take(self.favorites.len() as int) =~= self@.favorites);
        listed
    }
}

/// A favorite with the same fields.
pub fn copy_favorite(favorite: &Favorite) -> (copy: Favorite)
    ensures
        copy@ == favorite@,
{
    Favorite {
        id: favorite.id,
        user_id: favorite.user_id,
        photo: favorite.photo.clone(),
        title: favorite.title.clone(),
        address: favorite.address.clone(),
        rating: favorite.rating.clone(),
    }
}

/// Creating an account keeps the store valid.
pub proof fn lemma_create_keeps_valid(store: StoreModel, username: Seq<char>, password_hash: Seq<char>)
    requires
        store.valid(),
        store.create(username, password_hash) is Ok,
    ensures
        store.create(username, password_hash).unwrap().valid(),
{
    let next = store.create(username, password_hash).unwrap();
    let added = store.new_account(username, password_hash);
    lemma_find_account(store.accounts, username);
    assert forall|i: int| 0 <= i < next.accounts.len() implies 1 <= (#[trigger] next.accounts[i]).id
        < next.next_account_id by {
        if i < store.accounts.len() {
            assert(next.accounts[i] == store.accounts[i]);
        }
    }
    assert forall|i: int, j: int| 0 <= i < j < next.accounts.len() implies (
    #[trigger] next.accounts[i]).id < (#[trigger] next.accounts[j]).id && next.accounts[i].username
        != next.accounts[j].username by {
        assert(next.accounts[i] == store.accounts[i]);
        if j < store.accounts.len() {
            assert(next.accounts[j] == store.accounts[j]);
        }
    }
}

/// Saving a favorite keeps the store valid.
pub proof fn lemma_add_favorite_keeps_valid(
    store: StoreModel,
    account_id: i64,
    snapshot: ProviderSnapshotView,
)
    requires
        store.valid(),
        store.add_favorite(account_id, snapshot) is Ok,
    ensures
        store.add_favorite(account_id, snapshot).unwrap().valid(),
{
    let next = store.add_favorite(account_id, snapshot).unwrap();
    assert forall|i: int| 0 <= i < next.favorites.len() implies 1 <= (
    #[trigger] next.favorites[i]).id < next.next_favorite_id by {
        if i < store.favorites.len() {
            assert(next.favorites[i] == store.favorites[i]);
        }
    }
    assert forall|i: int, j: int| 0 <= i < j < next.favorites.len() implies (
    #[trigger] next.favorites[i]).id < (#[trigger] next.favorites[j]).id by {
        assert(next.favorites[i] == store.favorites[i]);
        if j < store.favorites.len() {
            assert(next.favorites[j] == store.favorites[j]);
        }
    }
}

/// An account that has been created is found under its username, with the
/// username and the hash it was created with, and the username cannot be
/// taken a second time: creating it again is a `Conflict`, whatever the hash,
/// and so is registering it again, whatever the secret and the salt.
pub proof fn law_created_account_is_found(
    store: StoreModel,
    username: Seq<char>,
    password_hash: Seq<char>,
    second_hash: Seq<char>,
    second_secret: Seq<u8>,
    second_salt: Seq<u8>,
)
    requires
        store.valid(),
        store.create(username, password_hash) is Ok,
    ensures
        ({
            let next = store.create(username, password_hash).unwrap();
            &&& next.valid()
            &&& next.find(username) == Some(store.new_account(username, password_hash))
            &&& next.find(username).unwrap().username == username
            &&& next.find(username).unwrap().password_hash == password_hash
            &&& next.create(username, second_hash) == Err::<StoreModel, AppError>(AppError::Conflict)
            &&& next.register(username, second_secret, second_salt) == Err::<StoreModel, AppError>(
                AppError::Conflict,
            )
        }),
{
    lemma_create_keeps_valid(store, username, password_hash);
    lemma_find_after_push(store.accounts, store.new_account(username, password_hash), username);
}

/// Creating an account leaves every other username as it was: found with the
/// same account, or not found.
pub proof fn law_create_leaves_others(
    store: StoreModel,
    username: Seq<char>,
    password_hash: Seq<char>,
    other: Seq<char>,
)
    requires
        store.create(username, password_hash) is Ok,
        other != username,
    ensures
        store.create(username, password_hash).unwrap().find(other) == store.find(other),
        store.create(username, password_hash).unwrap().favorites == store.favorites,
{
    lemma_find_after_push(store.accounts, store.new_account(username, password_hash), other);
}

/// A favorite that has been saved for an account is the last of the
/// account's list, after those that were listed before and in their order,
/// with every field of the snapshot as it was given. The list of any other
/// account stays as it was.
pub proof fn law_added_favorite_is_listed(
    store: StoreModel,
    account_id: i64,
    snapshot: ProviderSnapshotView,
    other_id: i64,
)
    requires
        store.valid(),
        store.add_favorite(account_id, snapshot) is Ok,
        other_id != account_id,
    ensures
        ({
            let next = store.add_favorite(account_id, snapshot).unwrap();
            let listed = next.list_favorites(account_id);
            &&& next.valid()
            &&& listed == store.list_favorites(account_id).push(
                store.new_favorite(account_id, snapshot),
            )
            &&& listed.last().user_id == account_id
            &&& listed.last().photo == snapshot.photo
            &&& listed.last().title == snapshot.name
            &&& listed.last().address == snapshot.address
            &&& listed.last().rating == snapshot.rating
            &&& next.list_favorites(other_id) == store.list_favorites(other_id)
            &&& next.accounts == store.accounts
        }),
{
    lemma_add_favorite_keeps_valid(store, account_id, snapshot);
    let added = store.new_favorite(account_id, snapshot);
    lemma_favorites_after_push(store.favorites, added, account_id);
    lemma_favorites_after_push(store.favorites, added, other_id);
}

/// The list of an account holds favorites of that account only, each of
/// them one that the store holds.
pub proof fn law_listed_favorites_are_owned(store: StoreModel, account_id: i64)
    ensures
        forall|i: int|
            0 <= i < store.list_favorites(account_id).len() ==> {
                &&& (#[trigger] store.list_favorites(account_id)[i]).user_id == account_id
                &&& store.favorites.contains(store.list_favorites(account_id)[i])
            },
{
    lemma_favorites_are_owned(store.favorites, account_id);
}

/// The identifiers of the accounts are positive, grow along the list and
/// leave one for the next account.
pub open spec fn account_ids_in_order(accounts: Seq<AccountView>) -> bool {
    &&& forall|i: int| 0 <= i < accounts.len() ==> 1 <= (#[trigger] accounts[i]).id < i64::MAX
    &&& forall|i: int, j: int|
        0 <= i < j < accounts.len() ==> (#[trigger] accounts[i]).id < (#[trigger] accounts[j]).id
}

/// No username occurs twice.
pub open spec fn usernames_distinct(accounts: Seq<AccountView>) -> bool {
    forall|i: int, j: int|
        0 <= i < j < accounts.len() ==> (#[trigger] accounts[i]).username != (
        #[trigger] accounts[j]).username
}

/// The identifiers of the favorites are positive, grow along the list and
/// leave one for the next favorite.
pub open spec fn favorite_ids_in_order(favorites: Seq<FavoriteView>) -> bool {
    &&& forall|i: int| 0 <= i < favorites.len() ==> 1 <= (#[trigger] favorites[i]).id < i64::MAX
    &&& forall|i: int, j: int|
        0 <= i < j < favorites.len() ==> (#[trigger] favorites[i]).id < (
        #[trigger] favorites[j]).id
}

/// The store of the given rows is valid exactly when the identifiers of both
/// lists are in order and no username occurs twice.
pub proof fn lemma_restored_valid(accounts: Seq<AccountView>, favorites: Seq<FavoriteView>)
    ensures
        StoreModel::restored(accounts, favorites).valid() <==> account_ids_in_order(accounts)
            && usernames_distinct(accounts) && favorite_ids_in_order(favorites),
{
    let store = StoreModel::restored(accounts, favorites);
    if store.valid() {
        assert forall|i: int| 0 <= i < accounts.len() implies 1 <= (#[trigger] accounts[i]).id
            < i64::MAX by {
            assert(store.accounts[i].id < store.next_account_id);
        }
        assert forall|i: int| 0 <= i < favorites.len() implies 1 <= (#[trigger] favorites[i]).id
            < i64::MAX by {
            assert(store.favorites[i].id < store.next_favorite_id);
        }
        assert forall|i: int, j: int| 0 <= i < j < accounts.len() implies (#[trigger] accounts[i]).id
            < (#[trigger] accounts[j]).id && accounts[i].username != accounts[j].username by {
            assert(store.accounts[i].id < store.accounts[j].id);
            assert(store.accounts[i].username != store.accounts[j].username);
        }
        assert forall|i: int, j: int| 0 <= i < j < favorites.len() implies (
        #[trigger] favorites[i]).id < (#[trigger] favorites[j]).id by {
            assert(store.favorites[i].id < store.favorites[j].id);
        }
    }
    if account_ids_in_order(accounts) && usernames_distinct(accounts) && favorite_ids_in_order(
        favorites,
    ) {
        if accounts.len() > 0 {
            assert(1 <= accounts[accounts.len() - 1].id < i64::MAX);
        }
        if favorites.len() > 0 {
            assert(1 <= favorites[favorites.len() - 1].id < i64::MAX);
        }
        assert forall|i: int| 0 <= i < store.accounts.len() implies 1 <= (
        #[trigger] store.accounts[i]).id < store.next_account_id by {
            assert(1 <= accounts[i].id < i64::MAX);
            if i < accounts.len() - 1 {
                assert(accounts[i].id < accounts[accounts.len() - 1].id);
            }
        }
        assert forall|i: int| 0 <= i < store.favorites.len() implies 1 <= (
        #[trigger] store.favorites[i]).id < store.next_favorite_id by {
            assert(1 <= favorites[i].id < i64::MAX);
            if i < favorites.len() - 1 {
                assert(favorites[i].id < favorites[favorites.len() - 1].id);
            }
        }
        assert(store.valid());
    }
}

/// The identifier after the last account's, where the identifiers are in
/// order.
fn next_account_id(accounts: &Vec<Account>) -> (next: Option<i64>)
    ensures
        match next {
            Some(id) => account_ids_in_order(account_views(accounts@)) && id == StoreModel::restored(
                account_views(accounts@),
                Seq::<FavoriteView>::empty(),
            ).next_account_id,
            None => !account_ids_in_order(account_views(accounts@)),
        },
{
    let ghost views = account_views(accounts@);
    let mut last: i64 = 0;
    let mut k: usize = 0;
    while k < accounts.len()
        invariant
            k <= accounts.len(),
            views == account_views(accounts@),
            0 <= last < i64::MAX,
            k == 0 ==> last == 0,
            k > 0 ==> last == views[k - 1].id,
            forall|i: int| 0 <= i < k ==> 1 <= (#[trigger] views[i]).id < i64::MAX,
            forall|i: int, j: int|
                0 <= i < j < k ==> (#[trigger] views[i]).id < (#[trigger] views[j]).id,
        decreases accounts.len() - k,
    {
        let id = accounts[k].id;
        assert(views[k as int].id == id);
        if id <= last || id >= i64::MAX {
            proof {
                if k > 0 && id <= last {
                    assert(!(views[k - 1].id < views[k as int].id));
                } else {
                    assert(!(1 <= views[k as int].id < i64::MAX));
                }
            }
            return None;
        }
        proof {
            assert forall|i: int, j: int| 0 <= i < j < k + 1 implies (#[trigger] views[i]).id < (
            #[trigger] views[j]).id by {
                if j == k && i < k - 1 {
                    assert(views[i].id < views[k - 1].id);
                }
            }
        }
        last = id;
        k += 1;
    }
    Some(last + 1)
}

/// The identifier after the last favorite's, where the identifiers are in
/// order.
fn next_favorite_id(favorites: &Vec<Favorite>) -> (next: Option<i64>)
    ensures
        match next {
            Some(id) => favorite_ids_in_order(favorite_views(favorites@)) && id
                == StoreModel::restored(
                Seq::<AccountView>::empty(),
                favorite_views(favorites@),
            ).next_favorite_id,
            None => !favorite_ids_in_order(favorite_views(favorites@)),
        },
{
    let ghost views = favorite_views(favorites@);
    let mut last: i64 = 0;
    let mut k: usize = 0;
    while k < favorites.len()
        invariant
            k <= favorites.len(),
            views == favorite_views(favorites@),
            0 <= last < i64::MAX,
            k == 0 ==> last == 0,
            k > 0 ==> last == views[k - 1].id,
            forall|i: int| 0 <= i < k ==> 1 <= (#[trigger] views[i]).id < i64::MAX,
            forall|i: int, j: int|
                0 <= i < j < k ==> (#[trigger] views[i]).id < (#[trigger] views[j]).id,
        decreases favorites.len() - k,
    {
        let id = favorites[k].id;
        assert(views[k as int].id == id);
        if id <= last || id >= i64::MAX {
            proof {
                if k > 0 && id <= last {
                    assert(!(views[k - 1].id < views[k as int].id));
                } else {
                    assert(!(1 <= views[k as int].id < i64::MAX));
                }
            }
            return None;
        }
        proof {
            assert forall|i: int, j: int| 0 <= i < j < k + 1 implies (#[trigger] views[i]).id < (
            #[trigger] views[j]).id by {
                if j == k && i < k - 1 {
                    assert(views[i].id < views[k - 1].id);
                }
            }
        }
        last = id;
        k += 1;
    }
    Some(last + 1)
}

/// Whether no username occurs twice among the accounts.
fn usernames_differ(accounts: &Vec<Account>) -> (distinct: bool)
    ensures
        distinct == usernames_distinct(account_views(accounts@)),
{
    let ghost views = account_views(accounts@);
    let mut j: usize = 0;
    while j < accounts.len()
        invariant
            j <= accounts.len(),
            views == account_views(accounts@),
            forall|a: int, b: int|
                0 <= a < b < j ==> (#[trigger] views[a]).username != (#[trigger] views[b]).username,
        decreases accounts.len() - j,
    {
        let mut i: usize = 0;
        while i < j
            invariant
                i <= j < accounts.len(),
                views == account_views(accounts@),
                forall|a: int| 0 <= a < i ==> (#[trigger] views[a]).username != views[j as int].username,
            decreases j - i,
        {
            if same_text(accounts[i].username.as_str(), accounts[j].username.as_str()) {
                assert(views[i as int].username == views[j as int].username);
                return false;
            }
            i += 1;
        }
        j += 1;
    }
    true
}

} // verus!
