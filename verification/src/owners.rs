//! Who owns which package: the two indexes over the ownership table, and
//! the owner's fields of each package.

use vstd::prelude::*;
use vstd::hash_map::StringHashMap;
use crate::records::{crate_views, Crate, CrateOwner, CrateView, User, UserView};

verus! {

/// The views of the texts of a list.
pub open spec fn id_views(ids: Seq<String>) -> Seq<Seq<char>> {
    ids.map_values(|id: String| id@)
}

/// The owner of each package, by the package's id.
pub struct Owners {
    map: StringHashMap<String>,
}

impl View for Owners {
    type V = Map<Seq<char>, Seq<char>>;

    closed spec fn view(&self) -> Map<Seq<char>, Seq<char>> {
        Map::new(|id: Seq<char>| self.map@.contains_key(id), |id: Seq<char>| self.map@[id]@)
    }
}

impl Owners {
    /// An index without a package.
    pub fn new() -> (owners: Self)
        ensures
            owners@ == Map::<Seq<char>, Seq<char>>::empty(),
    {
        let owners = Owners { map: StringHashMap::new() };
        assert(owners@ =~= Map::<Seq<char>, Seq<char>>::empty());
        owners
    }

    /// Records the owner of a package. An owner recorded for the package
    /// before is forgotten.
    pub fn insert(&mut self, crate_id: String, owner_id: String)
        ensures
            final(self)@ == old(self)@.insert(crate_id@, owner_id@),
    {
        self.map.insert(crate_id, owner_id);
        assert(self@ =~= old(self)@.insert(crate_id@, owner_id@));
    }

    /// The owner of a package, where one is recorded.
    pub fn get(&self, crate_id: &str) -> (owner_id: Option<&String>)
        ensures
            match owner_id {
                Some(id) => self@.contains_key(crate_id@) && self@[crate_id@] == id@,
                None => !self@.contains_key(crate_id@),
            },
    {
        self.map.get(crate_id)
    }
}

/// The packages of each owner, by the owner's id, in the order in which
/// the ownership table names them.
pub struct CratesByOwner {
    slots: StringHashMap<usize>,
    lists: Vec<Vec<String>>,
}

/// The packages listed for an owner, none where the owner is not known.
pub open spec fn listed(by_owner: Map<Seq<char>, Seq<Seq<char>>>, owner_id: Seq<char>) -> Seq<
    Seq<char>,
> {
    if by_owner.contains_key(owner_id) {
        by_owner[owner_id]
    } else {
        Seq::empty()
    }
}

impl View for CratesByOwner {
    type V = Map<Seq<char>, Seq<Seq<char>>>;

    closed spec fn view(&self) -> Map<Seq<char>, Seq<Seq<char>>> {
        Map::new(
            |id: Seq<char>| self.slots@.contains_key(id),
            |id: Seq<char>| id_views(self.lists@[self.slots@[id] as int]@),
        )
    }
}

impl CratesByOwner {
    /// The index is sound inside: every owner has a list of its own.
    pub closed spec fn wf(&self) -> bool {
        &&& forall|id: Seq<char>| #[trigger]
            self.slots@.contains_key(id) ==> self.slots@[id] < self.lists.len()
        &&& forall|a: Seq<char>, b: Seq<char>|
            #![trigger self.slots@[a], self.slots@[b]]
            self.slots@.contains_key(a) && self.slots@.contains_key(b) && self.slots@[a]
                == self.slots@[b] ==> a == b
    }

    /// An index without an owner.
    pub fn new() -> (by_owner: Self)
        ensures
            by_owner.wf(),
            by_owner@ == Map::<Seq<char>, Seq<Seq<char>>>::empty(),
    {
        let by_owner = CratesByOwner { slots: StringHashMap::new(), lists: Vec::new() };
        assert(by_owner@ =~= Map::<Seq<char>, Seq<Seq<char>>>::empty());
        by_owner
    }

    /// Adds a package at the end of the list of an owner, which begins
    /// with it where the owner had none.
    pub fn add(&mut self, owner_id: String, crate_id: String)
        requires
            old(self).wf(),
        ensures
            final(self).wf(),
            final(self)@ == old(self)@.insert(
                owner_id@,
                listed(old(self)@, owner_id@).push(crate_id@),
            ),
    {
        let ghost owner = owner_id@;
        let ghost package = crate_id@;
        let found = match self.slots.get(owner_id.as_str()) {
            Some(slot) => Some(*slot),
            None => None,
        };
        match found {
            Some(slot) => {
                let ghost before = self.lists@[slot as int]@;
                self.lists[slot].push(crate_id);
                assert(id_views(self.lists@[slot as int]@) =~= id_views(before).push(package));
                assert(self@ =~= old(self)@.insert(owner, listed(old(self)@, owner).push(package)));
            },
            None => {
                let slot = self.lists.len();
                let mut list: Vec<String> = Vec::new();
                list.push(crate_id);
                assert(id_views(list@) =~= Seq::<Seq<char>>::empty().push(package));
                self.lists.push(list);
                self.slots.insert(owner_id, slot);
                assert(self@ =~= old(self)@.insert(owner, listed(old(self)@, owner).push(package)));
            },
        }
    }

    /// The packages of an owner, where the owner has any.
    pub fn get(&self, owner_id: &str) -> (crate_ids: Option<&Vec<String>>)
        requires
            self.wf(),
        ensures
            match crate_ids {
                Some(ids) => self@.contains_key(owner_id@) && self@[owner_id@] == id_views(ids@),
                None => !self@.contains_key(owner_id@),
            },
    {
        match self.slots.get(owner_id) {
            Some(slot) => Some(&self.lists[*slot]),
            None => None,
        }
    }

    /// The number of packages of an owner.
    pub fn count(&self, owner_id: &str) -> (count: usize)
        requires
            self.wf(),
        ensures
            count == listed(self@, owner_id@).len(),
    {
        match self.get(owner_id) {
            Some(ids) => ids.len(),
            None => 0,
        }
    }
}

/// The owner of each package after the links of the table, taken in
/// order: a later link of a package replaces an earlier one.
pub open spec fn owner_by_crate(links: Seq<CrateOwner>) -> Map<Seq<char>, Seq<char>>
    decreases links.len(),
{
    if links.len() == 0 {
        Map::empty()
    } else {
        owner_by_crate(links.drop_last()).insert(links.last().crate_id@, links.last().owner_id@)
    }
}

/// The packages of each owner after the links of the table, taken in
/// order: each link adds its package at the end of its owner's list.
pub open spec fn crates_by_owner(links: Seq<CrateOwner>) -> Map<Seq<char>, Seq<Seq<char>>>
    decreases links.len(),
{
    if links.len() == 0 {
        Map::empty()
    } else {
        let before = crates_by_owner(links.drop_last());
        let link = links.last();
        before.insert(link.owner_id@, listed(before, link.owner_id@).push(link.crate_id@))
    }
}

/// Goes through the ownership table once and builds both indexes: the
/// owner of each package, which is the one of its last link, and the
/// packages of each owner in the order of the table.
pub fn index_crate_owners(links: &Vec<CrateOwner>) -> (indexes: (Owners, CratesByOwner))
    ensures
        indexes.0@ == owner_by_crate(links@),
        indexes.1.wf(),
        indexes.1@ == crates_by_owner(links@),
{
    let mut owner_by_crate_id = Owners::new();
    let mut crates_by_owner_id = CratesByOwner::new();
    let mut i: usize = 0;
    while i < links.len()
        invariant
            i <= links.len(),
            owner_by_crate_id@ == owner_by_crate(links@.take(i as int)),
            crates_by_owner_id.wf(),
            crates_by_owner_id@ == crates_by_owner(links@.take(i as int)),
        decreases links.len() - i,
    {
        let link = &links[i];
        proof {
            let next = links@.take(i as int + 1);
            assert(next.drop_last() =~= links@.take(i as int));
            assert(next.last() == links@[i as int]);
        }
        owner_by_crate_id.insert(link.crate_id.clone(), link.owner_id.clone());
        crates_by_owner_id.add(link.owner_id.clone(), link.crate_id.clone());
        i += 1;
    }
    assert(links@.take(i as int) =~= links@);
    (owner_by_crate_id, crates_by_owner_id)
}

/// The values of the users of a list, in its order.
pub open spec fn user_views(users: Seq<User>) -> Seq<UserView> {
    users.map_values(|user: User| user@)
}

/// The ids of the users of a list, in its order.
pub open spec fn user_ids(users: Seq<UserView>) -> Seq<Seq<char>> {
    users.map_values(|user: UserView| user.id)
}

/// The ids of the packages of the links of a table, in its order.
pub open spec fn linked_crates(links: Seq<CrateOwner>) -> Seq<Seq<char>> {
    links.map_values(|link: CrateOwner| link.crate_id@)
}

/// The last place in the list that holds the key, where one does.
pub open spec fn last_at(keys: Seq<Seq<char>>, key: Seq<char>) -> Option<int>
    decreases keys.len(),
{
    if keys.len() == 0 {
        None
    } else if keys.last() == key {
        Some(keys.len() - 1)
    } else {
        last_at(keys.drop_last(), key)
    }
}

/// The place that `last_at` finds holds the key, and no later place
/// does; where it finds none, no place holds the key.
pub proof fn lemma_last_at(keys: Seq<Seq<char>>, key: Seq<char>)
    ensures
        match last_at(keys, key) {
            Some(at) => {
                &&& 0 <= at < keys.len()
                &&& keys[at] == key
                &&& forall|later: int| at < later < keys.len() ==> keys[later] != key
            },
            None => forall|at: int| 0 <= at < keys.len() ==> keys[at] != key,
        },
    decreases keys.len(),
{
    if keys.len() > 0 && keys.last() != key {
        let rest = keys.drop_last();
        lemma_last_at(rest, key);
        match last_at(rest, key) {
            Some(at) => {
                assert(keys[at] == rest[at]);
                assert forall|later: int| at < later < keys.len() implies keys[later] != key by {
                    if later < rest.len() {
                        assert(keys[later] == rest[later]);
                    }
                }
            },
            None => {
                assert forall|at: int| 0 <= at < keys.len() implies keys[at] != key by {
                    if at < rest.len() {
                        assert(keys[at] == rest[at]);
                    }
                }
            },
        }
    }
}

proof fn lemma_last_at_push(keys: Seq<Seq<char>>, added: Seq<char>, key: Seq<char>)
    ensures
        last_at(keys.push(added), key) == if added == key {
            Some(keys.len() as int)
        } else {
            last_at(keys, key)
        },
{
    assert(keys.push(added).drop_last() =~= keys);
}

/// The package with the fields of its owner filled in: login, name and
/// avatar of the user that the index names as its owner, the last of the
/// list where several have the owner's id. A package that the index does
/// not know, or whose owner is not among the users, stays as it is.
pub open spec fn with_owner(
    krate: CrateView,
    users: Seq<UserView>,
    owners: Map<Seq<char>, Seq<char>>,
) -> CrateView {
    if owners.contains_key(krate.id) {
        match last_at(user_ids(users), owners[krate.id]) {
            Some(at) => CrateView {
                owner_gh_login: users[at].gh_login,
                owner_name: users[at].name,
                owner_gh_avatar: users[at].gh_avatar,
                ..krate
            },
            None => krate,
        }
    } else {
        krate
    }
}

/// Fills in the owner's fields of every package: login, name and avatar
/// of the user that the index names as the package's owner. A package
/// without an owner in the index, or with one that is not among the
/// users, is left as it is; so is every other field.
pub fn add_owners_to_crates(crates: &mut Vec<Crate>, users: &Vec<User>, owner_by_crate_id: &Owners)
    ensures
        final(crates).len() == old(crates).len(),
        forall|i: int|
            0 <= i < old(crates).len() ==> (#[trigger] final(crates)[i])@ == with_owner(
                old(crates)[i]@,
                user_views(users@),
                owner_by_crate_id@,
            ),
{
    let ghost all_users = user_views(users@);
    let ghost ids = user_ids(all_users);
    let mut mapping: StringHashMap<usize> = StringHashMap::new();
    let mut u: usize = 0;
    while u < users.len()
        invariant
            u <= users.len(),
            all_users == user_views(users@),
            ids == user_ids(all_users),
            forall|id: Seq<char>|
                mapping@.contains_key(id) <==> (#[trigger] last_at(ids.take(u as int), id))
                    is Some,
            forall|id: Seq<char>|
                mapping@.contains_key(id) ==> mapping@[id] as int == (#[trigger] last_at(
                    ids.take(u as int),
                    id,
                )).unwrap(),
        decreases users.len() - u,
    {
        let ghost seen = ids.take(u as int);
        let ghost added = users@[u as int].id@;
        proof {
            assert(ids.take(u as int + 1) =~= seen.push(added));
            assert forall|id: Seq<char>| #[trigger]
                last_at(seen.push(added), id) == if added == id {
                    Some(u as int)
                } else {
                    last_at(seen, id)
                } by {
                lemma_last_at_push(seen, added, id);
            }
        }
        mapping.insert(users[u].id.clone(), u);
        u += 1;
    }
    assert(ids.take(u as int) =~= ids);
    let mut i: usize = 0;
    while i < crates.len()
        invariant
            i <= crates.len(),
            crates.len() == old(crates).len(),
            u == users.len(),
            all_users == user_views(users@),
            ids == user_ids(all_users),
            forall|id: Seq<char>|
                mapping@.contains_key(id) <==> (#[trigger] last_at(ids, id)) is Some,
            forall|id: Seq<char>|
                mapping@.contains_key(id) ==> mapping@[id] as int == (#[trigger] last_at(
                    ids,
                    id,
                )).unwrap(),
            forall|k: int|
                0 <= k < i ==> (#[trigger] crates[k])@ == with_owner(
                    old(crates)[k]@,
                    all_users,
                    owner_by_crate_id@,
                ),
            forall|k: int| i <= k < crates.len() ==> #[trigger] crates[k] == old(crates)[k],
        decreases crates.len() - i,
    {
        let ghost before = crates[i as int]@;
        match owner_by_crate_id.get(crates[i].id.as_str()) {
            Some(owner_id) => {
                proof {
                    lemma_last_at(ids, owner_id@);
                }
                match mapping.get(owner_id.as_str()) {
                    Some(at) => {
                        let user = &users[*at];
                        crates[i].owner_gh_login = user.gh_login.clone();
                        crates[i].owner_name = user.name.clone();
                        crates[i].owner_gh_avatar = user.gh_avatar.clone();
                    },
                    None => {},
                }
            },
            None => {},
        }
        assert(crates[i as int]@ == with_owner(before, all_users, owner_by_crate_id@));
        i += 1;
    }
}

/// Sets the number of packages of each user to the number that the index
/// lists under the user's id, and leaves the rest of the user as it is.
pub fn count_owned_crates(users: &mut Vec<User>, crates_by_owner: &CratesByOwner)
    requires
        crates_by_owner.wf(),
    ensures
        final(users).len() == old(users).len(),
        forall|i: int|
            0 <= i < old(users).len() ==> (#[trigger] final(users)[i])@ == (UserView {
                count: listed(crates_by_owner@, old(users)[i].id@).len(),
                ..old(users)[i]@
            }),
{
    let mut i: usize = 0;
    while i < users.len()
        invariant
            i <= users.len(),
            users.len() == old(users).len(),
            crates_by_owner.wf(),
            forall|k: int|
                0 <= k < i ==> (#[trigger] users[k])@ == (UserView {
                    count: listed(crates_by_owner@, old(users)[k].id@).len(),
                    ..old(users)[k]@
                }),
            forall|k: int| i <= k < users.len() ==> #[trigger] users[k] == old(users)[k],
        decreases users.len() - i,
    {
        let count = crates_by_owner.count(users[i].id.as_str());
        users[i].count = count;
        i += 1;
    }
}

/// The index of owners knows exactly the packages that the table links,
/// and gives each the owner of its last link.
pub proof fn lemma_last_link_decides(links: Seq<CrateOwner>, crate_id: Seq<char>)
    ensures
        match last_at(linked_crates(links), crate_id) {
            Some(at) => owner_by_crate(links).contains_key(crate_id) && owner_by_crate(
                links,
            )[crate_id] == links[at].owner_id@,
            None => !owner_by_crate(links).contains_key(crate_id),
        },
    decreases links.len(),
{
    if links.len() > 0 {
        let rest = links.drop_last();
        lemma_last_link_decides(rest, crate_id);
        assert(linked_crates(links).drop_last() =~= linked_crates(rest));
        lemma_last_at(linked_crates(rest), crate_id);
    }
}

/// The rule that picks the links of one owner.
pub open spec fn linked_to(owner_id: Seq<char>) -> spec_fn(CrateOwner) -> bool {
    |link: CrateOwner| link.owner_id@ == owner_id
}

/// The package of a link.
pub open spec fn crate_of() -> spec_fn(CrateOwner) -> Seq<char> {
    |link: CrateOwner| link.crate_id@
}

/// The packages of the links of one owner, in the order of the table.
pub open spec fn crates_linked_to(links: Seq<CrateOwner>, owner_id: Seq<char>) -> Seq<Seq<char>> {
    links.filter(linked_to(owner_id)).map_values(crate_of())
}

/// The index of packages knows exactly the owners that the table links,
/// and lists for each the packages of its links in the order of the
/// table.
pub proof fn lemma_crates_in_table_order(links: Seq<CrateOwner>, owner_id: Seq<char>)
    ensures
        crates_by_owner(links).contains_key(owner_id) <==> crates_linked_to(links, owner_id).len()
            > 0,
        listed(crates_by_owner(links), owner_id) == crates_linked_to(links, owner_id),
    decreases links.len(),
{
    if links.len() == 0 {
        assert(links.filter(linked_to(owner_id)) =~= Seq::empty());
        assert(crates_linked_to(links, owner_id) =~= Seq::empty());
    } else {
        let rest = links.drop_last();
        let link = links.last();
        lemma_crates_in_table_order(rest, owner_id);
        assert(links =~= rest.push(link));
        rest.lemma_filter_push(link, linked_to(owner_id));
        if link.owner_id@ == owner_id {
            rest.filter(linked_to(owner_id)).lemma_push_map_commute(crate_of(), link);
            assert(crates_linked_to(links, owner_id) =~= crates_linked_to(rest, owner_id).push(
                link.crate_id@,
            ));
        } else {
            assert(crates_linked_to(links, owner_id) =~= crates_linked_to(rest, owner_id));
        }
    }
}

} // verus!
