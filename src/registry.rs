use std::collections::HashMap;
use vstd::prelude::*;

use crate::types::{Banner, BannerError, Event};

verus! {

broadcast use vstd::std_specs::hash::group_hash_axioms;

/// The mathematical state of a registry.
///
/// `all` is the global index (position to asset) and `all_index` its reverse;
/// `owned` gives each account's index and `owned_index` the position of each
/// asset in its owner's index. `accounts` lists, once each, the accounts that
/// have an index.
pub ghost struct RegistryView {
    pub banners: Map<u64, Banner>,
    pub owner: Map<u64, u64>,
    pub all: Seq<u64>,
    pub all_index: Map<u64, u64>,
    pub owned: Map<u64, Seq<u64>>,
    pub owned_index: Map<u64, u64>,
    pub accounts: Seq<u64>,
    pub nonce: u64,
}

/// Total length of the indices of the accounts `accs`.
pub open spec fn sum_owned(accs: Seq<u64>, owned: Map<u64, Seq<u64>>) -> int
    decreases accs.len(),
{
    if accs.len() == 0 {
        0
    } else {
        sum_owned(accs.drop_last(), owned) + owned[accs.last()].len()
    }
}

impl RegistryView {
    /// The index of account `a`: empty where it has none.
    pub open spec fn owned_of(self, a: u64) -> Seq<u64> {
        if self.owned.contains_key(a) {
            self.owned[a]
        } else {
            Seq::empty()
        }
    }

    /// Both indices agree with the owner map and with their reverse maps.
    pub open spec fn indices_wf(self) -> bool {
        &&& self.banners.dom() == self.owner.dom()
        &&& self.all_index.dom() == self.owner.dom()
        &&& self.owned_index.dom() == self.owner.dom()
        &&& self.all.len() <= usize::MAX
        &&& forall|i: int|
            0 <= i < self.all.len() ==> {
                &&& self.owner.contains_key(#[trigger] self.all[i])
                &&& self.all_index[self.all[i]] == i
            }
        &&& forall|id: u64| #[trigger]
            self.owner.contains_key(id) ==> {
                &&& self.all_index[id] < self.all.len()
                &&& self.all[self.all_index[id] as int] == id
                &&& self.owned.contains_key(self.owner[id])
                &&& self.owned_index[id] < self.owned[self.owner[id]].len()
                &&& self.owned[self.owner[id]][self.owned_index[id] as int] == id
            }
        &&& forall|a: u64, i: int|
            self.owned.contains_key(a) && 0 <= i < self.owned[a].len() ==> {
                &&& self.owner.contains_key(#[trigger] self.owned[a][i])
                &&& self.owner[self.owned[a][i]] == a
                &&& self.owned_index[self.owned[a][i]] == i
            }
        &&& self.accounts.no_duplicates()
        &&& forall|a: u64| #[trigger] self.owned.contains_key(a) <==> self.accounts.contains(a)
        &&& sum_owned(self.accounts, self.owned) == self.all.len()
    }

    /// Well-formed registry: consistent indices, and at most one nonce step per
    /// asset.
    pub open spec fn wf(self) -> bool {
        &&& self.indices_wf()
        &&& self.nonce <= self.all.len()
    }

    /// The registry after `id` is recorded for `to` as `b`.
    pub open spec fn minted(self, to: u64, id: u64, b: Banner) -> RegistryView {
        RegistryView {
            banners: self.banners.insert(id, b),
            owner: self.owner.insert(id, to),
            all: self.all.push(id),
            all_index: self.all_index.insert(id, self.all.len() as u64),
            owned: self.owned.insert(to, self.owned_of(to).push(id)),
            owned_index: self.owned_index.insert(id, self.owned_of(to).len() as u64),
            accounts: if self.owned.contains_key(to) {
                self.accounts
            } else {
                self.accounts.push(to)
            },
            nonce: self.nonce,
        }
    }

    /// The registry after `id` moves from `from` to another account `to`: the
    /// last asset of `from`'s index takes the vacated position.
    pub open spec fn transferred(self, from: u64, to: u64, id: u64) -> RegistryView {
        let pos = self.owned_index[id];
        let src = self.owned_of(from);
        let moved = src.last();
        RegistryView {
            owner: self.owner.insert(id, to),
            owned: self.owned.insert(from, src.update(pos as int, moved).drop_last()).insert(
                to,
                self.owned_of(to).push(id),
            ),
            owned_index: self.owned_index.insert(moved, pos).insert(
                id,
                self.owned_of(to).len() as u64,
            ),
            accounts: if self.owned.contains_key(to) {
                self.accounts
            } else {
                self.accounts.push(to)
            },
            ..self
        }
    }
}

/// Membership in a non-empty sequence splits at its last element.
proof fn lemma_contains_last(accs: Seq<u64>, x: u64)
    requires
        accs.len() > 0,
    ensures
        accs.contains(x) <==> accs.drop_last().contains(x) || accs.last() == x,
{
    let init = accs.drop_last();
    if accs.contains(x) && accs.last() != x {
        let j = choose|j: int| 0 <= j < accs.len() && accs[j] == x;
        assert(init[j] == x);
    }
    if init.contains(x) {
        let j = choose|j: int| 0 <= j < init.len() && init[j] == x;
        assert(accs[j] == x);
    }
    if accs.last() == x {
        assert(accs[accs.len() - 1] == x);
    }
}

/// The total covers the indices of any two distinct listed accounts.
pub proof fn lemma_sum_owned_covers(accs: Seq<u64>, owned: Map<u64, Seq<u64>>, a: u64, b: u64)
    requires
        accs.no_duplicates(),
        a != b,
    ensures
        sum_owned(accs, owned) >= (if accs.contains(a) {
            owned[a].len() as int
        } else {
            0
        }) + (if accs.contains(b) {
            owned[b].len() as int
        } else {
            0
        }),
    decreases accs.len(),
{
    if accs.len() > 0 {
        let init = accs.drop_last();
        lemma_sum_owned_covers(init, owned, a, b);
        lemma_contains_last(accs, a);
        lemma_contains_last(accs, b);
        if accs.last() == a {
            assert(!init.contains(a));
        }
        if accs.last() == b {
            assert(!init.contains(b));
        }
    }
}

/// In a well-formed registry an account that does not hold every asset has
/// room in its index for one more.
pub proof fn lemma_room_to_receive(v: RegistryView, from: u64, to: u64)
    requires
        v.indices_wf(),
        from != to,
        v.owned.contains_key(from),
        v.owned[from].len() > 0,
    ensures
        v.owned_of(to).len() < usize::MAX,
{
    lemma_sum_owned_covers(v.accounts, v.owned, from, to);
}

/// Changing the index of one account changes the total by the change of its length.
pub proof fn lemma_sum_owned_insert(
    accs: Seq<u64>,
    owned: Map<u64, Seq<u64>>,
    a: u64,
    s: Seq<u64>,
)
    requires
        accs.no_duplicates(),
    ensures
        sum_owned(accs, owned.insert(a, s)) == sum_owned(accs, owned) + if accs.contains(a) {
            s.len() - owned[a].len()
        } else {
            0
        },
    decreases accs.len(),
{
    if accs.len() > 0 {
        let init = accs.drop_last();
        assert(init.no_duplicates());
        lemma_sum_owned_insert(init, owned, a, s);
        if accs.last() == a {
            assert(!init.contains(a));
        } else {
            assert(accs =~= init.push(accs.last()));
            if accs.contains(a) {
                let j = choose|j: int| 0 <= j < accs.len() && accs[j] == a;
                assert(init[j] == a);
            }
            if init.contains(a) {
                let j = choose|j: int| 0 <= j < init.len() && init[j] == a;
                assert(accs[j] == a);
            }
        }
    }
}

/// Recording a fresh asset keeps the indices consistent.
pub proof fn lemma_minted_wf(v: RegistryView, to: u64, id: u64, b: Banner)
    requires
        v.indices_wf(),
        !v.owner.contains_key(id),
        v.all.len() < usize::MAX,
        v.owned_of(to).len() < usize::MAX,
    ensures
        v.minted(to, id, b).indices_wf(),
{
    let w = v.minted(to, id, b);
    let s = v.owned_of(to);
    assert(w.banners.dom() =~= w.owner.dom());
    assert(w.all_index.dom() =~= w.owner.dom());
    assert(w.owned_index.dom() =~= w.owner.dom());
    assert forall|i: int| 0 <= i < w.all.len() implies {
        &&& w.owner.contains_key(#[trigger] w.all[i])
        &&& w.all_index[w.all[i]] == i
    } by {
        if i < v.all.len() {
            assert(w.all[i] == v.all[i]);
        }
    }
    assert forall|x: u64| #[trigger] w.owner.contains_key(x) implies {
        &&& w.all_index[x] < w.all.len()
        &&& w.all[w.all_index[x] as int] == x
        &&& w.owned.contains_key(w.owner[x])
        &&& w.owned_index[x] < w.owned[w.owner[x]].len()
        &&& w.owned[w.owner[x]][w.owned_index[x] as int] == x
    } by {
        if x != id {
            let a = v.owner[x];
            if a == to {
                assert(w.owned[a] == s.push(id));
            }
        }
    }
    assert forall|a: u64, i: int| w.owned.contains_key(a) && 0 <= i < w.owned[a].len() implies {
        &&& w.owner.contains_key(#[trigger] w.owned[a][i])
        &&& w.owner[w.owned[a][i]] == a
        &&& w.owned_index[w.owned[a][i]] == i
    } by {
        if a == to {
            if i < s.len() {
                assert(w.owned[a][i] == s[i]);
                assert(v.owned.contains_key(a));
            }
        } else {
            assert(w.owned[a] == v.owned[a]);
            assert(v.owned[a][i] != id);
        }
    }
    lemma_sum_owned_insert(v.accounts, v.owned, to, s.push(id));
    if !v.owned.contains_key(to) {
        assert(w.accounts.drop_last() =~= v.accounts);
        assert forall|a: u64| #[trigger] w.owned.contains_key(a) <==> w.accounts.contains(a) by {
            if a == to {
                assert(w.accounts[v.accounts.len() as int] == to);
            }
            if w.accounts.contains(a) && a != to {
                let j = choose|j: int| 0 <= j < w.accounts.len() && w.accounts[j] == a;
                assert(v.accounts[j] == a);
            }
            if v.accounts.contains(a) {
                let j = choose|j: int| 0 <= j < v.accounts.len() && v.accounts[j] == a;
                assert(w.accounts[j] == a);
            }
        }
    }
}

/// Moving an asset to another account keeps the indices consistent.
pub proof fn lemma_transferred_wf(v: RegistryView, from: u64, to: u64, id: u64)
    requires
        v.indices_wf(),
        v.owner.contains_key(id),
        v.owner[id] == from,
        from != to,
    ensures
        v.transferred(from, to, id).indices_wf(),
{
    let w = v.transferred(from, to, id);
    assert(v.owned.contains_key(from) && v.owned[from].len() > 0);
    lemma_room_to_receive(v, from, to);
    let pos = v.owned_index[id];
    let src = v.owned[from];
    let moved = src.last();
    let src2 = src.update(pos as int, moved).drop_last();
    let dst = v.owned_of(to);
    assert(v.owned.contains_key(from));
    assert(w.owned[from] == src2);
    assert(w.owned[to] == dst.push(id));
    assert(v.owner[moved] == from);
    assert(v.owned_index[moved] == src.len() - 1);
    assert(w.banners.dom() =~= w.owner.dom());
    assert(w.all_index.dom() =~= w.owner.dom());
    assert(w.owned_index.dom() =~= w.owner.dom());
    assert forall|i: int| 0 <= i < w.all.len() implies {
        &&& w.owner.contains_key(#[trigger] w.all[i])
        &&& w.all_index[w.all[i]] == i
    } by {
        assert(v.owner.contains_key(v.all[i]));
    }
    assert forall|x: u64| #[trigger] w.owner.contains_key(x) implies {
        &&& w.all_index[x] < w.all.len()
        &&& w.all[w.all_index[x] as int] == x
        &&& w.owned.contains_key(w.owner[x])
        &&& w.owned_index[x] < w.owned[w.owner[x]].len()
        &&& w.owned[w.owner[x]][w.owned_index[x] as int] == x
    } by {
        if x != id {
            let a = v.owner[x];
            let k = v.owned_index[x];
            if a == from {
                if x == moved {
                    assert(w.owned_index[x] == pos);
                    assert(pos < src.len() - 1) by {
                        if pos == src.len() - 1 {
                            assert(src[pos as int] == id);
                        }
                    }
                    assert(src2[pos as int] == moved);
                } else {
                    assert(k != pos);
                    assert(k != src.len() - 1);
                    assert(src2[k as int] == src[k as int]);
                }
            } else if a == to {
                assert(w.owned[a][k as int] == dst[k as int]);
            } else {
                assert(w.owned[a] == v.owned[a]);
            }
        }
    }
    assert forall|a: u64, i: int| w.owned.contains_key(a) && 0 <= i < w.owned[a].len() implies {
        &&& w.owner.contains_key(#[trigger] w.owned[a][i])
        &&& w.owner[w.owned[a][i]] == a
        &&& w.owned_index[w.owned[a][i]] == i
    } by {
        if a == to {
            if i < dst.len() {
                assert(w.owned[a][i] == dst[i]);
                assert(v.owned.contains_key(a));
                assert(dst[i] != id);
            }
        } else if a == from {
            if i == pos {
                assert(src2[i] == moved);
            } else {
                assert(src2[i] == src[i]);
                assert(src[i] != id);
                assert(src[i] != moved);
            }
        } else {
            assert(w.owned[a] == v.owned[a]);
            assert(v.owned[a][i] != id);
        }
    }
    assert(v.accounts.contains(from));
    let v1 = v.owned.insert(from, src2);
    lemma_sum_owned_insert(v.accounts, v.owned, from, src2);
    lemma_sum_owned_insert(v.accounts, v1, to, dst.push(id));
    if !v.owned.contains_key(to) {
        assert(w.accounts.drop_last() =~= v.accounts);
        assert forall|a: u64| #[trigger] w.owned.contains_key(a) <==> w.accounts.contains(a) by {
            if a == to {
                assert(w.accounts[v.accounts.len() as int] == to);
            }
            if w.accounts.contains(a) && a != to {
                let j = choose|j: int| 0 <= j < w.accounts.len() && w.accounts[j] == a;
                assert(v.accounts[j] == a);
            }
            if v.accounts.contains(a) {
                let j = choose|j: int| 0 <= j < v.accounts.len() && v.accounts[j] == a;
                assert(w.accounts[j] == a);
            }
        }
    }
}

/// In a well-formed registry every asset's reverse entries give its actual
/// positions, in the global index and in its owner's index.
pub proof fn lemma_index_consistency(v: RegistryView)
    requires
        v.wf(),
    ensures
        forall|id: u64| #[trigger]
            v.owner.contains_key(id) ==> {
                &&& v.all_index[id] < v.all.len()
                &&& v.all[v.all_index[id] as int] == id
                &&& v.owned_index[id] < v.owned_of(v.owner[id]).len()
                &&& v.owned_of(v.owner[id])[v.owned_index[id] as int] == id
            },
{
}

/// The per-account counts add up to the global count: summed over the
/// accounts that have an index, every other account holding nothing.
pub proof fn lemma_conservation(v: RegistryView)
    requires
        v.wf(),
    ensures
        v.accounts.no_duplicates(),
        sum_owned(v.accounts, v.owned) == v.all.len(),
        forall|a: u64| !v.accounts.contains(a) ==> #[trigger] v.owned_of(a).len() == 0,
{
}

/// Each asset stands in the index of its owner and of no other account.
pub proof fn lemma_single_owner(v: RegistryView, id: u64)
    requires
        v.wf(),
        v.owner.contains_key(id),
    ensures
        forall|a: u64| #[trigger] v.owned_of(a).contains(id) <==> a == v.owner[id],
{
    assert forall|a: u64| #[trigger] v.owned_of(a).contains(id) <==> a == v.owner[id] by {
        if v.owned_of(a).contains(id) {
            let i = choose|i: int| 0 <= i < v.owned_of(a).len() && v.owned_of(a)[i] == id;
            assert(v.owned.contains_key(a));
        }
        if a == v.owner[id] {
            assert(v.owned_of(a)[v.owned_index[id] as int] == id);
        }
    }
}

/// The registry: every asset record, its owner, and the two enumeration indices.
pub struct Module {
    banners: HashMap<u64, Banner>,
    banner_owner: HashMap<u64, u64>,
    all_banners: Vec<u64>,
    all_banners_index: HashMap<u64, u64>,
    owned_banners: HashMap<u64, Vec<u64>>,
    owned_banners_index: HashMap<u64, u64>,
    nonce: u64,
    accounts: Ghost<Seq<u64>>,
}

impl View for Module {
    type V = RegistryView;

    closed spec fn view(&self) -> RegistryView {
        RegistryView {
            banners: self.banners@,
            owner: self.banner_owner@,
            all: self.all_banners@,
            all_index: self.all_banners_index@,
            owned: self.owned_banners@.map_values(|v: Vec<u64>| v@),
            owned_index: self.owned_banners_index@,
            accounts: self.accounts@,
            nonce: self.nonce,
        }
    }
}

impl Module {
    /// An empty registry.
    pub fn new() -> (r: Module)
        ensures
            r@.wf(),
            r@.banners.is_empty(),
            r@.all.len() == 0,
            r@.owned.is_empty(),
            r@.nonce == 0,
    {
        let r = Module {
            banners: HashMap::new(),
            banner_owner: HashMap::new(),
            all_banners: Vec::new(),
            all_banners_index: HashMap::new(),
            owned_banners: HashMap::new(),
            owned_banners_index: HashMap::new(),
            nonce: 0,
            accounts: Ghost(Seq::empty()),
        };
        assert(r@.owned =~= Map::empty());
        r
    }
}

impl Module {
    /// Number of assets in account `a`'s index.
    pub(crate) fn owned_len(&self, a: u64) -> (r: usize)
        ensures
            r == self@.owned_of(a).len(),
    {
        match self.owned_banners.get(&a) {
            Some(v) => v.len(),
            None => 0,
        }
    }

    /// Takes account `a`'s index out of the map (empty where it had none).
    fn take_owned(&mut self, a: u64) -> (r: Vec<u64>)
        ensures
            r@ == old(self)@.owned_of(a),
            final(self)@ == (RegistryView { owned: old(self)@.owned.remove(a), ..old(self)@ }),
    {
        let r = match self.owned_banners.remove(&a) {
            Some(v) => v,
            None => Vec::new(),
        };
        assert(self@.owned =~= old(self)@.owned.remove(a));
        r
    }

    /// Puts `list` back as account `a`'s index.
    fn put_owned(&mut self, a: u64, list: Vec<u64>)
        ensures
            final(self)@ == (RegistryView { owned: old(self)@.owned.insert(a, list@), ..old(self)@ }),
    {
        self.owned_banners.insert(a, list);
        assert(self@.owned =~= old(self)@.owned.insert(a, list@));
    }

    /// Records `new_banner` as given under the fresh id `banner_id`, owned by
    /// `to`, at the end of the global index and of `to`'s index.
    pub fn mint(&mut self, to: u64, banner_id: u64, new_banner: Banner) -> (r: Result<Event, BannerError>)
        requires
            old(self)@.wf(),
        ensures
            final(self)@.wf(),
            old(self)@.owner.contains_key(banner_id) ==> r == Err::<Event, BannerError>(
                BannerError::DuplicateId,
            ),
            !old(self)@.owner.contains_key(banner_id) && (old(self)@.all.len() >= usize::MAX
                || old(self)@.owned_of(to).len() >= usize::MAX) ==> r == Err::<Event, BannerError>(
                BannerError::CapacityExceeded,
            ),
            r is Err ==> final(self)@ == old(self)@,
            !old(self)@.owner.contains_key(banner_id) && old(self)@.all.len() < usize::MAX
                && old(self)@.owned_of(to).len() < usize::MAX ==> {
                &&& r == Ok::<Event, BannerError>(Event::CreateBanner(to, banner_id))
                &&& final(self)@ == old(self)@.minted(
                    to,
                    banner_id,
                    new_banner,
                )
            },
    {
        if self.banner_owner.contains_key(&banner_id) {
            return Err(BannerError::DuplicateId);
        }
        let owned_count = self.owned_len(to);
        if owned_count == usize::MAX {
            return Err(BannerError::CapacityExceeded);
        }
        let all_count = self.all_banners.len();
        if all_count == usize::MAX {
            return Err(BannerError::CapacityExceeded);
        }
        proof {
            lemma_minted_wf(self@, to, banner_id, new_banner);
        }
        let ghost target = self@.minted(to, banner_id, new_banner);
        let had_index = self.owned_banners.contains_key(&to);
        self.banners.insert(banner_id, new_banner);
        self.banner_owner.insert(banner_id, to);
        self.all_banners.push(banner_id);
        self.all_banners_index.insert(banner_id, all_count as u64);
        let mut list = self.take_owned(to);
        list.push(banner_id);
        self.put_owned(to, list);
        self.owned_banners_index.insert(banner_id, owned_count as u64);
        if !had_index {
            self.accounts = Ghost(self.accounts@.push(to));
        }
        assert(self@.owned =~= target.owned);
        assert(self@.banners =~= target.banners);
        assert(self@.owner =~= target.owner);
        assert(self@.all_index =~= target.all_index);
        assert(self@.owned_index =~= target.owned_index);
        Ok(Event::CreateBanner(to, banner_id))
    }

    /// Moves `banner_id` from `from` to `to`, keeping `from`'s index dense by
    /// moving its last asset into the vacated position.
    pub fn transfer_from(&mut self, from: u64, to: u64, banner_id: u64) -> (r: Result<Event, BannerError>)
        requires
            old(self)@.wf(),
        ensures
            final(self)@.wf(),
            !old(self)@.owner.contains_key(banner_id) ==> r == Err::<Event, BannerError>(
                BannerError::NotOwner,
            ),
            old(self)@.owner.contains_key(banner_id) && old(self)@.owner[banner_id] != from ==> r
                == Err::<Event, BannerError>(BannerError::NotOwner),
            r is Err ==> final(self)@ == old(self)@,
            old(self)@.owner.contains_key(banner_id) && old(self)@.owner[banner_id] == from && from
                == to ==> r == Ok::<Event, BannerError>(Event::Transferred(from, to, banner_id))
                && final(self)@ == old(self)@,
            old(self)@.owner.contains_key(banner_id) && old(self)@.owner[banner_id] == from && from
                != to ==> r == Ok::<
                Event,
                BannerError,
            >(Event::Transferred(from, to, banner_id)) && final(self)@ == old(self)@.transferred(
                from,
                to,
                banner_id,
            ),
    {
        let owner = match self.banner_owner.get(&banner_id) {
            Some(o) => *o,
            None => {
                return Err(BannerError::NotOwner);
            },
        };
        if owner != from {
            return Err(BannerError::NotOwner);
        }
        if from == to {
            return Ok(Event::Transferred(from, to, banner_id));
        }
        let to_count = self.owned_len(to);
        proof {
            lemma_room_to_receive(self@, from, to);
            lemma_transferred_wf(self@, from, to, banner_id);
        }
        let ghost target = self@.transferred(from, to, banner_id);
        let pos = match self.owned_banners_index.get(&banner_id) {
            Some(p) => *p,
            None => 0,
        };
        let had_index = self.owned_banners.contains_key(&to);
        let mut src = self.take_owned(from);
        let last = src.len() - 1;
        let moved = src[last];
        src.swap_remove(pos as usize);
        if pos as usize != last {
            self.owned_banners_index.insert(moved, pos);
        }
        self.put_owned(from, src);
        self.banner_owner.insert(banner_id, to);
        self.owned_banners_index.insert(banner_id, to_count as u64);
        let mut dst = self.take_owned(to);
        dst.push(banner_id);
        self.put_owned(to, dst);
        if !had_index {
            self.accounts = Ghost(self.accounts@.push(to));
        }
        assert(self@.owned =~= target.owned);
        assert(self@.owner =~= target.owner);
        assert(self@.owned_index =~= target.owned_index);
        Ok(Event::Transferred(from, to, banner_id))
    }
}

impl Module {
    /// Creates an asset for `sender` under `banner_id`, the id that the
    /// identifier generator derived from the randomness seed, `sender` and
    /// the current nonce; advances the nonce.
    pub fn create_banner(
        &mut self,
        sender: u64,
        banner_id: u64,
        name: Vec<u8>,
        url: Vec<u8>,
        desc: Vec<u8>,
    ) -> (r: Result<Event, BannerError>)
        requires
            old(self)@.wf(),
        ensures
            final(self)@.wf(),
            old(self)@.owner.contains_key(banner_id) ==> r == Err::<Event, BannerError>(
                BannerError::DuplicateId,
            ),
            !old(self)@.owner.contains_key(banner_id) && (old(self)@.all.len() >= usize::MAX
                || old(self)@.owned_of(sender).len() >= usize::MAX) ==> r == Err::<
                Event,
                BannerError,
            >(BannerError::CapacityExceeded),
            r is Err ==> final(self)@ == old(self)@,
            r is Ok ==> {
                let b = final(self)@.banners[banner_id];
                &&& r == Ok::<Event, BannerError>(Event::CreateBanner(sender, banner_id))
                &&& final(self)@ == (RegistryView {
                    nonce: (old(self)@.nonce + 1) as u64,
                    ..old(self)@.minted(sender, banner_id, b)
                })
                &&& b.id == banner_id && b.name@ == name@ && b.image_url@ == url@ && b.desc@
                    == desc@
                &&& b.current_price == 0 && b.current_bidder == sender && !b.can_bid
                    && b.bid_end_height == 0
            },
            !old(self)@.owner.contains_key(banner_id) && old(self)@.all.len() < usize::MAX
                && old(self)@.owned_of(sender).len() < usize::MAX ==> r is Ok,
    {
        let new_banner = Banner {
            id: banner_id,
            name: name,
            image_url: url,
            desc: desc,
            current_price: 0,
            current_bidder: sender,
            can_bid: false,
            bid_end_height: 0,
        };
        let ghost b = new_banner;
        let r = self.mint(sender, banner_id, new_banner);
        match r {
            Ok(_) => {
                assert(self.nonce <= old(self)@.all.len());
                self.nonce = self.nonce + 1;
                assert(self@.banners[banner_id] == b);
            },
            Err(_) => {},
        }
        r
    }

    /// Replaces the image reference of an asset that `sender` owns.
    pub fn set_image_url(&mut self, sender: u64, banner_id: u64, new_url: Vec<u8>) -> (r: Result<
        (),
        BannerError,
    >)
        requires
            old(self)@.wf(),
        ensures
            final(self)@.wf(),
            !old(self)@.banners.contains_key(banner_id) ==> r == Err::<(), BannerError>(
                BannerError::NotFound,
            ),
            old(self)@.banners.contains_key(banner_id) && old(self)@.owner[banner_id] != sender
                ==> r == Err::<(), BannerError>(BannerError::NotOwner),
            r is Err ==> final(self)@ == old(self)@,
            old(self)@.banners.contains_key(banner_id) && old(self)@.owner[banner_id] == sender
                ==> r is Ok,
            r is Ok ==> {
                let b = final(self)@.banners[banner_id];
                &&& final(self)@ == (RegistryView {
                    banners: old(self)@.banners.insert(banner_id, b),
                    ..old(self)@
                })
                &&& b.image_url@ == new_url@
                &&& b == (Banner { image_url: b.image_url, ..old(self)@.banners[banner_id] })
            },
    {
        if !self.banners.contains_key(&banner_id) {
            return Err(BannerError::NotFound);
        }
        let owner = match self.banner_owner.get(&banner_id) {
            Some(o) => *o,
            None => {
                return Err(BannerError::NotFound);
            },
        };
        if owner != sender {
            return Err(BannerError::NotOwner);
        }
        let mut banner = self.take_banner(banner_id);
        banner.image_url = new_url;
        self.put_banner(banner_id, banner);
        assert(self@.banners =~= old(self)@.banners.insert(banner_id, banner));
        Ok(())
    }

    /// Takes the record of a known asset out of the map.
    pub(crate) fn take_banner(&mut self, banner_id: u64) -> (r: Banner)
        requires
            old(self)@.banners.contains_key(banner_id),
        ensures
            r == old(self)@.banners[banner_id],
            final(self)@ == (RegistryView {
                banners: old(self)@.banners.remove(banner_id),
                ..old(self)@
            }),
    {
        match self.banners.remove(&banner_id) {
            Some(b) => b,
            None => {
                proof {
                    assert(false);
                }
                Banner {
                    id: banner_id,
                    name: Vec::new(),
                    image_url: Vec::new(),
                    desc: Vec::new(),
                    current_price: 0,
                    current_bidder: 0,
                    can_bid: false,
                    bid_end_height: 0,
                }
            },
        }
    }

    /// Puts a record back under `banner_id`.
    pub(crate) fn put_banner(&mut self, banner_id: u64, b: Banner)
        ensures
            final(self)@ == (RegistryView {
                banners: old(self)@.banners.insert(banner_id, b),
                ..old(self)@
            }),
    {
        self.banners.insert(banner_id, b);
    }

    /// The record of an asset.
    pub fn banner(&self, banner_id: u64) -> (r: Option<&Banner>)
        ensures
            match r {
                Some(b) => self@.banners.contains_key(banner_id) && *b == self@.banners[banner_id],
                None => !self@.banners.contains_key(banner_id),
            },
    {
        self.banners.get(&banner_id)
    }

    /// The owner of an asset.
    pub fn owner_of(&self, banner_id: u64) -> (r: Option<u64>)
        ensures
            r == (if self@.owner.contains_key(banner_id) {
                Some(self@.owner[banner_id])
            } else {
                None
            }),
    {
        match self.banner_owner.get(&banner_id) {
            Some(o) => Some(*o),
            None => None,
        }
    }

    /// The asset at position `index` of the global index.
    pub fn banner_by_index(&self, index: u64) -> (r: Option<u64>)
        ensures
            r == (if index < self@.all.len() {
                Some(self@.all[index as int])
            } else {
                None
            }),
    {
        if (index as u128) < (self.all_banners.len() as u128) {
            Some(self.all_banners[index as usize])
        } else {
            None
        }
    }

    /// Number of assets in the registry.
    pub fn all_banners_count(&self) -> (r: u64)
        ensures
            r == self@.all.len(),
    {
        self.all_banners.len() as u64
    }

    /// The asset at position `index` of `owner`'s index.
    pub fn banner_of_owner_by_index(&self, owner: u64, index: u64) -> (r: Option<u64>)
        ensures
            r == (if index < self@.owned_of(owner).len() {
                Some(self@.owned_of(owner)[index as int])
            } else {
                None
            }),
    {
        match self.owned_banners.get(&owner) {
            Some(v) => {
                if (index as u128) < (v.len() as u128) {
                    Some(v[index as usize])
                } else {
                    None
                }
            },
            None => None,
        }
    }

    /// Number of assets that `owner` holds.
    pub fn owned_banner_count(&self, owner: u64) -> (r: u64)
        ensures
            r == self@.owned_of(owner).len(),
    {
        self.owned_len(owner) as u64
    }

    /// The nonce that the next id derivation takes.
    pub fn nonce(&self) -> (r: u64)
        ensures
            r == self@.nonce,
    {
        self.nonce
    }
}

} // verus!
