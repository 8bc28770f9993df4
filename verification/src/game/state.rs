use vstd::prelude::*;

verus! {

/// How many units of one building kind are owned.
pub struct BuildingState {
    pub id: String,
    pub count: u32,
}

/// A set of ids: each id is held once.
pub struct IdSet {
    items: Vec<String>,
}

impl View for IdSet {
    type V = Set<Seq<char>>;

    closed spec fn view(&self) -> Set<Seq<char>> {
        self.items@.map_values(|s: String| s@).to_set()
    }
}

impl IdSet {
    /// No id occurs twice.
    #[verifier::type_invariant]
    closed spec fn distinct(self) -> bool {
        forall|i: int, j: int|
            0 <= i < j < self.items@.len() ==> self.items@[i]@ != self.items@[j]@
    }

    /// The ids, in the order in which they were inserted.
    pub closed spec fn ids(&self) -> Seq<Seq<char>> {
        self.items@.map_values(|s: String| s@)
    }

    /// The empty set.
    pub fn new() -> (r: IdSet)
        ensures
            r@ == Set::<Seq<char>>::empty(),
            r.ids() == Seq::<Seq<char>>::empty(),
    {
        let r = IdSet { items: Vec::new() };
        assert(r.ids() =~= Seq::<Seq<char>>::empty());
        assert(r.items@.map_values(|s: String| s@).to_set() =~= Set::<Seq<char>>::empty());
        r
    }

    /// Whether `id` is in the set.
    pub fn contains(&self, id: &str) -> (r: bool)
        ensures
            r == self@.contains(id@),
    {
        let key = String::from_str(id);
        let n = self.items.len();
        let mut i: usize = 0;
        while i < n
            invariant
                n == self.items@.len(),
                i <= n,
                key@ == id@,
                forall|j: int| 0 <= j < i ==> self.items@[j]@ != id@,
            decreases n - i,
        {
            if self.items[i] == key {
                proof {
                    assert(self.ids()[i as int] == id@);
                }
                return true;
            }
            i = i + 1;
        }
        proof {
            if self.ids().contains(id@) {
                let k = choose|k: int| 0 <= k < self.ids().len() && self.ids()[k] == id@;
                assert(self.items@[k]@ == id@);
            }
        }
        false
    }

    /// Adds `id`; returns whether it was absent.
    pub fn insert(&mut self, id: String) -> (r: bool)
        ensures
            final(self)@ == old(self)@.insert(id@),
            r == !old(self)@.contains(id@),
            r ==> final(self).ids() == old(self).ids().push(id@),
            !r ==> final(self).ids() == old(self).ids(),
    {
        proof {
            use_type_invariant(&*self);
        }
        if self.contains(id.as_str()) {
            return false;
        }
        let ghost before = self.items@;
        let ghost idv = id@;
        let mut items: Vec<String> = Vec::new();
        std::mem::swap(&mut items, &mut self.items);
        items.push(id);
        proof {
            assert forall|i: int, j: int| 0 <= i < j < items@.len() implies items@[i]@ != items@[j]@ by {
                if j == items@.len() - 1 {
                    assert(before.map_values(|s: String| s@)[i] == before[i]@);
                }
            }
        }
        self.items = items;
        proof {
            assert(self.items@.map_values(|s: String| s@) =~= before.map_values(|s: String| s@).push(idv));
            let m = before.map_values(|s: String| s@);
            assert(m.push(idv) == m + seq![idv]);
            Seq::lemma_to_set_insert_commutes(m, idv);
        }
        true
    }

    /// Number of ids in the set.
    pub fn len(&self) -> (r: usize)
        ensures
            r == self@.len(),
    {
        proof {
            use_type_invariant(self);
            self.items@.map_values(|s: String| s@).unique_seq_to_set();
        }
        self.items.len()
    }

    /// The ids, in the order in which they were inserted.
    pub fn as_vec(&self) -> (r: &Vec<String>)
        ensures
            r@.map_values(|s: String| s@) == self.ids(),
            self.ids().to_set() == self@,
            self.ids().no_duplicates(),
    {
        proof {
            use_type_invariant(self);
        }
        &self.items
    }
}

impl View for BuildingState {
    type V = (Seq<char>, u32);

    open spec fn view(&self) -> (Seq<char>, u32) {
        (self.id@, self.count)
    }
}

/// The entries of owned buildings as (id, count) pairs.
pub open spec fn owned_view(bs: Seq<BuildingState>) -> Seq<(Seq<char>, u32)> {
    bs.map_values(|b: BuildingState| b@)
}

/// Where the first entry for building `id` stands in `bs` from position
/// `from` on, or -1 where there is none.
pub open spec fn first_entry_from(bs: Seq<(Seq<char>, u32)>, id: Seq<char>, from: int) -> int
    decreases bs.len() - from,
{
    if from < 0 || from >= bs.len() {
        -1
    } else if bs[from].0 == id {
        from
    } else {
        first_entry_from(bs, id, from + 1)
    }
}

/// Where the first entry for building `id` stands in `bs`, or -1.
pub open spec fn first_entry(bs: Seq<(Seq<char>, u32)>, id: Seq<char>) -> int {
    first_entry_from(bs, id, 0)
}

/// Units owned of building `id`: the count of its first entry, or 0.
pub open spec fn count_of(bs: Seq<(Seq<char>, u32)>, id: Seq<char>) -> u32 {
    let k = first_entry(bs, id);
    if k >= 0 {
        bs[k].1
    } else {
        0
    }
}

/// The position found by `first_entry_from` holds `id`, and no entry
/// between `from` and it does.
pub proof fn lemma_first_entry_from(bs: Seq<(Seq<char>, u32)>, id: Seq<char>, from: int)
    requires
        0 <= from,
    ensures
        -1 <= first_entry_from(bs, id, from) < bs.len(),
        first_entry_from(bs, id, from) >= 0 ==> from <= first_entry_from(bs, id, from)
            && bs[first_entry_from(bs, id, from)].0 == id,
        forall|j: int|
            from <= j < bs.len() && (first_entry_from(bs, id, from) < 0 || j < first_entry_from(
                bs,
                id,
                from,
            )) ==> bs[j].0 != id,
    decreases bs.len() - from,
{
    if from < bs.len() && bs[from].0 != id {
        lemma_first_entry_from(bs, id, from + 1);
    }
}

/// The whole state of a game.
pub struct GameState {
    /// Cookies in hand, in micro-cookies.
    pub cookies: u128,
    /// All-time cookies ever produced, in micro-cookies — never decreases,
    /// used for unlock conditions
    pub total_cookies: u128,
    pub last_tick_ms: u64,
    pub buildings: Vec<BuildingState>,
    pub upgrades_purchased: IdSet,
}

impl GameState {
    /// Units owned of building `id`.
    pub fn building_count(&self, id: &str) -> (r: u32)
        ensures
            r == count_of(owned_view(self.buildings@), id@),
    {
        let key = String::from_str(id);
        let n = self.buildings.len();
        let mut i: usize = 0;
        while i < n
            invariant
                n == self.buildings@.len(),
                i <= n,
                key@ == id@,
                first_entry(owned_view(self.buildings@), id@) == first_entry_from(
                    owned_view(self.buildings@),
                    id@,
                    i as int,
                ),
            decreases n - i,
        {
            if self.buildings[i].id == key {
                return self.buildings[i].count;
            }
            i = i + 1;
        }
        0
    }
}

impl Default for GameState {
    /// A new game: nothing owned, nothing bought, no cookies.
    fn default() -> (r: GameState)
        ensures
            r.cookies == 0,
            r.total_cookies == 0,
            r.last_tick_ms == 0,
            r.buildings@ == Seq::<BuildingState>::empty(),
            r.upgrades_purchased@ == Set::<Seq<char>>::empty(),
    {
        GameState {
            cookies: 0,
            total_cookies: 0,
            last_tick_ms: 0,
            buildings: Vec::new(),
            upgrades_purchased: IdSet::new(),
        }
    }
}

} // verus!
