//! Which trapdoor belongs to whom.

use vstd::prelude::*;
use crate::action::BlockPos;
use crate::text::same_text;

verus! {

/// A player and the trapdoor that holds their pearl.
#[derive(Debug)]
pub struct Remembered {
    pub player: String,
    pub position: BlockPos,
}

impl Clone for Remembered {
    fn clone(&self) -> (r: Self)
        ensures
            r.player@ == self.player@,
            r.position == self.position,
    {
        Remembered { player: self.player.clone(), position: self.position }
    }
}

/// What a list of players and positions says, where a later entry for a player
/// replaces an earlier one.
pub open spec fn as_map(entries: Seq<Remembered>) -> Map<Seq<char>, BlockPos>
    decreases entries.len(),
{
    if entries.len() == 0 {
        Map::empty()
    } else {
        as_map(entries.drop_last()).insert(entries.last().player@, entries.last().position)
    }
}

/// No player occurs twice.
pub open spec fn players_distinct(entries: Seq<Remembered>) -> bool {
    forall|i: int, j: int|
        0 <= i < j < entries.len() ==> #[trigger] entries[i].player@
            != #[trigger] entries[j].player@
}

/// The players whose trapdoor is another one than `pos`.
pub open spec fn elsewhere(m: Map<Seq<char>, BlockPos>, pos: BlockPos) -> Map<
    Seq<char>,
    BlockPos,
> {
    Map::new(|p: Seq<char>| m.contains_key(p) && m[p] != pos, |p: Seq<char>| m[p])
}

/// No trapdoor belongs to two players.
pub open spec fn one_owner_each(m: Map<Seq<char>, BlockPos>) -> bool {
    forall|p: Seq<char>, q: Seq<char>|
        m.contains_key(p) && m.contains_key(q) && #[trigger] m[p] == #[trigger] m[q] ==> p == q
}

/// A map names exactly the players of its list.
proof fn lemma_keys(entries: Seq<Remembered>, p: Seq<char>)
    ensures
        as_map(entries).contains_key(p) <==> exists|i: int|
            0 <= i < entries.len() && #[trigger] entries[i].player@ == p,
    decreases entries.len(),
{
    if entries.len() > 0 {
        let init = entries.drop_last();
        lemma_keys(init, p);
        assert forall|i: int| 0 <= i < init.len() implies #[trigger] init[i].player@
            == entries[i].player@ by {}
        if as_map(init).contains_key(p) {
            let i = choose|i: int| 0 <= i < init.len() && #[trigger] init[i].player@ == p;
            assert(entries[i].player@ == p);
        }
        if exists|i: int| 0 <= i < entries.len() && #[trigger] entries[i].player@ == p {
            let i = choose|i: int| 0 <= i < entries.len() && #[trigger] entries[i].player@ == p;
            if i < init.len() {
                assert(init[i].player@ == p);
            }
        }
    }
}

/// Where no player occurs twice, each entry is in the map.
proof fn lemma_value(entries: Seq<Remembered>, i: int)
    requires
        players_distinct(entries),
        0 <= i < entries.len(),
    ensures
        as_map(entries).contains_key(entries[i].player@),
        as_map(entries)[entries[i].player@] == entries[i].position,
    decreases entries.len(),
{
    let init = entries.drop_last();
    if i < init.len() {
        lemma_value(init, i);
        assert(entries[i].player@ != entries.last().player@);
        assert(init[i] == entries[i]);
    }
}

/// One more entry for a player who is not in the list yet.
proof fn lemma_push(entries: Seq<Remembered>, e: Remembered)
    requires
        players_distinct(entries),
        !as_map(entries).contains_key(e.player@),
    ensures
        players_distinct(entries.push(e)),
        as_map(entries.push(e)) == as_map(entries).insert(e.player@, e.position),
{
    lemma_keys(entries, e.player@);
    assert(entries.push(e).drop_last() =~= entries);
}

/// A longer part of the list.
proof fn lemma_take(entries: Seq<Remembered>, i: int)
    requires
        players_distinct(entries),
        0 <= i < entries.len(),
    ensures
        as_map(entries.take(i + 1)) == as_map(entries.take(i)).insert(
            entries[i].player@,
            entries[i].position,
        ),
        !as_map(entries.take(i)).contains_key(entries[i].player@),
{
    assert(entries.take(i + 1).drop_last() =~= entries.take(i));
    lemma_keys(entries.take(i), entries[i].player@);
}

/// The trapdoor that belongs to each player.
#[derive(Debug)]
pub struct Trapdoors {
    entries: Vec<Remembered>,
}

impl View for Trapdoors {
    type V = Map<Seq<char>, BlockPos>;

    closed spec fn view(&self) -> Map<Seq<char>, BlockPos> {
        as_map(self.entries@)
    }
}

impl Clone for Trapdoors {
    fn clone(&self) -> (t: Self)
        ensures
            t@ == self@,
    {
        Trapdoors { entries: self.entries() }
    }
}

/// The entries of other players than `player`.
fn without_player(entries: &Vec<Remembered>, player: &str) -> (kept: Vec<Remembered>)
    requires
        players_distinct(entries@),
    ensures
        players_distinct(kept@),
        as_map(kept@) == as_map(entries@).remove(player@),
{
    let mut kept: Vec<Remembered> = Vec::new();
    let n: usize = entries.len();
    let mut i: usize = 0;
    assert(as_map(kept@) =~= as_map(entries@.take(0)).remove(player@));
    while i < n
        invariant
            n == entries@.len(),
            i <= n,
            players_distinct(entries@),
            players_distinct(kept@),
            as_map(kept@) == as_map(entries@.take(i as int)).remove(player@),
        decreases n - i,
    {
        let ghost before = kept@;
        proof {
            lemma_take(entries@, i as int);
        }
        if !same_text(entries[i].player.as_str(), player) {
            let e = entries[i].clone();
            proof {
                lemma_push(before, e);
            }
            kept.push(e);
        }
        assert(as_map(kept@) =~= as_map(entries@.take(i + 1)).remove(player@));
        i = i + 1;
    }
    assert(entries@.take(n as int) =~= entries@);
    kept
}

/// The entries with another position than `pos`.
fn without_position(entries: &Vec<Remembered>, pos: BlockPos) -> (kept: Vec<Remembered>)
    requires
        players_distinct(entries@),
    ensures
        players_distinct(kept@),
        as_map(kept@) == elsewhere(as_map(entries@), pos),
{
    let mut kept: Vec<Remembered> = Vec::new();
    let n: usize = entries.len();
    let mut i: usize = 0;
    assert(as_map(kept@) =~= elsewhere(as_map(entries@.take(0)), pos));
    while i < n
        invariant
            n == entries@.len(),
            i <= n,
            players_distinct(entries@),
            players_distinct(kept@),
            as_map(kept@) == elsewhere(as_map(entries@.take(i as int)), pos),
        decreases n - i,
    {
        let ghost before = kept@;
        proof {
            lemma_take(entries@, i as int);
        }
        if entries[i].position != pos {
            let e = entries[i].clone();
            proof {
                lemma_push(before, e);
            }
            kept.push(e);
        }
        assert(as_map(kept@) =~= elsewhere(as_map(entries@.take(i + 1)), pos));
        i = i + 1;
    }
    assert(entries@.take(n as int) =~= entries@);
    kept
}

impl Trapdoors {
    #[verifier::type_invariant]
    spec fn inv(self) -> bool {
        players_distinct(self.entries@)
    }

    /// Nobody has a trapdoor.
    pub fn new() -> (t: Self)
        ensures
            t@ == Map::<Seq<char>, BlockPos>::empty(),
    {
        Trapdoors { entries: Vec::new() }
    }

    /// What a list of players and positions says; of several entries for a
    /// player the last one counts.
    pub fn from_entries(list: &Vec<Remembered>) -> (t: Self)
        ensures
            t@ == as_map(list@),
    {
        let mut t = Trapdoors::new();
        let n: usize = list.len();
        let mut i: usize = 0;
        while i < n
            invariant
                n == list@.len(),
                i <= n,
                t@ == as_map(list@.take(i as int)),
            decreases n - i,
        {
            t.insert(list[i].player.clone(), list[i].position);
            assert(list@.take(i + 1).drop_last() =~= list@.take(i as int));
            i = i + 1;
        }
        assert(list@.take(n as int) =~= list@);
        t
    }

    /// The players and their positions, each player once.
    pub fn entries(&self) -> (list: Vec<Remembered>)
        ensures
            players_distinct(list@),
            as_map(list@) == self@,
    {
        proof {
            use_type_invariant(self);
        }
        let mut list: Vec<Remembered> = Vec::new();
        let n: usize = self.entries.len();
        let mut i: usize = 0;
        while i < n
            invariant
                n == self.entries@.len(),
                i <= n,
                players_distinct(self.entries@),
                players_distinct(list@),
                as_map(list@) == as_map(self.entries@.take(i as int)),
            decreases n - i,
        {
            let e = self.entries[i].clone();
            proof {
                lemma_take(self.entries@, i as int);
                lemma_push(list@, e);
            }
            list.push(e);
            i = i + 1;
        }
        assert(self.entries@.take(n as int) =~= self.entries@);
        list
    }

    /// The position of a player's trapdoor.
    pub fn get(&self, player: &str) -> (r: Option<BlockPos>)
        ensures
            r == if self@.contains_key(player@) {
                Some(self@[player@])
            } else {
                None
            },
    {
        proof {
            use_type_invariant(self);
        }
        let n: usize = self.entries.len();
        let mut i: usize = 0;
        while i < n
            invariant
                n == self.entries@.len(),
                i <= n,
                players_distinct(self.entries@),
                forall|j: int| 0 <= j < i ==> #[trigger] self.entries@[j].player@ != player@,
            decreases n - i,
        {
            if same_text(self.entries[i].player.as_str(), player) {
                proof {
                    lemma_value(self.entries@, i as int);
                }
                return Some(self.entries[i].position);
            }
            i = i + 1;
        }
        proof {
            lemma_keys(self.entries@, player@);
        }
        None
    }

    /// Gives a player a trapdoor.
    pub fn insert(&mut self, player: String, position: BlockPos)
        ensures
            final(self)@ == old(self)@.insert(player@, position),
    {
        proof {
            use_type_invariant(&*self);
        }
        let mut entries = without_player(&self.entries, player.as_str());
        let e = Remembered { player, position };
        proof {
            lemma_push(entries@, e);
        }
        entries.push(e);
        self.entries = entries;
        assert(self@ =~= old(self)@.insert(player@, position));
    }

    /// Takes a player's trapdoor away and returns its position.
    pub fn remove(&mut self, player: &str) -> (r: Option<BlockPos>)
        ensures
            final(self)@ == old(self)@.remove(player@),
            r == if old(self)@.contains_key(player@) {
                Some(old(self)@[player@])
            } else {
                None
            },
    {
        proof {
            use_type_invariant(&*self);
        }
        let r = self.get(player);
        let entries = without_player(&self.entries, player);
        self.entries = entries;
        r
    }

    /// Gives a player a trapdoor and takes it away from everybody else.
    pub fn claim(&mut self, player: String, position: BlockPos)
        ensures
            final(self)@ == elsewhere(old(self)@, position).insert(player@, position),
    {
        proof {
            use_type_invariant(&*self);
        }
        let entries = without_position(&self.entries, position);
        self.entries = entries;
        self.insert(player, position);
    }
}

/// An entry for the same player and position stands in the list.
pub open spec fn lists(entries: Seq<Remembered>, player: Seq<char>, position: BlockPos) -> bool {
    exists|i: int|
        0 <= i < entries.len() && #[trigger] entries[i].player@ == player && entries[i].position
            == position
}

/// Where each player occurs once, the order of the entries makes no difference.
pub proof fn law_order_of_entries_is_irrelevant(a: Seq<Remembered>, b: Seq<Remembered>)
    requires
        players_distinct(a),
        players_distinct(b),
        forall|p: Seq<char>, pos: BlockPos| #[trigger] lists(a, p, pos) == lists(b, p, pos),
    ensures
        as_map(a) == as_map(b),
{
    assert forall|p: Seq<char>| #[trigger] as_map(a).contains_key(p) implies as_map(
        b,
    ).contains_key(p) && as_map(b)[p] == as_map(a)[p] by {
        lemma_same_entry(a, b, p);
    }
    assert forall|p: Seq<char>| #[trigger] as_map(b).contains_key(p) implies as_map(
        a,
    ).contains_key(p) by {
        assert forall|q: Seq<char>, pos: BlockPos| #[trigger] lists(b, q, pos) implies lists(
            a,
            q,
            pos,
        ) by {
            assert(lists(a, q, pos) == lists(b, q, pos));
        }
        lemma_same_entry(b, a, p);
    }
    assert(as_map(a) =~= as_map(b));
}

/// What one list says of a player, the other says too.
proof fn lemma_same_entry(a: Seq<Remembered>, b: Seq<Remembered>, p: Seq<char>)
    requires
        players_distinct(a),
        players_distinct(b),
        forall|q: Seq<char>, pos: BlockPos| #[trigger] lists(a, q, pos) ==> lists(b, q, pos),
        as_map(a).contains_key(p),
    ensures
        as_map(b).contains_key(p),
        as_map(b)[p] == as_map(a)[p],
{
    lemma_keys(a, p);
    let i = choose|i: int| 0 <= i < a.len() && #[trigger] a[i].player@ == p;
    lemma_value(a, i);
    assert(lists(a, p, a[i].position));
    assert(lists(b, p, a[i].position));
    let j = choose|j: int|
        0 <= j < b.len() && #[trigger] b[j].player@ == p && b[j].position == a[i].position;
    lemma_value(b, j);
}

} // verus!
