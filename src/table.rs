use vstd::prelude::*;
use vstd::hash_map::StringHashMap;
use crate::model::{MsgView, MultiMsgItem};

verus! {

/// The table that `items` build when each is keyed on its name, a later item
/// replacing an earlier one of the same name.
pub open spec fn table_of(items: Seq<MultiMsgItem>) -> Map<Seq<char>, Seq<MsgView>>
    decreases items.len(),
{
    if items.len() == 0 {
        Map::empty()
    } else {
        table_of(items.drop_last()).insert(items.last().file_name@, items.last()@)
    }
}

/// Item groups by name, as decoded from one transport envelope.
pub struct ItemTable {
    map: StringHashMap<MultiMsgItem>,
}

impl View for ItemTable {
    type V = Map<Seq<char>, Seq<MsgView>>;

    closed spec fn view(&self) -> Map<Seq<char>, Seq<MsgView>> {
        self.map@.map_values(|it: MultiMsgItem| it@)
    }
}

impl ItemTable {
    /// An empty table.
    pub fn new() -> (r: ItemTable)
        ensures
            r@ == Map::<Seq<char>, Seq<MsgView>>::empty(),
    {
        let r = ItemTable { map: StringHashMap::new() };
        assert(r@ =~= Map::<Seq<char>, Seq<MsgView>>::empty());
        r
    }

    /// Adds `item` under its own name, replacing any item of that name.
    pub fn insert(&mut self, item: MultiMsgItem)
        ensures
            final(self)@ == old(self)@.insert(item.file_name@, item@),
    {
        let key = item.file_name.clone();
        self.map.insert(key, item);
        assert(final(self)@ =~= old(self)@.insert(item.file_name@, item@));
    }

    /// The item group stored under `name`.
    pub fn get(&self, name: &str) -> (r: Option<&MultiMsgItem>)
        ensures
            match r {
                Some(it) => self@.contains_key(name@) && self@[name@] == it@,
                None => !self@.contains_key(name@),
            },
    {
        self.map.get(name)
    }

    /// The table of `items`, keyed on their names; of two items with one
    /// name the later is kept.
    pub fn from_items(items: Vec<MultiMsgItem>) -> (r: ItemTable)
        ensures
            r@ == table_of(items@),
    {
        let ghost all = items@;
        let ghost mut taken: Seq<MultiMsgItem> = Seq::empty();
        let mut t = ItemTable::new();
        let mut rest = items;
        assert(table_of(taken) == Map::<Seq<char>, Seq<MsgView>>::empty());
        while rest.len() > 0
            invariant
                all == taken + rest@,
                t@ == table_of(taken),
            decreases rest.len(),
        {
            let it = rest.remove(0);
            let ghost g = it;
            t.insert(it);
            proof {
                assert(taken.push(g).drop_last() =~= taken);
                taken = taken.push(g);
                assert(all =~= taken + rest@);
            }
        }
        assert(taken =~= all);
        t
    }
}

} // verus!
