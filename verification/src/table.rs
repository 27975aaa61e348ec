//! The two lookup tables that are built once from a configuration: from
//! logical keys to scancodes and back, and from scancodes to bindings.

use std::collections::BTreeMap;
use vstd::prelude::*;
use crate::config::{bindings_model, BindingModel, BindingType};
use crate::ordmap;

verus! {

/// The scancode of each logical key, as the entries give it.  Where a
/// logical key occurs more than once, its last entry counts.
pub open spec fn scancodes_by_gkey(entries: Seq<(u32, u32)>) -> Map<u32, u32>
    decreases entries.len(),
{
    if entries.len() == 0 {
        Map::empty()
    } else {
        scancodes_by_gkey(entries.drop_last()).insert(entries.last().0, entries.last().1)
    }
}

/// Whether the logical key `gkey` has the scancode `scancode`.
pub open spec fn maps_to(by_gkey: Map<u32, u32>, gkey: u32, scancode: u32) -> bool {
    by_gkey.contains_key(gkey) && by_gkey[gkey] == scancode
}

/// Whether `gkey` is the greatest logical key that has the scancode
/// `scancode`.
pub open spec fn is_best_known_gkey(by_gkey: Map<u32, u32>, scancode: u32, gkey: u32) -> bool {
    &&& maps_to(by_gkey, gkey, scancode)
    &&& forall|other: u32| #[trigger] maps_to(by_gkey, other, scancode) ==> other <= gkey
}

/// The logical key by which a scancode is best known: the greatest of those
/// that have it, if any has.
pub open spec fn best_known_gkey(by_gkey: Map<u32, u32>, scancode: u32) -> Option<u32> {
    if exists|gkey: u32| maps_to(by_gkey, gkey, scancode) {
        Some(choose|gkey: u32| is_best_known_gkey(by_gkey, scancode, gkey))
    } else {
        None
    }
}

/// The scancode under which a binding of `gkey` is filed: the scancode of
/// `gkey` if it has one, else the number of `gkey` itself.
pub open spec fn resolved_scancode(by_gkey: Map<u32, u32>, gkey: u32) -> u32 {
    if by_gkey.contains_key(gkey) {
        by_gkey[gkey]
    } else {
        gkey
    }
}

/// The table from scancodes to bindings.  Each binding is filed, in order,
/// under its resolved scancode, together with its logical key; a later
/// binding replaces an earlier one that is filed under the same scancode.
pub open spec fn binding_table(bindings: Seq<(u32, BindingModel)>, by_gkey: Map<u32, u32>) -> Map<
    u32,
    (u32, BindingModel),
>
    decreases bindings.len(),
{
    if bindings.len() == 0 {
        Map::empty()
    } else {
        binding_table(bindings.drop_last(), by_gkey).insert(
            resolved_scancode(by_gkey, bindings.last().0),
            bindings.last(),
        )
    }
}

/// The logical keys of the bindings that are filed under their own number
/// for want of a scancode, in the order of the bindings.
pub open spec fn unmapped_gkeys(bindings: Seq<(u32, BindingModel)>, by_gkey: Map<u32, u32>) -> Seq<
    u32,
>
    decreases bindings.len(),
{
    if bindings.len() == 0 {
        Seq::empty()
    } else if by_gkey.contains_key(bindings.last().0) {
        unmapped_gkeys(bindings.drop_last(), by_gkey)
    } else {
        unmapped_gkeys(bindings.drop_last(), by_gkey).push(bindings.last().0)
    }
}

/// A logical key has a scancode exactly if some entry names it.
pub proof fn lemma_scancodes_by_gkey_domain(entries: Seq<(u32, u32)>, gkey: u32)
    ensures
        scancodes_by_gkey(entries).contains_key(gkey) <==> exists|i: int|
            0 <= i < entries.len() && (#[trigger] entries[i]).0 == gkey,
    decreases entries.len(),
{
    if entries.len() > 0 {
        let front = entries.drop_last();
        lemma_scancodes_by_gkey_domain(front, gkey);
        if scancodes_by_gkey(entries).contains_key(gkey) {
            if entries.last().0 == gkey {
                assert(entries[entries.len() - 1].0 == gkey);
            } else {
                let i = choose|i: int| 0 <= i < front.len() && (#[trigger] front[i]).0 == gkey;
                assert(entries[i].0 == gkey);
            }
        }
        if exists|i: int| 0 <= i < entries.len() && (#[trigger] entries[i]).0 == gkey {
            let i = choose|i: int| 0 <= i < entries.len() && (#[trigger] entries[i]).0 == gkey;
            if i < front.len() {
                assert(front[i].0 == gkey);
            }
        }
    }
}

/// The scancodes of the logical keys, with the way back from a scancode to
/// the logical key by which it is best known.
pub struct ScancodeMap {
    by_gkey: BTreeMap<u32, u32>,
    by_scancode: BTreeMap<u32, u32>,
}

impl View for ScancodeMap {
    type V = Map<u32, u32>;

    closed spec fn view(&self) -> Map<u32, u32> {
        self.by_gkey@
    }
}

/// Whether `by_scancode` is the way back as far as the first `count`
/// entries go: what it holds under a scancode is a logical key of one of
/// those entries that has the scancode, and it holds under the scancode of
/// each of those logical keys one that is no smaller.
spec fn reverse_of_first(
    by_scancode: Map<u32, u32>,
    by_gkey: Map<u32, u32>,
    entries: Seq<(u32, u32)>,
    count: int,
) -> bool {
    &&& forall|scancode: u32| #[trigger]
        by_scancode.contains_key(scancode) ==> {
            &&& maps_to(by_gkey, by_scancode[scancode], scancode)
            &&& exists|j: int| 0 <= j < count && (#[trigger] entries[j]).0 == by_scancode[scancode]
        }
    &&& forall|j: int|
        0 <= j < count ==> {
            let gkey = (#[trigger] entries[j]).0;
            &&& by_scancode.contains_key(by_gkey[gkey])
            &&& gkey <= by_scancode[by_gkey[gkey]]
        }
}

/// Whether `by_scancode` says of `scancode` by which logical key it is best
/// known.
spec fn reverse_at(by_scancode: Map<u32, u32>, by_gkey: Map<u32, u32>, scancode: u32) -> bool {
    best_known_gkey(by_gkey, scancode) == if by_scancode.contains_key(scancode) {
        Some(by_scancode[scancode])
    } else {
        None
    }
}

impl ScancodeMap {
    #[verifier::type_invariant]
    spec fn reverse_is_exact(self) -> bool {
        forall|scancode: u32| #[trigger] reverse_at(self.by_scancode@, self.by_gkey@, scancode)
    }

    /// Builds the map from the scancode entries of a configuration.
    pub fn new(entries: &Vec<(u32, u32)>) -> (map: ScancodeMap)
        ensures
            map@ == scancodes_by_gkey(entries@),
    {
        let mut by_gkey: BTreeMap<u32, u32> = BTreeMap::new();
        let mut i: usize = 0;
        while i < entries.len()
            invariant
                i <= entries.len(),
                by_gkey@ == scancodes_by_gkey(entries@.take(i as int)),
            decreases entries.len() - i,
        {
            let (gkey, scancode) = entries[i];
            proof {
                assert(entries@.take(i + 1).drop_last() =~= entries@.take(i as int));
            }
            ordmap::put(&mut by_gkey, gkey, scancode);
            i += 1;
        }
        proof {
            assert(entries@.take(i as int) =~= entries@);
        }
        let mut by_scancode: BTreeMap<u32, u32> = BTreeMap::new();
        let mut i: usize = 0;
        while i < entries.len()
            invariant
                i <= entries.len(),
                by_gkey@ == scancodes_by_gkey(entries@),
                reverse_of_first(by_scancode@, by_gkey@, entries@, i as int),
            decreases entries.len() - i,
        {
            let gkey: u32 = entries[i].0;
            proof {
                lemma_scancodes_by_gkey_domain(entries@, gkey);
            }
            let scancode: u32 = match ordmap::get(&by_gkey, gkey) {
                Some(scancode) => *scancode,
                None => gkey,
            };
            let replace = match ordmap::get(&by_scancode, scancode) {
                Some(known) => *known < gkey,
                None => true,
            };
            let ghost before = by_scancode@;
            if replace {
                ordmap::put(&mut by_scancode, scancode, gkey);
            }
            proof {
                let after = by_scancode@;
                assert forall|other: u32| #[trigger] after.contains_key(other) implies {
                    &&& maps_to(by_gkey@, after[other], other)
                    &&& exists|j: int|
                        0 <= j < i + 1 && (#[trigger] entries@[j]).0 == after[other]
                } by {
                    if replace && other == scancode {
                        assert(entries@[i as int].0 == after[other]);
                    } else {
                        assert(before.contains_key(other));
                        let j = choose|j: int|
                            0 <= j < i && (#[trigger] entries@[j]).0 == before[other];
                        assert(entries@[j].0 == after[other]);
                    }
                }
            }
            i += 1;
        }
        proof {
            assert forall|scancode: u32| #[trigger]
                reverse_at(by_scancode@, by_gkey@, scancode) by {
                if by_scancode@.contains_key(scancode) {
                    let best = by_scancode@[scancode];
                    assert(maps_to(by_gkey@, best, scancode));
                    assert forall|other: u32| #[trigger]
                        maps_to(by_gkey@, other, scancode) implies other <= best by {
                        lemma_scancodes_by_gkey_domain(entries@, other);
                        let j = choose|j: int|
                            0 <= j < entries@.len() && (#[trigger] entries@[j]).0 == other;
                        assert(entries@[j].0 <= by_scancode@[by_gkey@[entries@[j].0]]);
                    }
                    assert(is_best_known_gkey(by_gkey@, scancode, best));
                } else {
                    if exists|gkey: u32| maps_to(by_gkey@, gkey, scancode) {
                        let gkey = choose|gkey: u32| maps_to(by_gkey@, gkey, scancode);
                        lemma_scancodes_by_gkey_domain(entries@, gkey);
                        let j = choose|j: int|
                            0 <= j < entries@.len() && (#[trigger] entries@[j]).0 == gkey;
                        assert(by_scancode@.contains_key(by_gkey@[entries@[j].0]));
                    }
                }
            }
        }
        ScancodeMap { by_gkey, by_scancode }
    }

    /// The scancode of a logical key, if it has one.
    pub fn scancode_of(&self, gkey: u32) -> (scancode: Option<u32>)
        ensures
            scancode == if self@.contains_key(gkey) {
                Some(self@[gkey])
            } else {
                None
            },
    {
        match ordmap::get(&self.by_gkey, gkey) {
            Some(scancode) => Some(*scancode),
            None => None,
        }
    }

    /// The scancode under which a binding of `gkey` is filed.
    pub fn resolve(&self, gkey: u32) -> (scancode: u32)
        ensures
            scancode == resolved_scancode(self@, gkey),
    {
        match ordmap::get(&self.by_gkey, gkey) {
            Some(scancode) => *scancode,
            None => gkey,
        }
    }

    /// The logical keys of the bindings that are filed under their own
    /// number for want of a scancode, in the order of the bindings.
    pub fn unmapped_gkeys(&self, bindings: &Vec<(u32, BindingType)>) -> (gkeys: Vec<u32>)
        ensures
            gkeys@ == unmapped_gkeys(bindings_model(bindings@), self@),
    {
        let ghost all = bindings_model(bindings@);
        let mut gkeys: Vec<u32> = Vec::new();
        let mut i: usize = 0;
        while i < bindings.len()
            invariant
                i <= bindings.len(),
                all == bindings_model(bindings@),
                gkeys@ == unmapped_gkeys(all.take(i as int), self@),
            decreases bindings.len() - i,
        {
            let gkey: u32 = bindings[i].0;
            proof {
                assert(all.take(i + 1).drop_last() =~= all.take(i as int));
                assert(all.take(i + 1).last().0 == gkey);
            }
            if self.scancode_of(gkey).is_none() {
                gkeys.push(gkey);
            }
            i += 1;
        }
        proof {
            assert(all.take(i as int) =~= all);
        }
        gkeys
    }

    /// The logical key by which a scancode is best known, if any has it.
    pub fn gkey_of(&self, scancode: u32) -> (gkey: Option<u32>)
        ensures
            gkey == best_known_gkey(self@, scancode),
    {
        proof {
            use_type_invariant(self);
            assert(reverse_at(self.by_scancode@, self.by_gkey@, scancode));
        }
        match ordmap::get(&self.by_scancode, scancode) {
            Some(gkey) => Some(*gkey),
            None => None,
        }
    }
}

/// The table from scancodes to bindings.
pub struct BindingTable {
    entries: BTreeMap<u32, (u32, BindingType)>,
}

/// A table entry as a mathematical value.
pub open spec fn entry_model(entry: (u32, BindingType)) -> (u32, BindingModel) {
    (entry.0, entry.1@)
}

impl View for BindingTable {
    type V = Map<u32, (u32, BindingModel)>;

    closed spec fn view(&self) -> Map<u32, (u32, BindingModel)> {
        self.entries@.map_values(|entry: (u32, BindingType)| entry_model(entry))
    }
}

impl BindingTable {
    /// Builds the table from the bindings of a configuration and the
    /// scancodes of the logical keys.
    pub fn build(bindings: &Vec<(u32, BindingType)>, scancodes: &ScancodeMap) -> (table:
        BindingTable)
        ensures
            table@ == binding_table(bindings_model(bindings@), scancodes@),
    {
        let mut table = BindingTable { entries: BTreeMap::new() };
        let ghost all = bindings_model(bindings@);
        let mut i: usize = 0;
        proof {
            assert(table@ =~= Map::<u32, (u32, BindingModel)>::empty());
        }
        while i < bindings.len()
            invariant
                i <= bindings.len(),
                all == bindings_model(bindings@),
                all.len() == bindings@.len(),
                table@ == binding_table(all.take(i as int), scancodes@),
            decreases bindings.len() - i,
        {
            let gkey: u32 = bindings[i].0;
            let binding = bindings[i].1.clone();
            let scancode: u32 = scancodes.resolve(gkey);
            let ghost before = table.entries@;
            ordmap::put(&mut table.entries, scancode, (gkey, binding));
            proof {
                assert(all.take(i + 1).drop_last() =~= all.take(i as int));
                assert(all.take(i + 1).last() == (gkey, binding@));
                assert(table@ =~= before.map_values(
                    |entry: (u32, BindingType)| entry_model(entry),
                ).insert(scancode, (gkey, binding@)));
            }
            i += 1;
        }
        proof {
            assert(all.take(i as int) =~= all);
        }
        table
    }

    /// The logical key and the binding that are filed under a scancode.
    pub fn lookup(&self, scancode: u32) -> (found: Option<(u32, &BindingType)>)
        ensures
            found is Some == self@.contains_key(scancode),
            found matches Some((gkey, binding)) ==> self@[scancode] == (gkey, binding@),
    {
        match ordmap::get(&self.entries, scancode) {
            Some(entry) => Some((entry.0, &entry.1)),
            None => None,
        }
    }
}

/// What is filed under a scancode is one of the bindings that resolve to
/// it, together with its logical key, and none that comes after it resolves
/// to the same scancode.
pub proof fn lemma_entry_is_last_binding(
    bindings: Seq<(u32, BindingModel)>,
    by_gkey: Map<u32, u32>,
    scancode: u32,
)
    requires
        binding_table(bindings, by_gkey).contains_key(scancode),
    ensures
        exists|i: int|
            0 <= i < bindings.len() && #[trigger] is_last_binding_for(
                bindings,
                by_gkey,
                scancode,
                i,
            ) && binding_table(bindings, by_gkey)[scancode] == bindings[i],
    decreases bindings.len(),
{
    if bindings.len() > 0 {
        let front = bindings.drop_last();
        let last = bindings.len() - 1;
        if resolved_scancode(by_gkey, bindings.last().0) == scancode {
            assert(is_last_binding_for(bindings, by_gkey, scancode, last));
        } else {
            lemma_entry_is_last_binding(front, by_gkey, scancode);
            let i = choose|i: int|
                0 <= i < front.len() && #[trigger] is_last_binding_for(
                    front,
                    by_gkey,
                    scancode,
                    i,
                ) && binding_table(front, by_gkey)[scancode] == front[i];
            assert(front[i] == bindings[i]);
            assert forall|later: int| i < later < bindings.len() implies resolved_scancode(
                by_gkey,
                (#[trigger] bindings[later]).0,
            ) != scancode by {
                if later < front.len() {
                    assert(front[later] == bindings[later]);
                }
            }
            assert(is_last_binding_for(bindings, by_gkey, scancode, i));
        }
    }
}

/// Whether the binding at `index` resolves to `scancode` and no later
/// binding does.
pub open spec fn is_last_binding_for(
    bindings: Seq<(u32, BindingModel)>,
    by_gkey: Map<u32, u32>,
    scancode: u32,
    index: int,
) -> bool {
    &&& 0 <= index < bindings.len()
    &&& resolved_scancode(by_gkey, bindings[index].0) == scancode
    &&& forall|later: int|
        index < later < bindings.len() ==> resolved_scancode(
            by_gkey,
            (#[trigger] bindings[later]).0,
        ) != scancode
}

/// Every binding can be reached: the table holds an entry under the
/// scancode that the binding resolves to, and the entry is the binding
/// itself unless a later binding resolves to the same scancode.
pub proof fn lemma_binding_is_filed(
    bindings: Seq<(u32, BindingModel)>,
    by_gkey: Map<u32, u32>,
    index: int,
)
    requires
        0 <= index < bindings.len(),
    ensures
        binding_table(bindings, by_gkey).contains_key(
            resolved_scancode(by_gkey, bindings[index].0),
        ),
        is_last_binding_for(
            bindings,
            by_gkey,
            resolved_scancode(by_gkey, bindings[index].0),
            index,
        ) ==> binding_table(bindings, by_gkey)[resolved_scancode(by_gkey, bindings[index].0)]
            == bindings[index],
    decreases bindings.len(),
{
    let front = bindings.drop_last();
    let last = bindings.len() - 1;
    let scancode = resolved_scancode(by_gkey, bindings[index].0);
    if index < last {
        lemma_binding_is_filed(front, by_gkey, index);
        if is_last_binding_for(bindings, by_gkey, scancode, index) {
            assert(resolved_scancode(by_gkey, bindings[last].0) != scancode);
            assert forall|later: int| index < later < front.len() implies resolved_scancode(
                by_gkey,
                (#[trigger] front[later]).0,
            ) != scancode by {
                assert(front[later] == bindings[later]);
            }
            assert(is_last_binding_for(front, by_gkey, scancode, index));
        }
    }
}

} // verus!
