use vstd::prelude::*;
use vstd::string::*;

use crate::text::{chars_lt, compare_text, lemma_chars_lt_irreflexive, lemma_chars_lt_transitive, TextOrder};

verus! {

/// What runs when a menu command is chosen, as the editor registers it.
pub type CommandCallback = Box<dyn Fn() + Send + Sync + 'static>;

/// One entry of a menu: the text shown and what runs when it is chosen.
/// The registry never calls the callback; whoever draws the menu does.
pub struct MenuCommand<C> {
    pub label: String,
    pub callback: C,
}

impl<C> View for MenuCommand<C> {
    type V = (Seq<char>, C);

    open spec fn view(&self) -> (Seq<char>, C) {
        (self.label@, self.callback)
    }
}

/// A named top-bar menu with its commands in the order they were registered.
pub struct Menu<C> {
    pub name: String,
    pub commands: Vec<MenuCommand<C>>,
}

impl<C> View for Menu<C> {
    type V = (Seq<char>, Seq<(Seq<char>, C)>);

    open spec fn view(&self) -> (Seq<char>, Seq<(Seq<char>, C)>) {
        (self.name@, self.commands@.map_values(|c: MenuCommand<C>| c@))
    }
}

/// The abstract value of a list of menus.
pub open spec fn menus_view<C>(menus: Seq<Menu<C>>) -> Seq<(Seq<char>, Seq<(Seq<char>, C)>)> {
    menus.map_values(|m: Menu<C>| m@)
}

/// Names strictly increase along the list, so each name occurs once and
/// the list is in the order in which the menus are drawn.
pub open spec fn names_increasing<V>(entries: Seq<(Seq<char>, V)>) -> bool {
    forall|i: int, j: int| 0 <= i < j < entries.len() ==> chars_lt(entries[i].0, entries[j].0)
}

/// No name occurs twice.
pub open spec fn names_distinct<V>(entries: Seq<(Seq<char>, V)>) -> bool {
    forall|i: int, j: int| 0 <= i < entries.len() && 0 <= j < entries.len() && i != j
        ==> entries[i].0 != entries[j].0
}

/// The map from each name to its value.
pub open spec fn entries_map<V>(entries: Seq<(Seq<char>, V)>) -> Map<Seq<char>, V> {
    Map::new(
        |k: Seq<char>| exists|i: int| 0 <= i < entries.len() && entries[i].0 == k,
        |k: Seq<char>| entries[choose|i: int| 0 <= i < entries.len() && entries[i].0 == k].1,
    )
}

proof fn lemma_increasing_distinct<V>(e: Seq<(Seq<char>, V)>)
    requires
        names_increasing(e),
    ensures
        names_distinct(e),
{
    assert forall|i: int, j: int| 0 <= i < e.len() && 0 <= j < e.len() && i != j implies e[i].0
        != e[j].0 by {
        lemma_chars_lt_irreflexive(e[i].0);
    }
}

proof fn lemma_entries_map_at<V>(e: Seq<(Seq<char>, V)>, i: int)
    requires
        names_distinct(e),
        0 <= i < e.len(),
    ensures
        entries_map(e).contains_key(e[i].0),
        entries_map(e)[e[i].0] == e[i].1,
{
    let k = e[i].0;
    assert(exists|j: int| 0 <= j < e.len() && e[j].0 == k);
    let j = choose|j: int| 0 <= j < e.len() && e[j].0 == k;
    assert(j == i);
}

proof fn lemma_entries_map_update<V>(e: Seq<(Seq<char>, V)>, i: int, v: V)
    requires
        names_distinct(e),
        0 <= i < e.len(),
    ensures
        names_distinct(e.update(i, (e[i].0, v))),
        entries_map(e.update(i, (e[i].0, v))) == entries_map(e).insert(e[i].0, v),
{
    let e2 = e.update(i, (e[i].0, v));
    assert(names_distinct(e2));
    let m1 = entries_map(e2);
    let m2 = entries_map(e).insert(e[i].0, v);
    assert forall|k: Seq<char>| #[trigger] m1.contains_key(k) <==> m2.contains_key(k) by {
        if m1.contains_key(k) {
            let j = choose|j: int| 0 <= j < e2.len() && e2[j].0 == k;
            assert(e[j].0 == k);
        }
        if m2.contains_key(k) && k != e[i].0 {
            let j = choose|j: int| 0 <= j < e.len() && e[j].0 == k;
            assert(e2[j].0 == k);
        }
        if k == e[i].0 {
            assert(e2[i].0 == k);
        }
    }
    assert forall|k: Seq<char>| m1.contains_key(k) implies #[trigger] m1[k] == m2[k] by {
        let j = choose|j: int| 0 <= j < e2.len() && e2[j].0 == k;
        lemma_entries_map_at(e2, j);
        if j != i {
            lemma_entries_map_at(e, j);
        }
    }
    assert(m1 =~= m2);
}

proof fn lemma_entries_map_insert<V>(e: Seq<(Seq<char>, V)>, p: int, k0: Seq<char>, v: V)
    requires
        names_distinct(e),
        0 <= p <= e.len(),
        forall|j: int| 0 <= j < e.len() ==> e[j].0 != k0,
    ensures
        names_distinct(e.insert(p, (k0, v))),
        entries_map(e.insert(p, (k0, v))) == entries_map(e).insert(k0, v),
{
    let e2 = e.insert(p, (k0, v));
    assert forall|i: int, j: int|
        0 <= i < e2.len() && 0 <= j < e2.len() && i != j implies e2[i].0 != e2[j].0 by {
        if i < p && j < p {
        } else if i < p && j == p {
        } else if i < p {
            assert(e2[j] == e[j - 1]);
        } else if i == p {
            if j > p {
                assert(e2[j] == e[j - 1]);
            }
        } else {
            assert(e2[i] == e[i - 1]);
            if j > p {
                assert(e2[j] == e[j - 1]);
            }
        }
    }
    let m1 = entries_map(e2);
    let m2 = entries_map(e).insert(k0, v);
    assert forall|k: Seq<char>| #[trigger] m1.contains_key(k) <==> m2.contains_key(k) by {
        if m1.contains_key(k) && k != k0 {
            let j = choose|j: int| 0 <= j < e2.len() && e2[j].0 == k;
            if j < p {
                assert(e[j].0 == k);
            } else {
                assert(j != p);
                assert(e[j - 1].0 == k);
            }
        }
        if m2.contains_key(k) && k != k0 {
            let j = choose|j: int| 0 <= j < e.len() && e[j].0 == k;
            if j < p {
                assert(e2[j].0 == k);
            } else {
                assert(e2[j + 1].0 == k);
            }
        }
        if k == k0 {
            assert(e2[p].0 == k);
        }
    }
    assert forall|k: Seq<char>| m1.contains_key(k) implies #[trigger] m1[k] == m2[k] by {
        let j = choose|j: int| 0 <= j < e2.len() && e2[j].0 == k;
        lemma_entries_map_at(e2, j);
        if j < p {
            lemma_entries_map_at(e, j);
        } else if j > p {
            lemma_entries_map_at(e, j - 1);
        }
    }
    assert(m1 =~= m2);
}

/// The commands under `menu` in `m`, none when there is no such menu.
pub open spec fn commands_of<C>(m: Map<Seq<char>, Seq<(Seq<char>, C)>>, menu: Seq<char>) -> Seq<(Seq<char>, C)> {
    if m.contains_key(menu) {
        m[menu]
    } else {
        Seq::empty()
    }
}

/// The menus after `cmd` is registered under `menu`: it goes last in that
/// menu, which is created when missing; no other menu changes.
pub open spec fn registered<C>(
    m: Map<Seq<char>, Seq<(Seq<char>, C)>>,
    menu: Seq<char>,
    cmd: (Seq<char>, C),
) -> Map<Seq<char>, Seq<(Seq<char>, C)>> {
    m.insert(menu, commands_of(m, menu).push(cmd))
}

/// The menus after each `(menu, label, callback)` of `entries` is
/// registered in turn.
pub open spec fn registered_all<C>(
    m: Map<Seq<char>, Seq<(Seq<char>, C)>>,
    entries: Seq<(Seq<char>, Seq<char>, C)>,
) -> Map<Seq<char>, Seq<(Seq<char>, C)>>
    decreases entries.len(),
{
    if entries.len() == 0 {
        m
    } else {
        let e = entries.last();
        registered(registered_all(m, entries.drop_last()), e.0, (e.1, e.2))
    }
}

/// The view of a list of `(menu, label, callback)` entries.
pub open spec fn entries_view<C>(entries: Seq<(String, String, C)>) -> Seq<(Seq<char>, Seq<char>, C)> {
    entries.map_values(|e: (String, String, C)| (e.0@, e.1@, e.2))
}

/// Commands registered under one menu come out in the order they were
/// registered.
pub proof fn law_register_keeps_order<C>(
    m: Map<Seq<char>, Seq<(Seq<char>, C)>>,
    menu: Seq<char>,
    x: (Seq<char>, C),
    y: (Seq<char>, C),
)
    ensures
        registered(registered(m, menu, x), menu, y)[menu] == commands_of(m, menu).push(x).push(y),
{
}

/// Registering under two different menus gives the same registry in either
/// order.
pub proof fn law_register_commutes_across_menus<C>(
    m: Map<Seq<char>, Seq<(Seq<char>, C)>>,
    a: Seq<char>,
    x: (Seq<char>, C),
    b: Seq<char>,
    y: (Seq<char>, C),
)
    requires
        a != b,
    ensures
        registered(registered(m, a, x), b, y) == registered(registered(m, b, y), a, x),
{
    assert(registered(registered(m, a, x), b, y) =~= registered(registered(m, b, y), a, x));
}

/// The number of commands in all the menus of `entries`.
pub open spec fn total_commands<V>(entries: Seq<(Seq<char>, Seq<V>)>) -> nat
    decreases entries.len(),
{
    if entries.len() == 0 {
        0
    } else {
        total_commands(entries.drop_last()) + entries.last().1.len()
    }
}

/// Every menu of `entries` has at least one command.
pub open spec fn menus_nonempty<V>(entries: Seq<(Seq<char>, Seq<V>)>) -> bool {
    forall|i: int| 0 <= i < entries.len() ==> (#[trigger] entries[i]).1.len() > 0
}

proof fn lemma_total_update<V>(e: Seq<(Seq<char>, Seq<V>)>, i: int, x: (Seq<char>, Seq<V>))
    requires
        0 <= i < e.len(),
    ensures
        total_commands(e.update(i, x)) + e[i].1.len() == total_commands(e) + x.1.len(),
    decreases e.len(),
{
    let u = e.update(i, x);
    if i == e.len() - 1 {
        assert(u.drop_last() =~= e.drop_last());
    } else {
        assert(u.drop_last() =~= e.drop_last().update(i, x));
        lemma_total_update(e.drop_last(), i, x);
    }
}

proof fn lemma_total_insert<V>(e: Seq<(Seq<char>, Seq<V>)>, p: int, x: (Seq<char>, Seq<V>))
    requires
        0 <= p <= e.len(),
    ensures
        total_commands(e.insert(p, x)) == total_commands(e) + x.1.len(),
    decreases e.len(),
{
    let u = e.insert(p, x);
    if p == e.len() {
        assert(u.drop_last() =~= e);
    } else {
        assert(u.drop_last() =~= e.drop_last().insert(p, x));
        assert(u.last() == e.last());
        lemma_total_insert(e.drop_last(), p, x);
    }
}

/// The top-bar menus, keyed by name and kept in name order.
pub struct MenuRegistry<C> {
    menus: Vec<Menu<C>>,
}

impl<C> View for MenuRegistry<C> {
    type V = Map<Seq<char>, Seq<(Seq<char>, C)>>;

    closed spec fn view(&self) -> Map<Seq<char>, Seq<(Seq<char>, C)>> {
        entries_map(menus_view(self.menus@))
    }
}

impl<C> MenuRegistry<C> {
    #[verifier::type_invariant]
    closed spec fn well_formed(self) -> bool {
        &&& names_increasing(menus_view(self.menus@))
        &&& menus_nonempty(menus_view(self.menus@))
    }

    /// The number of commands registered since the registry was made or
    /// last cleared.
    pub closed spec fn command_count(&self) -> nat {
        total_commands(menus_view(self.menus@))
    }

    /// A registry with no menus.
    pub fn new() -> (r: Self)
        ensures
            r@ == Map::<Seq<char>, Seq<(Seq<char>, C)>>::empty(),
            r.command_count() == 0,
    {
        let r = MenuRegistry { menus: Vec::new() };
        assert(r@ =~= Map::<Seq<char>, Seq<(Seq<char>, C)>>::empty());
        r
    }

    /// The menus in the order they are drawn: increasing by name.
    pub fn menus(&self) -> (r: &Vec<Menu<C>>)
        ensures
            names_increasing(menus_view(r@)),
            menus_nonempty(menus_view(r@)),
            entries_map(menus_view(r@)) == self@,
            total_commands(menus_view(r@)) == self.command_count(),
    {
        proof {
            use_type_invariant(self);
        }
        &self.menus
    }

    /// Where `key` stands among the names: the first position whose name does
    /// not come before `key`, and whether that name is `key`.
    fn locate(&self, key: &str) -> (r: (usize, bool))
        ensures
            r.0 <= self.menus@.len(),
            forall|j: int| 0 <= j < r.0 ==> chars_lt(#[trigger] self.menus@[j].name@, key@),
            r.1 ==> r.0 < self.menus@.len() && self.menus@[r.0 as int].name@ == key@,
            !r.1 ==> r.0 == self.menus@.len() || chars_lt(key@, self.menus@[r.0 as int].name@),
    {
        let n = self.menus.len();
        let mut i: usize = 0;
        while i < n
            invariant
                n == self.menus@.len(),
                i <= n,
                forall|j: int| 0 <= j < i ==> chars_lt(#[trigger] self.menus@[j].name@, key@),
            decreases n - i,
        {
            match compare_text(self.menus[i].name.as_str(), key) {
                TextOrder::Less => {
                    i = i + 1;
                },
                TextOrder::Equal => {
                    return (i, true);
                },
                TextOrder::Greater => {
                    return (i, false);
                },
            }
        }
        (i, false)
    }

    /// Adds a command labelled `label` at the end of the menu `menu_name`,
    /// creating the menu when there is none of that name.
    pub fn register(&mut self, menu_name: &str, label: &str, callback: C)
        ensures
            final(self)@ == registered(old(self)@, menu_name@, (label@, callback)),
            final(self).command_count() == old(self).command_count() + 1,
    {
        proof {
            use_type_invariant(&*self);
        }
        let command = MenuCommand { label: String::from_str(label), callback };
        let ghost cmd_view = command@;
        let (pos, found) = self.locate(menu_name);
        let mut menus: Vec<Menu<C>> = Vec::new();
        std::mem::swap(&mut menus, &mut self.menus);
        let ghost old_entries = menus_view(menus@);
        proof {
            lemma_increasing_distinct(old_entries);
        }
        if found {
            let mut menu = menus.remove(pos);
            let ghost old_menu = menu@;
            menu.commands.push(command);
            proof {
                assert(menu@.1 =~= old_menu.1.push(cmd_view));
            }
            menus.insert(pos, menu);
            proof {
                let new_entries = menus_view(menus@);
                assert(new_entries =~= old_entries.update(pos as int, (old_entries[pos as int].0, old_menu.1.push(cmd_view))));
                lemma_entries_map_update(old_entries, pos as int, old_menu.1.push(cmd_view));
                lemma_total_update(old_entries, pos as int, (old_entries[pos as int].0, old_menu.1.push(cmd_view)));
                assert(old_entries[pos as int].1 == old_menu.1);
                assert forall|i: int| 0 <= i < new_entries.len() implies (#[trigger] new_entries[i]).1.len() > 0 by {
                    if i != pos {
                        assert(new_entries[i] == old_entries[i]);
                    }
                }
                lemma_entries_map_at(old_entries, pos as int);
                assert forall|i: int, j: int| 0 <= i < j < new_entries.len() implies chars_lt(
                    new_entries[i].0,
                    new_entries[j].0,
                ) by {
                    assert(new_entries[i].0 == old_entries[i].0);
                    assert(new_entries[j].0 == old_entries[j].0);
                }
            }
        } else {
            let menu = Menu { name: String::from_str(menu_name), commands: vec![command] };
            let ghost menu_view = menu@;
            proof {
                assert(menu_view.1 =~= seq![cmd_view]);
            }
            menus.insert(pos, menu);
            proof {
                let key = menu_name@;
                let new_entries = menus_view(menus@);
                assert forall|j: int| 0 <= j < old_entries.len() implies old_entries[j].0 != key by {
                    if j < pos {
                        assert(chars_lt(menus@[j].name@, key));
                        lemma_chars_lt_irreflexive(key);
                    } else {
                        assert(chars_lt(key, old_entries[pos as int].0));
                        if j > pos {
                            lemma_chars_lt_transitive(key, old_entries[pos as int].0, old_entries[j].0);
                        }
                        lemma_chars_lt_irreflexive(key);
                    }
                }
                assert(new_entries =~= old_entries.insert(pos as int, (key, seq![cmd_view])));
                lemma_entries_map_insert(old_entries, pos as int, key, seq![cmd_view]);
                lemma_total_insert(old_entries, pos as int, (key, seq![cmd_view]));
                assert forall|i: int| 0 <= i < new_entries.len() implies (#[trigger] new_entries[i]).1.len() > 0 by {
                    if i < pos {
                        assert(new_entries[i] == old_entries[i]);
                    } else if i > pos {
                        assert(new_entries[i] == old_entries[i - 1]);
                    }
                }
                assert(!entries_map(old_entries).contains_key(key));
                assert(seq![cmd_view] =~= Seq::<(Seq<char>, C)>::empty().push(cmd_view));
                assert forall|i: int, j: int| 0 <= i < j < new_entries.len() implies chars_lt(
                    new_entries[i].0,
                    new_entries[j].0,
                ) by {
                    if i < pos && j < pos {
                    } else if i < pos && j == pos {
                        assert(chars_lt(menus@[i].name@, key));
                    } else if i < pos {
                        assert(new_entries[j] == old_entries[j - 1]);
                    } else if i == pos {
                        assert(new_entries[j] == old_entries[j - 1]);
                        if j - 1 > pos {
                            lemma_chars_lt_transitive(key, old_entries[pos as int].0, old_entries[j - 1].0);
                        }
                    } else {
                        assert(new_entries[i] == old_entries[i - 1]);
                        assert(new_entries[j] == old_entries[j - 1]);
                    }
                }
            }
        }
        self.menus = menus;
    }

    /// Removes every menu.
    pub fn clear(&mut self)
        ensures
            final(self)@ == Map::<Seq<char>, Seq<(Seq<char>, C)>>::empty(),
            final(self).command_count() == 0,
    {
        self.menus = Vec::new();
        assert(self@ =~= Map::<Seq<char>, Seq<(Seq<char>, C)>>::empty());
    }

    /// Replaces every menu by those that registering `entries` in turn
    /// builds, as the editor does when it reloads its library.
    pub fn reset(&mut self, entries: Vec<(String, String, C)>)
        ensures
            final(self)@ == registered_all(Map::empty(), entries_view(entries@)),
            final(self).command_count() == entries@.len(),
    {
        let ghost ev = entries_view(entries@);
        self.clear();
        let mut rest = entries;
        let mut k: usize = 0;
        let n = rest.len();
        assert(ev.take(0) =~= Seq::<(Seq<char>, Seq<char>, C)>::empty());
        while rest.len() > 0
            invariant
                n == ev.len(),
                k + rest@.len() == n,
                entries_view(rest@) == ev.skip(k as int),
                self@ == registered_all(Map::empty(), ev.take(k as int)),
                self.command_count() == k,
            decreases rest.len(),
        {
            let ghost before = rest@;
            let (menu, label, callback) = rest.remove(0);
            proof {
                assert(rest@ =~= before.subrange(1, before.len() as int));
                assert(entries_view(before) == ev.skip(k as int));
                assert forall|j: int| 0 <= j < rest@.len() implies #[trigger] entries_view(rest@)[j]
                    == ev.skip(k + 1)[j] by {
                    assert(entries_view(rest@)[j] == entries_view(before)[j + 1]);
                }
                assert(ev.skip(k as int)[0] == (menu@, label@, callback));
                assert(ev.take(k + 1).drop_last() =~= ev.take(k as int));
                assert(ev.take(k + 1).last() == (menu@, label@, callback));
                assert(entries_view(rest@) =~= ev.skip(k + 1));
            }
            self.register(menu.as_str(), label.as_str(), callback);
            k = k + 1;
        }
        assert(ev.take(k as int) =~= ev);
    }
}

} // verus!
