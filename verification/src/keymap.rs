//! The keymap: a trie of key chords that ends in commands, and the state
//! machine that walks it one key at a time.
use vstd::prelude::*;

verus! {

/// A key press.
#[derive(Clone, Copy, Debug, PartialEq, Eq, Structural)]
pub enum Key {
    Backspace,
    Left,
    Right,
    Up,
    Down,
    Home,
    End,
    PageUp,
    PageDown,
    BackTab,
    Delete,
    Insert,
    F(u8),
    Char(char),
    Alt(char),
    Ctrl(char),
    Null,
    /// The key that cancels a chord.
    Esc,
}

/// An action that a chord can end in.
#[derive(Clone, Copy, Debug, PartialEq, Eq, Structural)]
pub enum Command {
    Quit,
    ReloadDirList,
    ToggleHiddenFiles,
    ToggleReverse,
    SortByName,
    SortBySize,
    SortByMtime,
    SortByExtension,
    OpenDirectory,
    ParentDirectory,
}

/// What a key is bound to: a command, or a further mapping for the next key.
#[derive(Debug)]
pub enum CommandKeybind {
    Simple(Command),
    Composite(CommandMapping),
}

/// The bindings of one level of the trie, each key at most once.
#[derive(Debug)]
pub struct CommandMapping {
    pub bindings: Vec<(Key, CommandKeybind)>,
}

/// Place `i` of `bindings` binds `key`.
pub open spec fn binds(bindings: Seq<(Key, CommandKeybind)>, key: Key, i: int) -> bool {
    0 <= i < bindings.len() && bindings[i].0 == key
}

/// Some place of `bindings` binds `key`.
pub open spec fn is_bound(bindings: Seq<(Key, CommandKeybind)>, key: Key) -> bool {
    exists|i: int| binds(bindings, key, i)
}

/// A place of `bindings` that binds `key`.
pub open spec fn binding_place(bindings: Seq<(Key, CommandKeybind)>, key: Key) -> int {
    choose|i: int| binds(bindings, key, i)
}

/// No key is bound twice.
pub open spec fn distinct_keys(bindings: Seq<(Key, CommandKeybind)>) -> bool {
    forall|i: int, j: int|
        0 <= i < j < bindings.len() ==> (#[trigger] bindings[i]).0 != (#[trigger] bindings[j]).0
}

impl View for CommandMapping {
    type V = Map<Key, CommandKeybind>;

    /// The mapping as a map from each bound key to what it is bound to.
    open spec fn view(&self) -> Map<Key, CommandKeybind> {
        Map::new(
            |key: Key| is_bound(self.bindings@, key),
            |key: Key| self.bindings@[binding_place(self.bindings@, key)].1,
        )
    }
}

impl CommandKeybind {
    /// A nested mapping is well formed.
    pub open spec fn wf(&self) -> bool {
        match self {
            CommandKeybind::Simple(_) => true,
            CommandKeybind::Composite(nested) => nested.wf(),
        }
    }
}

/// Where a walk of the trie stands.
pub enum Walk {
    /// No key was taken yet.
    Root,
    /// The keys so far lead to this nested mapping.
    InComposite(CommandMapping),
    /// The keys led to a command. The walk is over.
    Resolved(Command),
    /// A key was not bound, or the chord was cancelled. The walk is over.
    Aborted,
}

/// Where a walk of the trie stands, as the running program holds it.
#[derive(Debug)]
pub enum MenuState<'a> {
    Root,
    InComposite(&'a CommandMapping),
    Resolved(&'a Command),
    Aborted,
}

impl<'a> View for MenuState<'a> {
    type V = Walk;

    open spec fn view(&self) -> Walk {
        match self {
            MenuState::Root => Walk::Root,
            MenuState::InComposite(nested) => Walk::InComposite(**nested),
            MenuState::Resolved(command) => Walk::Resolved(**command),
            MenuState::Aborted => Walk::Aborted,
        }
    }
}

impl Walk {
    /// The mapping that the next key is looked up in; none once the walk is
    /// over.
    pub open spec fn waiting_on(self, root: CommandMapping) -> Option<CommandMapping> {
        match self {
            Walk::Root => Some(root),
            Walk::InComposite(nested) => Some(nested),
            _ => None,
        }
    }

    /// The nested mapping that the walk stands in is well formed.
    pub open spec fn wf(self) -> bool {
        self matches Walk::InComposite(nested) ==> nested.wf()
    }
}

/// The state after `key` arrives in `state`. A walk that is over stays as it
/// is. Else the cancel key aborts; a key bound to a command resolves to it;
/// a key bound to a nested mapping descends into it; any other key aborts.
pub open spec fn step(root: CommandMapping, state: Walk, key: Key) -> Walk {
    match state.waiting_on(root) {
        None => state,
        Some(mapping) => if key == Key::Esc {
            Walk::Aborted
        } else if mapping@.contains_key(key) {
            match mapping@[key] {
                CommandKeybind::Simple(command) => Walk::Resolved(command),
                CommandKeybind::Composite(nested) => Walk::InComposite(nested),
            }
        } else {
            Walk::Aborted
        },
    }
}

/// The state after the keys of `keys` arrive one by one in `state`.
pub open spec fn walk(root: CommandMapping, state: Walk, keys: Seq<Key>) -> Walk
    decreases keys.len(),
{
    if keys.len() == 0 {
        state
    } else {
        walk(root, step(root, state, keys[0]), keys.skip(1))
    }
}

/// What a key sequence resolves to from the top of the trie.
pub open spec fn resolution(root: CommandMapping, keys: Seq<Key>) -> Walk {
    walk(root, Walk::Root, keys)
}

/// Walking a sequence is walking its front and then its rest.
pub proof fn lemma_walk_concat(root: CommandMapping, state: Walk, front: Seq<Key>, rest: Seq<Key>)
    ensures
        walk(root, state, front + rest) == walk(root, walk(root, state, front), rest),
    decreases front.len(),
{
    if front.len() == 0 {
        assert(front + rest =~= rest);
    } else {
        assert((front + rest).skip(1) =~= front.skip(1) + rest);
        lemma_walk_concat(root, step(root, state, front[0]), front.skip(1), rest);
    }
}

/// A walk that is over stays as it is, whatever keys follow.
pub proof fn lemma_walk_ended(root: CommandMapping, state: Walk, keys: Seq<Key>)
    requires
        state.waiting_on(root) is None,
    ensures
        walk(root, state, keys) == state,
    decreases keys.len(),
{
    if keys.len() > 0 {
        lemma_walk_ended(root, state, keys.skip(1));
    }
}

/// Walking one key is one step.
pub proof fn lemma_walk_one(root: CommandMapping, state: Walk, key: Key)
    ensures
        walk(root, state, seq![key]) == step(root, state, key),
{
    assert(seq![key].skip(1) =~= Seq::<Key>::empty());
    assert(walk(root, step(root, state, key), Seq::<Key>::empty()) == step(root, state, key));
}

/// A key that the current mapping does not bind aborts the walk, at whatever
/// depth the keys before it have led to and whatever keys follow it.
pub proof fn lemma_unmapped_key_aborts(
    root: CommandMapping,
    before: Seq<Key>,
    key: Key,
    after: Seq<Key>,
)
    requires
        resolution(root, before).waiting_on(root) matches Some(mapping) && !mapping@.contains_key(key),
    ensures
        resolution(root, before + seq![key] + after) == Walk::Aborted,
{
    let here = resolution(root, before);
    lemma_walk_concat(root, Walk::Root, before + seq![key], after);
    lemma_walk_concat(root, Walk::Root, before, seq![key]);
    lemma_walk_one(root, here, key);
    lemma_walk_ended(root, Walk::Aborted, after);
}

/// The cancel key aborts the walk, at whatever depth the keys before it have
/// led to and whatever keys follow it.
pub proof fn lemma_cancel_aborts(root: CommandMapping, before: Seq<Key>, after: Seq<Key>)
    requires
        resolution(root, before).waiting_on(root) is Some,
    ensures
        resolution(root, before + seq![Key::Esc] + after) == Walk::Aborted,
{
    let here = resolution(root, before);
    lemma_walk_concat(root, Walk::Root, before + seq![Key::Esc], after);
    lemma_walk_concat(root, Walk::Root, before, seq![Key::Esc]);
    lemma_walk_one(root, here, Key::Esc);
    lemma_walk_ended(root, Walk::Aborted, after);
}

/// In a mapping without doubly bound keys, the place that binds a key
/// decides what the key is bound to.
proof fn lemma_binding(bindings: Seq<(Key, CommandKeybind)>, i: int)
    requires
        distinct_keys(bindings),
        0 <= i < bindings.len(),
    ensures
        is_bound(bindings, bindings[i].0),
        binding_place(bindings, bindings[i].0) == i,
{
    let key = bindings[i].0;
    assert(binds(bindings, key, i));
    let k = binding_place(bindings, key);
    if k < i {
        assert(bindings[k].0 != bindings[i].0);
    } else if i < k {
        assert(bindings[i].0 != bindings[k].0);
    }
}

impl CommandMapping {
    /// No key is bound twice, here and in every nested mapping.
    pub open spec fn wf(&self) -> bool
        decreases self,
    {
        &&& distinct_keys(self.bindings@)
        &&& forall|i: int|
            0 <= i < self.bindings@.len() ==> match (#[trigger] self.bindings@[i]).1 {
                CommandKeybind::Simple(_) => true,
                CommandKeybind::Composite(nested) => nested.wf(),
            }
    }

    /// What a bound key is bound to is itself well formed.
    pub proof fn lemma_bound_is_wf(&self, key: Key)
        requires
            self.wf(),
            self@.contains_key(key),
        ensures
            self@[key].wf(),
    {
        let i = binding_place(self.bindings@, key);
        assert(binds(self.bindings@, key, i));
        assert(self.bindings@[i].1.wf());
    }

    /// A mapping that binds no key.
    pub fn new() -> (m: CommandMapping)
        ensures
            m.wf(),
            m.bindings@ == Seq::<(Key, CommandKeybind)>::empty(),
            m@ == Map::<Key, CommandKeybind>::empty(),
    {
        let m = CommandMapping { bindings: Vec::new() };
        assert(m@ =~= Map::<Key, CommandKeybind>::empty());
        m
    }

    /// The number of keys bound at this level.
    pub fn len(&self) -> (n: usize)
        ensures
            n == self.bindings@.len(),
    {
        self.bindings.len()
    }

    /// The place that binds `key`, if one does.
    fn find(&self, key: Key) -> (r: Option<usize>)
        requires
            self.wf(),
        ensures
            match r {
                Some(i) => binds(self.bindings@, key, i as int) && self@.contains_key(key)
                    && self@[key] == self.bindings@[i as int].1,
                None => !self@.contains_key(key),
            },
    {
        let mut i: usize = 0;
        while i < self.bindings.len()
            invariant
                self.wf(),
                i <= self.bindings@.len(),
                forall|k: int| 0 <= k < i ==> !binds(self.bindings@, key, k),
            decreases self.bindings@.len() - i,
        {
            if self.bindings[i].0 == key {
                proof {
                    lemma_binding(self.bindings@, i as int);
                }
                return Some(i);
            }
            i += 1;
        }
        None
    }

    /// What `key` is bound to at this level.
    pub fn get(&self, key: Key) -> (r: Option<&CommandKeybind>)
        requires
            self.wf(),
        ensures
            match r {
                Some(keybind) => self@.contains_key(key) && *keybind == self@[key] && keybind.wf(),
                None => !self@.contains_key(key),
            },
    {
        match self.find(key) {
            Some(i) => {
                proof {
                    self.lemma_bound_is_wf(key);
                }
                Some(&self.bindings[i].1)
            },
            None => None,
        }
    }

    /// Binds `key` to `keybind`, in place of what it was bound to before.
    pub fn insert(&mut self, key: Key, keybind: CommandKeybind)
        requires
            old(self).wf(),
            keybind.wf(),
        ensures
            final(self).wf(),
            final(self)@ == old(self)@.insert(key, keybind),
    {
        let ghost before = self.bindings@;
        let ghost place: int;
        match self.find(key) {
            Some(i) => {
                self.bindings[i] = (key, keybind);
                proof {
                    place = i as int;
                }
            },
            None => {
                self.bindings.push((key, keybind));
                proof {
                    place = before.len() as int;
                }
            },
        }
        let ghost after = self.bindings@;
        assert(after[place] == (key, keybind));
        proof {
            assert(distinct_keys(after)) by {
                assert forall|a: int, b: int| 0 <= a < b < after.len() implies (#[trigger] after[a]).0 != (
                #[trigger] after[b]).0 by {
                    if b < before.len() {
                        assert(before[a].0 != before[b].0);
                    } else {
                        assert(!binds(before, key, a));
                    }
                }
            }
            assert forall|i: int| 0 <= i < after.len() implies (#[trigger] after[i]).1.wf() by {
                if i < before.len() && after[i] == before[i] {
                    assert(before[i].1.wf());
                }
            }
            assert forall|k: Key| #[trigger] is_bound(after, k) == (k == key || is_bound(before, k)) by {
                if is_bound(after, k) {
                    let i = binding_place(after, k);
                    if k != key {
                        assert(binds(before, k, i));
                    }
                }
                if is_bound(before, k) {
                    let i = binding_place(before, k);
                    assert(binds(after, k, i));
                }
                if k == key {
                    if is_bound(before, key) {
                        let i = binding_place(before, key);
                        assert(binds(after, key, i));
                    } else {
                        assert(binds(after, key, before.len() as int));
                    }
                }
            }
            assert forall|k: Key| is_bound(after, k) implies #[trigger] self@[k] == old(self)@.insert(
                key,
                keybind,
            )[k] by {
                let i = binding_place(after, k);
                lemma_binding(after, i);
                if k != key {
                    assert(binds(before, k, i));
                    lemma_binding(before, i);
                } else {
                    lemma_binding(after, place);
                }
            }
            assert(self@ =~= old(self)@.insert(key, keybind));
        }
    }

    /// Takes one key of a chord. A walk that is over stays as it is.
    pub fn advance<'a>(&'a self, state: MenuState<'a>, key: Key) -> (next: MenuState<'a>)
        requires
            self.wf(),
            state@.wf(),
        ensures
            next@ == step(*self, state@, key),
            next@.wf(),
    {
        let mapping: &'a CommandMapping = match state {
            MenuState::Root => self,
            MenuState::InComposite(nested) => nested,
            MenuState::Resolved(command) => {
                return MenuState::Resolved(command);
            },
            MenuState::Aborted => {
                return MenuState::Aborted;
            },
        };
        if key == Key::Esc {
            return MenuState::Aborted;
        }
        match mapping.get(key) {
            Some(CommandKeybind::Simple(command)) => MenuState::Resolved(command),
            Some(CommandKeybind::Composite(nested)) => MenuState::InComposite(nested),
            None => MenuState::Aborted,
        }
    }

    /// Walks the trie from its top along `keys`. The result is a function of
    /// the mapping and the keys alone, and the mapping is left as it is.
    pub fn resolve<'a>(&'a self, keys: &[Key]) -> (end: MenuState<'a>)
        requires
            self.wf(),
        ensures
            end@ == resolution(*self, keys@),
            end@.wf(),
    {
        let mut state: MenuState<'a> = MenuState::Root;
        let mut i: usize = 0;
        assert(keys@.skip(0) =~= keys@);
        while i < keys.len()
            invariant
                self.wf(),
                state@.wf(),
                i <= keys@.len(),
                resolution(*self, keys@) == walk(*self, state@, keys@.skip(i as int)),
            decreases keys@.len() - i,
        {
            assert(keys@.skip(i as int).skip(1) =~= keys@.skip(i + 1));
            state = self.advance(state, keys[i]);
            i += 1;
        }
        state
    }
}

} // verus!
