//! Inbound commands and the bounded record of them.

use std::collections::VecDeque;
use vstd::prelude::*;
use vstd::std_specs::cmp::PartialEqSpecImpl;

verus! {

/// The number of commands that a history keeps unless told otherwise.
pub const DEFAULT_MAX_SIZE: usize = 200;

/// A message that arrived from the broker.
#[derive(Debug)]
pub struct Command {
    pub name: String,
    pub payload: Option<Vec<u8>>,
}

/// The mathematical value of a [`Command`].
pub struct CommandView {
    pub name: Seq<char>,
    pub payload: Option<Seq<u8>>,
}

impl View for Command {
    type V = CommandView;

    open spec fn view(&self) -> CommandView {
        CommandView {
            name: self.name@,
            payload: match self.payload {
                Some(payload) => Some(payload@),
                None => None,
            },
        }
    }
}

/// A copy of `bytes`.
fn clone_bytes(bytes: &Vec<u8>) -> (res: Vec<u8>)
    ensures
        res@ == bytes@,
{
    let mut res: Vec<u8> = Vec::new();
    let mut i: usize = 0;
    while i < bytes.len()
        invariant
            i <= bytes.len(),
            res@ == bytes@.take(i as int),
        decreases bytes.len() - i,
    {
        res.push(bytes[i]);
        assert(bytes@.take(i + 1) =~= bytes@.take(i as int).push(bytes@[i as int]));
        i += 1;
    }
    assert(bytes@.take(bytes@.len() as int) =~= bytes@);
    res
}

/// Whether `a` and `b` hold the same bytes.
fn same_bytes(a: &Vec<u8>, b: &Vec<u8>) -> (res: bool)
    ensures
        res == (a@ == b@),
{
    if a.len() != b.len() {
        return false;
    }
    let mut i: usize = 0;
    while i < a.len()
        invariant
            i <= a.len(),
            a.len() == b.len(),
            a@.take(i as int) == b@.take(i as int),
        decreases a.len() - i,
    {
        if a[i] != b[i] {
            assert(a@[i as int] != b@[i as int]);
            return false;
        }
        assert(a@.take(i + 1) =~= a@.take(i as int).push(a@[i as int]));
        assert(b@.take(i + 1) =~= b@.take(i as int).push(b@[i as int]));
        i += 1;
    }
    assert(a@.take(a@.len() as int) =~= a@);
    assert(b@.take(b@.len() as int) =~= b@);
    true
}

impl Clone for Command {
    fn clone(&self) -> (res: Self)
        ensures
            res@ == self@,
    {
        Command {
            name: self.name.clone(),
            payload: match &self.payload {
                Some(payload) => Some(clone_bytes(payload)),
                None => None,
            },
        }
    }
}

impl PartialEq for Command {
    fn eq(&self, other: &Self) -> (res: bool) {
        self.name == other.name && match (&self.payload, &other.payload) {
            (Some(a), Some(b)) => same_bytes(a, b),
            (None, None) => true,
            _ => false,
        }
    }
}

impl Eq for Command {

}

impl PartialEqSpecImpl for Command {
    open spec fn obeys_eq_spec() -> bool {
        true
    }

    open spec fn eq_spec(&self, other: &Self) -> bool {
        self@ == other@
    }
}

/// The values of a list of commands, in order.
pub open spec fn command_views(commands: Seq<Command>) -> Seq<CommandView> {
    Seq::new(commands.len(), |i: int| commands[i]@)
}

/// The last `capacity` items of `items`, or all of them where there are no
/// more.
pub open spec fn keep_last<T>(items: Seq<T>, capacity: nat) -> Seq<T> {
    if items.len() <= capacity {
        items
    } else {
        items.subrange(items.len() - capacity, items.len() as int)
    }
}

/// What a history of `capacity` holds after `commands` arrived, one after the
/// other, where it held `held` before.
pub open spec fn after_arrivals<T>(held: Seq<T>, commands: Seq<T>, capacity: nat) -> Seq<T>
    decreases commands.len(),
{
    if commands.len() == 0 {
        held
    } else {
        keep_last(
            after_arrivals(held, commands.drop_last(), capacity).push(commands.last()),
            capacity,
        )
    }
}

/// A history holds exactly the most recent arrivals, as many as its capacity
/// allows, in the order in which they arrived.
pub proof fn lemma_history_keeps_latest<T>(held: Seq<T>, commands: Seq<T>, capacity: nat)
    requires
        held.len() <= capacity,
    ensures
        after_arrivals(held, commands, capacity) == keep_last(held + commands, capacity),
        after_arrivals(held, commands, capacity).len() == if held.len() + commands.len()
            <= capacity {
            held.len() + commands.len()
        } else {
            capacity
        },
    decreases commands.len(),
{
    if commands.len() == 0 {
        assert(held + commands =~= held);
    } else {
        let init = commands.drop_last();
        lemma_history_keeps_latest(held, init, capacity);
        assert(held + commands =~= (held + init).push(commands.last()));
        assert(keep_last(keep_last(held + init, capacity).push(commands.last()), capacity)
            =~= keep_last((held + init).push(commands.last()), capacity));
    }
}

/// The most recent commands, oldest first, up to a fixed number of them.
pub struct CommandHistory {
    commands: VecDeque<Command>,
    capacity: usize,
}

impl View for CommandHistory {
    type V = Seq<CommandView>;

    closed spec fn view(&self) -> Seq<CommandView> {
        command_views(self.commands@)
    }
}

impl CommandHistory {
    /// The number of commands that the history keeps at most.
    pub closed spec fn spec_capacity(&self) -> usize {
        self.capacity
    }

    /// The history never holds more than its capacity.
    #[verifier::type_invariant]
    pub closed spec fn well_formed(&self) -> bool {
        self.commands@.len() <= self.capacity
    }

    /// What a well-formed history's parts have to do with each other.
    pub proof fn lemma_well_formed(&self)
        requires
            self.well_formed(),
        ensures
            self@.len() <= self.spec_capacity(),
    {
    }

    /// An empty history that keeps the last 200 commands.
    pub fn new() -> (res: Self)
        ensures
            res@ == Seq::<CommandView>::empty(),
            res.spec_capacity() == DEFAULT_MAX_SIZE,
    {
        CommandHistory::with_capacity(DEFAULT_MAX_SIZE)
    }

    /// An empty history that keeps the last `capacity` commands.
    pub fn with_capacity(capacity: usize) -> (res: Self)
        ensures
            res@ == Seq::<CommandView>::empty(),
            res.spec_capacity() == capacity,
    {
        let res = CommandHistory { commands: VecDeque::new(), capacity };
        assert(res@ =~= Seq::<CommandView>::empty());
        res
    }

    /// The number of commands that the history keeps at most.
    pub fn capacity(&self) -> (res: usize)
        ensures
            res == self.spec_capacity(),
    {
        self.capacity
    }

    /// The number of commands that the history holds.
    pub fn len(&self) -> (res: usize)
        ensures
            res == self@.len(),
            res <= self.spec_capacity(),
    {
        proof {
            use_type_invariant(self);
        }
        self.commands.len()
    }

    /// Records `command` as the latest. Where the history is full, the oldest
    /// command leaves.
    pub fn push(&mut self, command: Command)
        ensures
            final(self)@ == keep_last(old(self)@.push(command@), old(self).spec_capacity() as nat),
            final(self).spec_capacity() == old(self).spec_capacity(),
    {
        proof {
            use_type_invariant(&*self);
        }
        let ghost before = self.commands@;
        let capacity = self.capacity;
        let mut commands: VecDeque<Command> = VecDeque::new();
        core::mem::swap(&mut self.commands, &mut commands);
        if capacity > 0 {
            if commands.len() >= capacity {
                let _ = commands.pop_front();
            }
            commands.push_back(command);
        }
        assert(command_views(commands@) =~= keep_last(
            command_views(before).push(command@),
            capacity as nat,
        ));
        self.commands = commands;
    }

    /// Copies of the commands that the history holds, oldest first.
    pub fn to_vec(&self) -> (res: Vec<Command>)
        ensures
            command_views(res@) == self@,
    {
        let mut res: Vec<Command> = Vec::new();
        let mut i: usize = 0;
        while i < self.commands.len()
            invariant
                i <= self.commands.len(),
                res@.len() == i,
                forall|k: int| 0 <= k < i ==> (#[trigger] res@[k])@ == self.commands@[k]@,
            decreases self.commands.len() - i,
        {
            res.push(self.commands[i].clone());
            i += 1;
        }
        assert(command_views(res@) =~= self@);
        res
    }
}

impl Default for CommandHistory {
    fn default() -> (res: Self)
        ensures
            res@ == Seq::<CommandView>::empty(),
            res.spec_capacity() == DEFAULT_MAX_SIZE,
    {
        CommandHistory::new()
    }
}

/// The first `capacity` items of `items`, or all of them where there are no
/// more.
pub open spec fn keep_first<T>(items: Seq<T>, capacity: nat) -> Seq<T> {
    if items.len() <= capacity {
        items
    } else {
        items.take(capacity as int)
    }
}

/// The items `items` from the last to the first.
pub open spec fn newest_first<T>(items: Seq<T>) -> Seq<T> {
    Seq::new(items.len(), |i: int| items[items.len() - 1 - i])
}

/// The list of commands that a page shows: the newest first, and no more
/// than 200 once a command has arrived.
pub struct Commands {
    commands: Vec<Command>,
    total_received: usize,
}

/// The mathematical value of [`Commands`].
pub struct CommandsView {
    /// The commands that are shown, newest first.
    pub commands: Seq<CommandView>,
    /// The number of commands that were received.
    pub total_received: usize,
}

impl View for Commands {
    type V = CommandsView;

    closed spec fn view(&self) -> CommandsView {
        CommandsView {
            commands: command_views(self.commands@),
            total_received: self.total_received,
        }
    }
}

impl CommandsView {
    /// The list after `command` arrived: it is the first of the list, and
    /// what does not fit any more leaves at the end. The count of commands
    /// goes up by one, as far as it can be counted.
    pub open spec fn added(self, command: CommandView) -> Self {
        CommandsView {
            commands: keep_first(seq![command] + self.commands, DEFAULT_MAX_SIZE as nat),
            total_received: if self.total_received < usize::MAX {
                (self.total_received + 1) as usize
            } else {
                self.total_received
            },
        }
    }

    /// The list after the history `history`, oldest first, was taken in: its
    /// last 200 commands follow what the list held, the newest of them
    /// first, and the count is the length of the list.
    pub open spec fn set(self, history: Seq<CommandView>) -> Self {
        let commands = self.commands + newest_first(keep_last(history, DEFAULT_MAX_SIZE as nat));
        CommandsView { commands, total_received: commands.len() as usize }
    }

    /// The list after it was cleared: no command is shown, and the count
    /// stays.
    pub open spec fn cleared(self) -> Self {
        CommandsView { commands: Seq::empty(), ..self }
    }
}

impl Commands {
    /// A list without commands.
    pub fn new() -> (res: Self)
        ensures
            res@ == (CommandsView { commands: Seq::empty(), total_received: 0 }),
    {
        let res = Commands { commands: Vec::new(), total_received: 0 };
        assert(res@.commands =~= Seq::<CommandView>::empty());
        res
    }

    /// The commands that are shown, newest first.
    pub fn commands(&self) -> (res: &Vec<Command>)
        ensures
            command_views(res@) == self@.commands,
    {
        &self.commands
    }

    /// The number of commands that were received.
    pub fn total_received(&self) -> (res: usize)
        ensures
            res == self@.total_received,
    {
        self.total_received
    }

    /// Takes in a command that arrived.
    pub fn add(&mut self, command: Command)
        ensures
            final(self)@ == old(self)@.added(command@),
    {
        let ghost all = seq![command@] + self@.commands;
        if self.total_received < usize::MAX {
            self.total_received = self.total_received + 1;
        }
        self.commands.insert(0, command);
        assert(command_views(self.commands@) =~= all);
        while self.commands.len() > DEFAULT_MAX_SIZE
            invariant
                self.commands@.len() <= all.len(),
                self.commands@.len() >= DEFAULT_MAX_SIZE || self.commands@.len() == all.len(),
                command_views(self.commands@) == all.take(self.commands@.len() as int),
                self.total_received == old(self)@.added(command@).total_received,
            decreases self.commands.len(),
        {
            let _ = self.commands.pop();
            assert(command_views(self.commands@) =~= all.take(self.commands@.len() as int));
        }
        assert(command_views(self.commands@) =~= keep_first(all, DEFAULT_MAX_SIZE as nat));
    }

    /// Takes in the history `commands`, oldest first.
    pub fn set(&mut self, commands: Vec<Command>)
        ensures
            final(self)@ == old(self)@.set(command_views(commands@)),
    {
        let ghost before = self@.commands;
        let ghost history = command_views(commands@);
        let ghost latest = keep_last(history, DEFAULT_MAX_SIZE as nat);
        let ghost shown = newest_first(latest);
        let mut commands = commands;
        let mut taken: usize = 0;
        assert(command_views(self.commands@) =~= before + shown.take(0));
        while taken < DEFAULT_MAX_SIZE && commands.len() > 0
            invariant
                taken <= DEFAULT_MAX_SIZE,
                taken + commands@.len() == history.len(),
                latest == keep_last(history, DEFAULT_MAX_SIZE as nat),
                shown == newest_first(latest),
                forall|k: int| 0 <= k < commands@.len() ==> (#[trigger] commands@[k])@ == history[k],
                command_views(self.commands@) == before + shown.take(taken as int),
                taken <= latest.len(),
            decreases commands.len(),
        {
            let ghost listed = command_views(self.commands@);
            let ghost left = commands@;
            if let Some(command) = commands.pop() {
                assert(command == left[left.len() - 1]);
                assert(command@ == history[history.len() - 1 - taken]);
                assert(taken < latest.len());
                assert(shown[taken as int] == command@);
                self.commands.push(command);
                assert(command_views(self.commands@) =~= listed.push(command@));
                assert(shown.take(taken + 1) =~= shown.take(taken as int).push(command@));
                taken += 1;
            }
        }
        assert(taken == latest.len());
        assert(shown.take(taken as int) =~= shown);
        self.total_received = self.commands.len();
    }

    /// Clears the list.
    pub fn clear(&mut self)
        ensures
            final(self)@ == old(self)@.cleared(),
    {
        self.commands.clear();
        assert(command_views(self.commands@) =~= Seq::<CommandView>::empty());
    }
}

impl Default for Commands {
    fn default() -> (res: Self)
        ensures
            res@ == (CommandsView { commands: Seq::empty(), total_received: 0 }),
    {
        Commands::new()
    }
}

} // verus!
