use vstd::prelude::*;
use vstd::string::StringExecFns;
use crate::expr::{Expr, Term};
use crate::runtime_error::{RuntimeError, RuntimeErrorView};

verus! {

/// A bound value, tagged by whether it may be assigned again.
#[derive(Debug)]
pub enum Binding {
    /// A mutable binding: assignment replaces the value.
    Var(Expr),
    /// An immutable binding: assignment fails.
    Const(Expr),
}

/// The mathematical value of a binding.
pub enum BindingView {
    Var(Term),
    Const(Term),
}

impl BindingView {
    /// The value that is bound.
    pub open spec fn value(self) -> Term {
        match self {
            BindingView::Var(v) => v,
            BindingView::Const(v) => v,
        }
    }
}

impl View for Binding {
    type V = BindingView;

    open spec fn view(&self) -> BindingView {
        match self {
            Binding::Var(v) => BindingView::Var(v@),
            Binding::Const(v) => BindingView::Const(v@),
        }
    }
}

impl Clone for Binding {
    fn clone(&self) -> (r: Binding)
        ensures
            r@ == self@,
    {
        match self {
            Binding::Var(v) => Binding::Var(v.clone()),
            Binding::Const(v) => Binding::Const(v.clone()),
        }
    }
}

/// A name with what it is bound to.
#[derive(Debug)]
pub struct Entry {
    pub name: String,
    pub binding: Binding,
}

/// The bindings that a list of entries stands for: where a name occurs more
/// than once, the last entry counts.
pub open spec fn bindings_of(entries: Seq<Entry>) -> Map<Seq<char>, BindingView>
    decreases entries.len(),
{
    if entries.len() == 0 {
        Map::empty()
    } else {
        bindings_of(entries.drop_last()).insert(entries.last().name@, entries.last().binding@)
    }
}

/// A name that no entry from `from` on holds is bound as the entries before
/// `from` bind it.
proof fn lemma_later_entries_do_not_matter(entries: Seq<Entry>, name: Seq<char>, from: int)
    requires
        0 <= from <= entries.len(),
        forall|j: int| from <= j < entries.len() ==> entries[j].name@ != name,
    ensures
        bindings_of(entries).contains_key(name) == bindings_of(
            entries.subrange(0, from),
        ).contains_key(name),
        bindings_of(entries).contains_key(name) ==> bindings_of(entries)[name] == bindings_of(
            entries.subrange(0, from),
        )[name],
    decreases entries.len() - from,
{
    if from == entries.len() {
        assert(entries.subrange(0, from) =~= entries);
    } else {
        let shorter = entries.drop_last();
        lemma_later_entries_do_not_matter(shorter, name, from);
        assert(shorter.subrange(0, from) =~= entries.subrange(0, from));
    }
}

/// Replacing the last entry that holds a name binds the name anew and
/// changes nothing else.
proof fn lemma_replace_last_occurrence(entries: Seq<Entry>, at: int, entry: Entry)
    requires
        0 <= at < entries.len(),
        entries[at].name@ == entry.name@,
        forall|j: int| at < j < entries.len() ==> entries[j].name@ != entry.name@,
    ensures
        bindings_of(entries.update(at, entry)) == bindings_of(entries).insert(
            entry.name@,
            entry.binding@,
        ),
    decreases entries.len(),
{
    let changed = entries.update(at, entry);
    if at == entries.len() - 1 {
        assert(changed.drop_last() =~= entries.drop_last());
        assert(bindings_of(changed) =~= bindings_of(entries).insert(entry.name@, entry.binding@));
    } else {
        lemma_replace_last_occurrence(entries.drop_last(), at, entry);
        assert(changed.drop_last() =~= entries.drop_last().update(at, entry));
        assert(changed.last() == entries.last());
        assert(bindings_of(changed) =~= bindings_of(entries).insert(entry.name@, entry.binding@));
    }
}

/// Lists whose entries agree in name and binding stand for the same bindings.
proof fn lemma_same_entries(a: Seq<Entry>, b: Seq<Entry>)
    requires
        a.len() == b.len(),
        forall|i: int|
            0 <= i < a.len() ==> a[i].name@ == b[i].name@ && a[i].binding@ == b[i].binding@,
    ensures
        bindings_of(a) == bindings_of(b),
    decreases a.len(),
{
    if a.len() > 0 {
        lemma_same_entries(a.drop_last(), b.drop_last());
    }
}

impl Clone for Entry {
    fn clone(&self) -> (r: Entry)
        ensures
            r.name@ == self.name@,
            r.binding@ == self.binding@,
    {
        Entry { name: self.name.clone(), binding: self.binding.clone() }
    }
}

/// One scope level: the bindings made since the frame was pushed.
#[derive(Debug)]
pub struct Frame {
    pub entries: Vec<Entry>,
}

impl View for Frame {
    type V = Map<Seq<char>, BindingView>;

    open spec fn view(&self) -> Map<Seq<char>, BindingView> {
        bindings_of(self.entries@)
    }
}

impl Clone for Frame {
    fn clone(&self) -> (r: Frame)
        ensures
            r@ == self@,
    {
        let mut entries: Vec<Entry> = Vec::new();
        let mut i: usize = 0;
        while i < self.entries.len()
            invariant
                i <= self.entries.len(),
                entries.len() == i,
                forall|j: int|
                    0 <= j < i ==> entries[j].name@ == self.entries[j].name@
                        && entries[j].binding@ == self.entries[j].binding@,
            decreases self.entries.len() - i,
        {
            entries.push(self.entries[i].clone());
            i += 1;
        }
        proof {
            lemma_same_entries(entries@, self.entries@);
        }
        Frame { entries }
    }
}

impl Frame {
    /// A frame without bindings.
    pub fn new() -> (r: Frame)
        ensures
            r@ == Map::<Seq<char>, BindingView>::empty(),
    {
        Frame { entries: Vec::new() }
    }

    /// The place of the entry that binds the name, if the frame binds it.
    fn position(&self, name: &String) -> (r: Option<usize>)
        ensures
            r is Some == self@.contains_key(name@),
            match r {
                Some(at) => {
                    &&& at < self.entries.len()
                    &&& self.entries[at as int].name@ == name@
                    &&& self.entries[at as int].binding@ == self@[name@]
                    &&& forall|j: int|
                        at < j < self.entries.len() ==> self.entries[j].name@ != name@
                },
                None => true,
            },
    {
        let mut i: usize = self.entries.len();
        while i > 0
            invariant
                i <= self.entries.len(),
                forall|j: int| i <= j < self.entries.len() ==> self.entries[j].name@ != name@,
            decreases i,
        {
            i -= 1;
            if self.entries[i].name == *name {
                proof {
                    lemma_later_entries_do_not_matter(self.entries@, name@, i + 1);
                    assert(self.entries@.subrange(0, i + 1).drop_last() =~= self.entries@.subrange(
                        0,
                        i as int,
                    ));
                }
                return Some(i);
            }
        }
        proof {
            lemma_later_entries_do_not_matter(self.entries@, name@, 0);
        }
        None
    }

    /// Whether the frame binds the name.
    pub fn contains(&self, name: &String) -> (r: bool)
        ensures
            r == self@.contains_key(name@),
    {
        self.position(name).is_some()
    }

    /// What the frame binds the name to, if it binds it.
    pub fn get(&self, name: &String) -> (r: Option<&Binding>)
        ensures
            r is Some == self@.contains_key(name@),
            r is Some ==> r->0@ == self@[name@],
    {
        match self.position(name) {
            Some(at) => Some(&self.entries[at].binding),
            None => None,
        }
    }

    /// Binds the name, in place of what it was bound to before.
    pub fn insert(&mut self, name: String, binding: Binding)
        ensures
            final(self)@ == old(self)@.insert(name@, binding@),
    {
        match self.position(&name) {
            Some(at) => {
                let entry = Entry { name, binding };
                proof {
                    lemma_replace_last_occurrence(self.entries@, at as int, entry);
                }
                self.entries.set(at, entry);
            },
            None => {
                let entry = Entry { name, binding };
                assert(self.entries@.push(entry).drop_last() =~= self.entries@);
                self.entries.push(entry);
            },
        }
    }
}

/// The frame stack as a mathematical value: the innermost frame is the last.
pub type Memory = Seq<Map<Seq<char>, BindingView>>;

/// The index of the innermost frame that binds the name.
pub open spec fn innermost(mem: Memory, name: Seq<char>) -> Option<int>
    decreases mem.len(),
{
    if mem.len() == 0 {
        None
    } else if mem.last().contains_key(name) {
        Some(mem.len() - 1)
    } else {
        innermost(mem.drop_last(), name)
    }
}

/// The value that the innermost binding of the name holds.
pub open spec fn lookup(mem: Memory, name: Seq<char>) -> Result<Term, RuntimeErrorView> {
    match innermost(mem, name) {
        Some(i) => Ok(mem[i][name].value()),
        None => Err(RuntimeErrorView::VariableNotFound(name)),
    }
}

/// Whether any frame binds the name.
pub open spec fn bound(mem: Memory, name: Seq<char>) -> bool {
    innermost(mem, name) is Some
}

/// The stack after the name is bound in the top frame; without a frame there
/// is nowhere to bind it, and `purpose` tells what the frame was wanted for.
pub open spec fn allocate(mem: Memory, name: Seq<char>, binding: BindingView, purpose: Seq<char>)
    -> Result<Memory, RuntimeErrorView> {
    if mem.len() == 0 {
        Err(RuntimeErrorView::InvalidMemoryState(purpose))
    } else {
        Ok(mem.update(mem.len() - 1, mem.last().insert(name, binding)))
    }
}

/// The stack after the innermost binding of the name takes a new value: only
/// a mutable binding takes one.
pub open spec fn reassign(mem: Memory, name: Seq<char>, value: Term) -> Result<
    Memory,
    RuntimeErrorView,
> {
    match innermost(mem, name) {
        Some(i) => match mem[i][name] {
            BindingView::Var(_) => Ok(mem.update(i, mem[i].insert(name, BindingView::Var(value)))),
            BindingView::Const(_) => Err(RuntimeErrorView::InvalidConstAssignment(value, name)),
        },
        None => Err(RuntimeErrorView::VariableNotFound(name)),
    }
}

/// The stack with one more, empty, frame on top.
pub open spec fn pushed(mem: Memory) -> Memory {
    mem.push(Map::empty())
}

/// The stack without its top frame; an empty stack stays empty.
pub open spec fn popped(mem: Memory) -> Memory {
    if mem.len() == 0 {
        mem
    } else {
        mem.drop_last()
    }
}

/// What `innermost` returns is a frame that binds the name, with none above
/// it that does; it returns nothing only where no frame binds the name.
pub proof fn lemma_innermost(mem: Memory, name: Seq<char>)
    ensures
        match innermost(mem, name) {
            Some(i) => {
                &&& 0 <= i < mem.len()
                &&& mem[i].contains_key(name)
                &&& forall|j: int| i < j < mem.len() ==> !mem[j].contains_key(name)
            },
            None => forall|j: int| 0 <= j < mem.len() ==> !mem[j].contains_key(name),
        },
    decreases mem.len(),
{
    if mem.len() > 0 && !mem.last().contains_key(name) {
        let below = mem.drop_last();
        lemma_innermost(below, name);
        assert(forall|j: int| 0 <= j < below.len() ==> below[j] == mem[j]);
        match innermost(below, name) {
            Some(i) => {
                assert forall|j: int| i < j < mem.len() implies !mem[j].contains_key(name) by {
                    if j < below.len() {
                        assert(below[j] == mem[j]);
                    }
                }
            },
            None => {
                assert forall|j: int| 0 <= j < mem.len() implies !mem[j].contains_key(name) by {
                    if j < below.len() {
                        assert(below[j] == mem[j]);
                    }
                }
            },
        }
    }
}

/// A frame that binds the name, with none above it that does, is the one that
/// `innermost` returns.
pub proof fn lemma_innermost_is(mem: Memory, name: Seq<char>, i: int)
    requires
        0 <= i < mem.len(),
        mem[i].contains_key(name),
        forall|j: int| i < j < mem.len() ==> !mem[j].contains_key(name),
    ensures
        innermost(mem, name) == Some(i),
    decreases mem.len(),
{
    if i < mem.len() - 1 {
        lemma_innermost_is(mem.drop_last(), name, i);
    }
}

/// The environment: a stack of frames, the innermost last.
#[derive(Debug)]
pub struct State {
    pub mem: Vec<Frame>,
}

impl View for State {
    type V = Memory;

    open spec fn view(&self) -> Memory {
        Seq::new(self.mem.len() as nat, |i: int| self.mem[i]@)
    }
}

impl Clone for State {
    fn clone(&self) -> (r: State)
        ensures
            r@ == self@,
    {
        let mut mem: Vec<Frame> = Vec::new();
        let mut i: usize = 0;
        while i < self.mem.len()
            invariant
                i <= self.mem.len(),
                mem.len() == i,
                forall|j: int| 0 <= j < i ==> mem[j]@ == self.mem[j]@,
            decreases self.mem.len() - i,
        {
            mem.push(self.mem[i].clone());
            i += 1;
        }
        let r = State { mem };
        assert(r@ =~= self@);
        r
    }
}

impl State {
    /// The environment of a new session: one empty root frame.
    pub fn new() -> (r: State)
        ensures
            r@ == seq![Map::<Seq<char>, BindingView>::empty()],
    {
        let mut mem: Vec<Frame> = Vec::new();
        mem.push(Frame::new());
        let r = State { mem };
        assert(r@ =~= seq![Map::<Seq<char>, BindingView>::empty()]);
        r
    }

    /// The index of the innermost frame that binds the name.
    fn first_map_for(&self, x: &String) -> (r: Option<usize>)
        ensures
            match r {
                Some(i) => {
                    &&& innermost(self@, x@) == Some(i as int)
                    &&& i < self.mem.len()
                    &&& self.mem[i as int]@.contains_key(x@)
                },
                None => innermost(self@, x@) is None,
            },
    {
        let mut i: usize = self.mem.len();
        while i > 0
            invariant
                i <= self.mem.len(),
                forall|j: int| i <= j < self.mem.len() ==> !self@[j].contains_key(x@),
            decreases i,
        {
            i -= 1;
            if self.mem[i].contains(x) {
                proof {
                    lemma_innermost_is(self@, x@, i as int);
                }
                return Some(i);
            }
        }
        proof {
            lemma_innermost(self@, x@);
        }
        None
    }

    /// Binds the name in the top frame to a value that may be assigned again.
    pub fn alloc_var(&mut self, x: String, v1: Expr) -> (r: Result<(), RuntimeError>)
        ensures
            match allocate(
                old(self)@,
                x@,
                BindingView::Var(v1@),
                "no memory frame for var allocation"@,
            ) {
                Ok(mem) => r is Ok && final(self)@ == mem,
                Err(e) => r is Err && r->Err_0@ == e && final(self)@ == old(self)@,
            },
    {
        self.bind(x, Binding::Var(v1), "no memory frame for var allocation")
    }

    /// Binds the name in the top frame to a value that stays.
    pub fn alloc_const(&mut self, x: String, v1: Expr) -> (r: Result<(), RuntimeError>)
        ensures
            match allocate(
                old(self)@,
                x@,
                BindingView::Const(v1@),
                "no memory frame for const allocation"@,
            ) {
                Ok(mem) => r is Ok && final(self)@ == mem,
                Err(e) => r is Err && r->Err_0@ == e && final(self)@ == old(self)@,
            },
    {
        self.bind(x, Binding::Const(v1), "no memory frame for const allocation")
    }

    /// Binds the name in the top frame.
    fn bind(&mut self, x: String, binding: Binding, purpose: &str) -> (r: Result<
        (),
        RuntimeError,
    >)
        ensures
            match allocate(old(self)@, x@, binding@, purpose@) {
                Ok(mem) => r is Ok && final(self)@ == mem,
                Err(e) => r is Err && r->Err_0@ == e && final(self)@ == old(self)@,
            },
    {
        match self.mem.pop() {
            Some(top) => {
                let mut top = top;
                top.insert(x, binding);
                self.mem.push(top);
                assert(self@ =~= old(self)@.update(
                    old(self)@.len() - 1,
                    old(self)@.last().insert(x@, binding@),
                ));
                Ok(())
            },
            None => {
                assert(self@ =~= old(self)@);
                Err(RuntimeError::InvalidMemoryState(String::from_str(purpose)))
            },
        }
    }

    /// Gives the innermost binding of the name a new value.
    pub fn assign(&mut self, x: String, v1: Expr) -> (r: Result<(), RuntimeError>)
        ensures
            match reassign(old(self)@, x@, v1@) {
                Ok(mem) => r is Ok && final(self)@ == mem,
                Err(e) => r is Err && r->Err_0@ == e && final(self)@ == old(self)@,
            },
    {
        match self.first_map_for(&x) {
            Some(i) => {
                let mutable = match self.mem[i].get(&x) {
                    Some(Binding::Var(_)) => true,
                    _ => false,
                };
                if mutable {
                    self.mem[i].insert(x, Binding::Var(v1));
                    assert(self@ =~= old(self)@.update(
                        i as int,
                        old(self)@[i as int].insert(x@, BindingView::Var(v1@)),
                    ));
                    Ok(())
                } else {
                    Err(RuntimeError::InvalidConstAssignment(v1, x))
                }
            },
            None => Err(RuntimeError::VariableNotFound(x)),
        }
    }

    /// A copy of the value that the innermost binding of the name holds.
    pub fn get(&self, x: String) -> (r: Result<Expr, RuntimeError>)
        ensures
            match lookup(self@, x@) {
                Ok(v) => r is Ok && r->Ok_0@ == v,
                Err(e) => r is Err && r->Err_0@ == e,
            },
    {
        match self.first_map_for(&x) {
            Some(i) => match self.mem[i].get(&x) {
                Some(Binding::Var(v)) => Ok(v.clone()),
                Some(Binding::Const(v)) => Ok(v.clone()),
                None => Err(RuntimeError::VariableNotFound(x)),
            },
            None => Err(RuntimeError::VariableNotFound(x)),
        }
    }

    /// Whether any frame binds the name.
    pub fn contains(&self, x: String) -> (r: bool)
        ensures
            r == bound(self@, x@),
    {
        self.first_map_for(&x).is_some()
    }

    /// Pushes an empty frame.
    pub fn begin_scope(&mut self)
        ensures
            final(self)@ == pushed(old(self)@),
    {
        self.mem.push(Frame::new());
        assert(self@ =~= pushed(old(self)@));
    }

    /// Pops the top frame, if there is one.
    pub fn end_scope(&mut self)
        ensures
            final(self)@ == popped(old(self)@),
    {
        self.mem.pop();
        assert(self@ =~= popped(old(self)@));
    }
}

} // verus!
