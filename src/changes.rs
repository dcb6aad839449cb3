use vstd::prelude::*;

verus! {

/// A file moved from `from` to `to`: a step that can be undone.
#[derive(Debug)]
pub struct Change {
    pub from: String,
    pub to: String,
}

/// A filesystem operation for the caller to perform.
#[derive(Debug)]
pub enum Action {
    /// Move the file at `from` to `to`.
    Rename { from: String, to: String },
    /// Create at `link` a symbolic link that points to `target`.
    Symlink { target: String, link: String },
}

/// An `Action` over the characters of its paths.
pub enum ActionView {
    Rename { from: Seq<char>, to: Seq<char> },
    Symlink { target: Seq<char>, link: Seq<char> },
}

impl View for Action {
    type V = ActionView;

    open spec fn view(&self) -> ActionView {
        match self {
            Action::Rename { from, to } => ActionView::Rename { from: from@, to: to@ },
            Action::Symlink { target, link } => ActionView::Symlink {
                target: target@,
                link: link@,
            },
        }
    }
}

/// The paths of a change, source first.
pub open spec fn change_view(c: Change) -> (Seq<char>, Seq<char>) {
    (c.from@, c.to@)
}

/// The action that undoes a move: moving the file back.
pub open spec fn undo_of(c: (Seq<char>, Seq<char>)) -> ActionView {
    ActionView::Rename { from: c.1, to: c.0 }
}

/// The completed steps of one transfer, latest on top.
pub struct ChangeStack {
    changes: Vec<Change>,
}

impl View for ChangeStack {
    type V = Seq<(Seq<char>, Seq<char>)>;

    closed spec fn view(&self) -> Seq<(Seq<char>, Seq<char>)> {
        self.changes@.map_values(|c: Change| change_view(c))
    }
}

impl ChangeStack {
    /// A stack with no step on it.
    pub fn new() -> (r: ChangeStack)
        ensures
            r@ == Seq::<(Seq<char>, Seq<char>)>::empty(),
    {
        let r = ChangeStack { changes: Vec::new() };
        assert(r@ =~= Seq::<(Seq<char>, Seq<char>)>::empty());
        r
    }

    /// Records a completed step.
    pub fn push(&mut self, change: Change)
        ensures
            final(self)@ == old(self)@.push(change_view(change)),
    {
        let ghost before = self.changes@;
        self.changes.push(change);
        assert(self.changes@.map_values(|c: Change| change_view(c)) =~= before.map_values(
            |c: Change| change_view(c),
        ).push(change_view(change)));
    }

    /// Takes off the latest step, if any.
    pub fn pop(&mut self) -> (r: Option<Change>)
        ensures
            old(self)@.len() == 0 ==> r is None && final(self)@ == old(self)@,
            old(self)@.len() > 0 ==> (r matches Some(c) && change_view(c) == old(self)@.last()
                && final(self)@ == old(self)@.drop_last()),
    {
        let ghost before = self.changes@;
        let r = self.changes.pop();
        proof {
            if before.len() > 0 {
                assert(self.changes@.map_values(|c: Change| change_view(c)) =~= before.map_values(
                    |c: Change| change_view(c),
                ).drop_last());
            }
        }
        r
    }

    /// The number of recorded steps.
    pub fn len(&self) -> (r: usize)
        ensures
            r == self@.len(),
    {
        self.changes.len()
    }

    /// The actions that undo every recorded step, latest step first.
    pub fn revert(self) -> (r: Vec<Action>)
        ensures
            r@.len() == self@.len(),
            forall|k: int|
                0 <= k < r@.len() ==> #[trigger] r@[k]@ == undo_of(
                    self@[self@.len() - 1 - k],
                ),
    {
        let ghost s = self@;
        let mut stack = self;
        let mut r: Vec<Action> = Vec::new();
        while stack.len() > 0
            invariant
                r@.len() + stack@.len() == s.len(),
                stack@ == s.take(stack@.len() as int),
                forall|k: int|
                    0 <= k < r@.len() ==> #[trigger] r@[k]@ == undo_of(s[s.len() - 1 - k]),
            decreases stack@.len(),
        {
            let ghost top = stack@;
            let c = stack.pop();
            match c {
                Some(c) => {
                    proof {
                        assert(change_view(c) == s[top.len() - 1]);
                        assert(stack@ =~= s.take(stack@.len() as int));
                    }
                    r.push(Action::Rename { from: c.to, to: c.from });
                },
                None => {},
            }
        }
        r
    }
}

} // verus!
