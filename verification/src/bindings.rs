//! Actions that keys can be bound to, and tables of such bindings.
use vstd::prelude::*;

use crate::text::str_eq;

verus! {

/// Named arguments of an action. Of arguments with the same name the first counts.
pub type ActionArgs = Vec<(String, String)>;

/// What a key is bound to.
#[derive(Debug, PartialEq, Eq)]
pub enum ActionReference {
    /// An action without arguments.
    Simple(String),
    /// An action with arguments.
    WithArgs { action: String, args: Option<ActionArgs> },
    /// A binding that was taken away.
    Removed,
}

/// The mathematical model of an [`ActionReference`].
pub enum ActionReferenceView {
    Simple(Seq<char>),
    WithArgs { action: Seq<char>, args: Option<Seq<(Seq<char>, Seq<char>)>> },
    Removed,
}

/// The names and values of a list of arguments.
pub open spec fn args_seq(args: Seq<(String, String)>) -> Seq<(Seq<char>, Seq<char>)> {
    args.map_values(|p: (String, String)| (p.0@, p.1@))
}

/// The names and values of optional arguments.
pub open spec fn args_view(args: Option<ActionArgs>) -> Option<Seq<(Seq<char>, Seq<char>)>> {
    match args {
        Some(v) => Some(args_seq(v@)),
        None => None,
    }
}

impl View for ActionReference {
    type V = ActionReferenceView;

    open spec fn view(&self) -> ActionReferenceView {
        match self {
            ActionReference::Simple(s) => ActionReferenceView::Simple(s@),
            ActionReference::WithArgs { action, args } => ActionReferenceView::WithArgs {
                action: action@,
                args: args_view(*args),
            },
            ActionReference::Removed => ActionReferenceView::Removed,
        }
    }
}

/// Copies a list of arguments.
pub fn clone_args(args: &ActionArgs) -> (r: ActionArgs)
    ensures
        args_seq(r@) == args_seq(args@),
{
    let mut out: ActionArgs = Vec::new();
    let mut i: usize = 0;
    while i < args.len()
        invariant
            i <= args@.len(),
            out@.len() == i,
            forall|j: int| 0 <= j < i ==> out@[j].0@ == args@[j].0@ && out@[j].1@ == args@[j].1@,
        decreases args.len() - i,
    {
        out.push((args[i].0.clone(), args[i].1.clone()));
        i += 1;
    }
    assert(args_seq(out@) =~= args_seq(args@));
    out
}

/// Copies optional arguments.
pub fn clone_opt_args(args: &Option<ActionArgs>) -> (r: Option<ActionArgs>)
    ensures
        args_view(r) == args_view(*args),
{
    match args {
        Some(v) => Some(clone_args(v)),
        None => None,
    }
}

impl Clone for ActionReference {
    fn clone(&self) -> (r: Self)
        ensures
            r@ == self@,
    {
        match self {
            ActionReference::Simple(s) => ActionReference::Simple(s.clone()),
            ActionReference::WithArgs { action, args } => ActionReference::WithArgs {
                action: action.clone(),
                args: clone_opt_args(args),
            },
            ActionReference::Removed => ActionReference::Removed,
        }
    }
}

/// The value that the first argument named `name` has.
pub open spec fn arg_value(args: Seq<(Seq<char>, Seq<char>)>, name: Seq<char>) -> Option<Seq<char>>
    decreases args.len(),
{
    if args.len() == 0 {
        None
    } else if args[0].0 == name {
        Some(args[0].1)
    } else {
        arg_value(args.drop_first(), name)
    }
}

/// Looks an argument up by its name.
pub fn get_arg<'a>(args: &'a ActionArgs, name: &str) -> (r: Option<&'a String>)
    ensures
        match r {
            Some(v) => arg_value(args_seq(args@), name@) == Some(v@),
            None => arg_value(args_seq(args@), name@) is None,
        },
{
    let mut i: usize = 0;
    assert(args_seq(args@).skip(0) =~= args_seq(args@));
    while i < args.len()
        invariant
            i <= args@.len(),
            arg_value(args_seq(args@).skip(i as int), name@) == arg_value(args_seq(args@), name@),
        decreases args.len() - i,
    {
        assert(args_seq(args@).skip(i as int)[0] == args_seq(args@)[i as int]);
        assert(args_seq(args@).skip(i as int).drop_first() =~= args_seq(args@).skip(i + 1));
        if str_eq(args[i].0.as_str(), name) {
            return Some(&args[i].1);
        }
        i += 1;
    }
    None
}

/// A table of key bindings with every preset already expanded.
#[derive(Debug)]
pub struct BindingsDefinition {
    /// The prefix key, in key spec notation.
    pub prefix: Option<String>,
    /// How long the prefix stays active, in milliseconds.
    pub prefix_timeout: Option<u32>,
    /// Chord key to action.
    pub chords: Option<Vec<(String, ActionReference)>>,
    /// Key spec to action.
    pub keys: Option<Vec<(String, ActionReference)>>,
}

/// The model of a table's rows.
pub open spec fn rows_view(rows: Seq<(String, ActionReference)>) -> Seq<
    (Seq<char>, ActionReferenceView),
> {
    rows.map_values(|p: (String, ActionReference)| (p.0@, p.1@))
}

/// The model of an optional table: a table that is not there has no rows.
pub open spec fn table_view(rows: Option<Vec<(String, ActionReference)>>) -> Seq<
    (Seq<char>, ActionReferenceView),
> {
    match rows {
        Some(v) => rows_view(v@),
        None => Seq::empty(),
    }
}

// ── Laws ─────────────────────────────────────────────────────────────────────

/// Of the arguments with a name the first counts, and a name that no argument has gives none.
pub proof fn law_first_argument_counts(
    args: Seq<(Seq<char>, Seq<char>)>,
    name: Seq<char>,
    i: int,
)
    requires
        0 <= i <= args.len(),
        forall|j: int| 0 <= j < i ==> (#[trigger] args[j]).0 != name,
        i < args.len() ==> args[i].0 == name,
    ensures
        arg_value(args, name) == (if i < args.len() {
            Some(args[i].1)
        } else {
            None
        }),
    decreases args.len(),
{
    if i > 0 {
        assert(args[0].0 != name);
        assert forall|j: int| 0 <= j < i - 1 implies (#[trigger] args.drop_first()[j]).0 != name by {
            assert(args[j + 1].0 != name);
        }
        law_first_argument_counts(args.drop_first(), name, i - 1);
    }
}

} // verus!
