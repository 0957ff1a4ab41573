//! Operational transformation of text edits.
//!
//! Every position is a byte offset into the UTF-8 text. An edit made by one
//! user against an older text is moved over the edits of the other users
//! (`transform_index`, `transform_actions`) and then replayed on the current
//! text (`apply_actions`).
use vstd::prelude::*;
use vstd::utf8::*;

use crate::text::{bytes_of, push_range, string_from_valid_utf8, utf8, lemma_valid_splice, lemma_valid_cut, lemma_valid_prefix};

verus! {

/// One edit of a text, made by `owner`.
#[derive(Clone, Debug)]
pub enum Action {
    /// `text` is inserted at byte offset `from`.
    Insertion { from: usize, text: String, owner: String },
    /// The bytes `from..to` are removed.
    Deletion { from: usize, to: usize, owner: String },
}

/// The mathematical value of an [`Action`].
pub ghost enum ActionView {
    Insertion { from: int, text: Seq<char>, owner: Seq<char> },
    Deletion { from: int, to: int, owner: Seq<char> },
}

impl View for Action {
    type V = ActionView;

    open spec fn view(&self) -> ActionView {
        match self {
            Action::Insertion { from, text, owner } => ActionView::Insertion {
                from: *from as int,
                text: text@,
                owner: owner@,
            },
            Action::Deletion { from, to, owner } => ActionView::Deletion {
                from: *from as int,
                to: *to as int,
                owner: owner@,
            },
        }
    }
}

impl ActionView {
    pub open spec fn owner(self) -> Seq<char> {
        match self {
            ActionView::Insertion { owner, .. } => owner,
            ActionView::Deletion { owner, .. } => owner,
        }
    }
}

/// The views of a sequence of actions.
pub open spec fn views(s: Seq<Action>) -> Seq<ActionView> {
    Seq::new(s.len(), |i: int| s[i]@)
}

// ---------------------------------------------------------------------------
// Moving a position over a history of edits
// ---------------------------------------------------------------------------

/// Where position `t` of `owner` lands after the edit `a`.
///
/// Edits of the same owner are ignored; a deletion that ends before `t`
/// shifts it left by its length; an insertion at or before `t` shifts it
/// right by the byte length of the inserted text.
pub open spec fn transform_step(t: int, owner: Seq<char>, a: ActionView) -> int {
    match a {
        ActionView::Deletion { from, to, owner: o } => {
            if o == owner {
                t
            } else if to < t {
                t - (to - from)
            } else {
                t
            }
        },
        ActionView::Insertion { from, text, owner: o } => {
            if o == owner {
                t
            } else if from <= t {
                t + utf8(text).len()
            } else {
                t
            }
        },
    }
}

/// The step neither subtracts a reversed range nor overflows a `usize`.
pub open spec fn transform_step_ok(t: int, owner: Seq<char>, a: ActionView) -> bool {
    match a {
        ActionView::Deletion { from, to, owner: o } => o == owner || !(to < t) || from <= to,
        ActionView::Insertion { from, text, owner: o } => o == owner || !(from <= t) || t
            + utf8(text).len() <= usize::MAX,
    }
}

/// Position `idx` of `owner` moved over every edit of `history`, in order.
pub open spec fn transform_spec(idx: int, owner: Seq<char>, history: Seq<ActionView>) -> int
    decreases history.len(),
{
    if history.len() == 0 {
        idx
    } else {
        transform_spec(transform_step(idx, owner, history[0]), owner, history.drop_first())
    }
}

/// Every step of `transform_spec` can be computed in a `usize` without a
/// panic.
pub open spec fn transform_ok(idx: int, owner: Seq<char>, history: Seq<ActionView>) -> bool
    decreases history.len(),
{
    history.len() == 0 || (transform_step_ok(idx, owner, history[0]) && transform_ok(
        transform_step(idx, owner, history[0]),
        owner,
        history.drop_first(),
    ))
}

/// Moves the position `idx` of `idx_owner` over the edits in `history`.
pub fn transform_index(idx: usize, idx_owner: &String, history: &[Action]) -> (res: usize)
    requires
        transform_ok(idx as int, idx_owner@, views(history@)),
    ensures
        res == transform_spec(idx as int, idx_owner@, views(history@)),
{
    let ghost h = views(history@);
    let mut transformed = idx;
    let mut i: usize = 0;
    assert(h.skip(0) =~= h);
    while i < history.len()
        invariant
            i <= history@.len(),
            h == views(history@),
            transform_ok(transformed as int, idx_owner@, h.skip(i as int)),
            transform_spec(transformed as int, idx_owner@, h.skip(i as int)) == transform_spec(
                idx as int,
                idx_owner@,
                h,
            ),
        decreases history@.len() - i,
    {
        let ghost rest = h.skip(i as int);
        assert(rest[0] == history@[i as int]@);
        assert(rest.drop_first() =~= h.skip(i + 1));
        assert(transform_step_ok(transformed as int, idx_owner@, rest[0]));
        match &history[i] {
            Action::Deletion { from, to, owner } => {
                if *owner == *idx_owner {
                } else if *to < transformed {
                    transformed = transformed - (*to - *from);
                }
            },
            Action::Insertion { from, text, owner } => {
                if *owner == *idx_owner {
                } else if *from <= transformed {
                    let len = text.as_str().as_bytes().len();
                    transformed = transformed + len;
                }
            },
        }
        i = i + 1;
    }
    assert(h.skip(i as int).len() == 0);
    transformed
}

/// An action moved over `history`: its start moves as a position of its
/// owner, and a deletion keeps its length.
pub open spec fn transform_action(a: ActionView, history: Seq<ActionView>) -> ActionView {
    match a {
        ActionView::Insertion { from, text, owner } => ActionView::Insertion {
            from: transform_spec(from, owner, history),
            text,
            owner,
        },
        ActionView::Deletion { from, to, owner } => {
            let nf = transform_spec(from, owner, history);
            ActionView::Deletion { from: nf, to: nf + (to - from), owner }
        },
    }
}

/// Transforming `a` neither underflows nor overflows.
pub open spec fn transform_action_ok(a: ActionView, history: Seq<ActionView>) -> bool {
    match a {
        ActionView::Insertion { from, owner, .. } => transform_ok(from, owner, history),
        ActionView::Deletion { from, to, owner } => {
            &&& from <= to
            &&& transform_ok(from, owner, history)
            &&& transform_spec(from, owner, history) + (to - from) <= usize::MAX
        },
    }
}

/// Moves every action in `actions` over the edits in `history`.
pub fn transform_actions(actions: &mut [Action], history: &[Action])
    requires
        forall|i: int|
            0 <= i < old(actions)@.len() ==> transform_action_ok(
                #[trigger] old(actions)@[i]@,
                views(history@),
            ),
    ensures
        final(actions)@.len() == old(actions)@.len(),
        forall|i: int|
            0 <= i < old(actions)@.len() ==> #[trigger] final(actions)@[i]@ == transform_action(
                old(actions)@[i]@,
                views(history@),
            ),
{
    let ghost orig = actions@;
    let mut i: usize = 0;
    while i < actions.len()
        invariant
            i <= actions@.len(),
            actions@.len() == orig.len(),
            forall|j: int| 0 <= j < orig.len() ==> transform_action_ok(#[trigger] orig[j]@, views(history@)),
            forall|j: int|
                i <= j < orig.len() ==> #[trigger] actions@[j] == orig[j],
            forall|j: int|
                0 <= j < i ==> #[trigger] actions@[j]@ == transform_action(orig[j]@, views(history@)),
        decreases orig.len() - i,
    {
        assert(actions@[i as int] == orig[i as int]);
        assert(transform_action_ok(orig[i as int]@, views(history@)));
        let next = match &actions[i] {
            Action::Insertion { from, text, owner } => {
                let nf = transform_index(*from, owner, history);
                Action::Insertion { from: nf, text: text.clone(), owner: owner.clone() }
            },
            Action::Deletion { from, to, owner } => {
                let len = *to - *from;
                let nf = transform_index(*from, owner, history);
                Action::Deletion { from: nf, to: nf + len, owner: owner.clone() }
            },
        };
        actions[i] = next;
        i = i + 1;
    }
}

// ---------------------------------------------------------------------------
// Replaying edits on a text
// ---------------------------------------------------------------------------

/// The bytes of `t` after the edit `a`.
///
/// An insertion past the end appends; a deletion reaching past the end
/// removes as many trailing bytes as the deletion is long.
pub open spec fn apply_step(t: Seq<u8>, a: ActionView) -> Seq<u8> {
    match a {
        ActionView::Insertion { from, text, .. } => {
            if from < t.len() {
                t.take(from) + utf8(text) + t.skip(from)
            } else {
                t + utf8(text)
            }
        },
        ActionView::Deletion { from, to, .. } => {
            if to < t.len() {
                t.take(from) + t.skip(to)
            } else {
                t.take(t.len() - min_int(t.len() as int, to - from))
            }
        },
    }
}

pub open spec fn min_int(a: int, b: int) -> int {
    if a <= b {
        a
    } else {
        b
    }
}

/// The edit `a` can be made on `t` without a panic: positions fall on char
/// boundaries, deletions are not reversed, and the text fits in memory.
pub open spec fn apply_step_ok(t: Seq<u8>, a: ActionView) -> bool {
    match a {
        ActionView::Insertion { from, text, .. } => {
            &&& from < t.len() ==> is_char_boundary(t, from)
            &&& t.len() + utf8(text).len() <= usize::MAX
        },
        ActionView::Deletion { from, to, .. } => {
            &&& from <= to
            &&& if to < t.len() {
                is_char_boundary(t, from) && is_char_boundary(t, to)
            } else {
                is_char_boundary(t, t.len() - min_int(t.len() as int, to - from))
            }
        },
    }
}

/// The bytes of `t` after every edit of `actions`, in order.
pub open spec fn apply_spec(t: Seq<u8>, actions: Seq<ActionView>) -> Seq<u8>
    decreases actions.len(),
{
    if actions.len() == 0 {
        t
    } else {
        apply_spec(apply_step(t, actions[0]), actions.drop_first())
    }
}

/// Every edit of `actions` can be made in turn without a panic.
pub open spec fn apply_ok(t: Seq<u8>, actions: Seq<ActionView>) -> bool
    decreases actions.len(),
{
    actions.len() == 0 || (apply_step_ok(t, actions[0]) && apply_ok(
        apply_step(t, actions[0]),
        actions.drop_first(),
    ))
}

proof fn lemma_apply_step_valid(t: Seq<u8>, a: ActionView)
    requires
        valid_utf8(t),
        apply_step_ok(t, a),
    ensures
        valid_utf8(apply_step(t, a)),
{
    match a {
        ActionView::Insertion { from, text, .. } => {
            encode_utf8_valid_utf8(text);
            if from < t.len() {
                lemma_valid_splice(t, from, utf8(text));
            } else {
                valid_utf8_concat(t, utf8(text));
            }
        },
        ActionView::Deletion { from, to, .. } => {
            if to < t.len() {
                lemma_valid_cut(t, from, to);
            } else {
                lemma_valid_prefix(t, t.len() - min_int(t.len() as int, to - from));
            }
        },
    }
}

/// Makes the edit `a` on the bytes `t`.
fn apply_one(t: &Vec<u8>, a: &Action) -> (res: Vec<u8>)
    requires
        apply_step_ok(t@, a@),
    ensures
        res@ == apply_step(t@, a@),
{
    let mut out: Vec<u8> = Vec::new();
    match a {
        Action::Insertion { from, text, .. } => {
            let ins = text.as_str().as_bytes();
            if *from < t.len() {
                push_range(&mut out, t.as_slice(), 0, *from);
                push_range(&mut out, ins, 0, ins.len());
                push_range(&mut out, t.as_slice(), *from, t.len());
            } else {
                push_range(&mut out, t.as_slice(), 0, t.len());
                push_range(&mut out, ins, 0, ins.len());
            }
            assert(ins@.subrange(0, ins@.len() as int) =~= ins@);
            assert(t@.subrange(0, t@.len() as int) =~= t@);
            assert(t@.subrange(0, *from as int) =~= t@.take(*from as int));
            assert(t@.subrange(*from as int, t@.len() as int) =~= t@.skip(*from as int));
        },
        Action::Deletion { from, to, .. } => {
            if *to < t.len() {
                push_range(&mut out, t.as_slice(), 0, *from);
                push_range(&mut out, t.as_slice(), *to, t.len());
                assert(t@.subrange(0, *from as int) =~= t@.take(*from as int));
                assert(t@.subrange(*to as int, t@.len() as int) =~= t@.skip(*to as int));
            } else {
                let n = *to - *from;
                let keep = if n < t.len() {
                    t.len() - n
                } else {
                    0
                };
                push_range(&mut out, t.as_slice(), 0, keep);
                assert(t@.subrange(0, keep as int) =~= t@.take(keep as int));
            }
        },
    }
    out
}

/// Replays `actions`, in order, on `text`.
pub fn apply_actions(text: &str, actions: &[Action]) -> (res: String)
    requires
        apply_ok(utf8(text@), views(actions@)),
    ensures
        utf8(res@) == apply_spec(utf8(text@), views(actions@)),
{
    let ghost h = views(actions@);
    let mut output = bytes_of(text);
    proof {
        encode_utf8_valid_utf8(text@);
    }
    let mut i: usize = 0;
    assert(h.skip(0) =~= h);
    while i < actions.len()
        invariant
            i <= actions@.len(),
            h == views(actions@),
            valid_utf8(output@),
            apply_ok(output@, h.skip(i as int)),
            apply_spec(output@, h.skip(i as int)) == apply_spec(utf8(text@), h),
        decreases actions@.len() - i,
    {
        let ghost rest = h.skip(i as int);
        assert(rest[0] == actions@[i as int]@);
        assert(rest.drop_first() =~= h.skip(i + 1));
        proof {
            lemma_apply_step_valid(output@, rest[0]);
        }
        output = apply_one(&output, &actions[i]);
        i = i + 1;
    }
    assert(h.skip(i as int).len() == 0);
    string_from_valid_utf8(output)
}


// ---------------------------------------------------------------------------
// Laws
// ---------------------------------------------------------------------------

/// A user's own edits never move that user's positions: over a history made
/// only of `owner`'s edits, every position stays where it is.
pub proof fn law_own_history_is_ignored(idx: int, owner: Seq<char>, history: Seq<ActionView>)
    requires
        forall|i: int| 0 <= i < history.len() ==> (#[trigger] history[i]).owner() == owner,
    ensures
        transform_spec(idx, owner, history) == idx,
    decreases history.len(),
{
    if history.len() > 0 {
        let rest = history.drop_first();
        assert forall|i: int| 0 <= i < rest.len() implies (#[trigger] rest[i]).owner() == owner by {
            assert(rest[i] == history[i + 1]);
        }
        assert(history[0].owner() == owner);
        law_own_history_is_ignored(idx, owner, rest);
    }
}

/// Moving a position over two histories one after the other is the same as
/// moving it over their concatenation.
pub proof fn law_transform_over_concatenation(
    idx: int,
    owner: Seq<char>,
    h1: Seq<ActionView>,
    h2: Seq<ActionView>,
)
    ensures
        transform_spec(idx, owner, h1 + h2) == transform_spec(
            transform_spec(idx, owner, h1),
            owner,
            h2,
        ),
    decreases h1.len(),
{
    if h1.len() == 0 {
        assert(h1 + h2 =~= h2);
    } else {
        assert((h1 + h2)[0] == h1[0]);
        assert((h1 + h2).drop_first() =~= h1.drop_first() + h2);
        law_transform_over_concatenation(
            transform_step(idx, owner, h1[0]),
            owner,
            h1.drop_first(),
            h2,
        );
    }
}

/// Edits that start after a position leave it in place: when every foreign
/// insertion starts after `idx` and every foreign deletion ends at or after
/// `idx`, the position does not move.
pub proof fn law_edits_after_position_are_ignored(
    idx: int,
    owner: Seq<char>,
    history: Seq<ActionView>,
)
    requires
        forall|i: int|
            0 <= i < history.len() ==> match #[trigger] history[i] {
                ActionView::Insertion { from, owner: o, .. } => o == owner || from > idx,
                ActionView::Deletion { to, owner: o, .. } => o == owner || to >= idx,
            },
    ensures
        transform_spec(idx, owner, history) == idx,
    decreases history.len(),
{
    if history.len() > 0 {
        let rest = history.drop_first();
        assert forall|i: int| 0 <= i < rest.len() implies match #[trigger] rest[i] {
            ActionView::Insertion { from, owner: o, .. } => o == owner || from > idx,
            ActionView::Deletion { to, owner: o, .. } => o == owner || to >= idx,
        } by {
            assert(rest[i] == history[i + 1]);
        }
        let h0 = history[0];
        assert(match h0 {
            ActionView::Insertion { from, owner: o, .. } => o == owner || from > idx,
            ActionView::Deletion { to, owner: o, .. } => o == owner || to >= idx,
        });
        law_edits_after_position_are_ignored(idx, owner, rest);
    }
}

/// Replaying no edit leaves the text as it is.
pub proof fn law_apply_nothing(t: Seq<u8>)
    ensures
        apply_spec(t, Seq::<ActionView>::empty()) == t,
{
}

/// Replaying two lists of edits one after the other is the same as
/// replaying their concatenation.
pub proof fn law_apply_concatenation(t: Seq<u8>, a: Seq<ActionView>, b: Seq<ActionView>)
    ensures
        apply_spec(t, a + b) == apply_spec(apply_spec(t, a), b),
    decreases a.len(),
{
    if a.len() == 0 {
        assert(a + b =~= b);
    } else {
        assert((a + b)[0] == a[0]);
        assert((a + b).drop_first() =~= a.drop_first() + b);
        law_apply_concatenation(apply_step(t, a[0]), a.drop_first(), b);
    }
}

/// A deletion of exactly the bytes that an insertion inside the text just
/// added undoes that insertion.
pub proof fn law_delete_undoes_insert(
    t: Seq<u8>,
    at: int,
    text: Seq<char>,
    o1: Seq<char>,
    o2: Seq<char>,
)
    requires
        0 <= at < t.len(),
    ensures
        apply_spec(
            t,
            seq![
                ActionView::Insertion { from: at, text, owner: o1 },
                ActionView::Deletion { from: at, to: at + utf8(text).len(), owner: o2 },
            ],
        ) == t,
{
    let x = utf8(text);
    let ins = ActionView::Insertion { from: at, text, owner: o1 };
    let del = ActionView::Deletion { from: at, to: at + x.len(), owner: o2 };
    let acts = seq![ins, del];
    let t1 = t.take(at) + x + t.skip(at);
    assert(apply_step(t, ins) == t1);
    assert(t1.take(at) =~= t.take(at));
    assert(t1.skip(at + x.len()) =~= t.skip(at));
    assert(apply_step(t1, del) =~= t);
    assert(acts.drop_first() =~= seq![del]);
    assert(acts.drop_first().drop_first() =~= Seq::<ActionView>::empty());
    assert(acts[0] == ins);
    assert(acts.drop_first()[0] == del);
    assert(apply_spec(t1, acts.drop_first()) == apply_spec(
        apply_step(t1, del),
        acts.drop_first().drop_first(),
    ));
    assert(apply_spec(t1, acts.drop_first()) == t);
    assert(apply_spec(t, acts) == apply_spec(t1, acts.drop_first()));
}

/// Transforming an action moves only its position: its text, owner and,
/// for a deletion, its length stay as they are.
pub proof fn law_transform_keeps_content(a: ActionView, history: Seq<ActionView>)
    ensures
        transform_action(a, history).owner() == a.owner(),
        match (a, transform_action(a, history)) {
            (ActionView::Insertion { text: t1, .. }, ActionView::Insertion { text: t2, .. }) => t1
                == t2,
            (ActionView::Deletion { from: f1, to: e1, .. }, ActionView::Deletion { from: f2, to: e2, .. }) =>
                e1 - f1 == e2 - f2,
            _ => false,
        },
{
}


/// Over one edit of another user: an insertion at or before the position
/// pushes it right by the inserted bytes, one after it leaves it; a
/// deletion that ends before the position pulls it left by the deleted
/// bytes, one that reaches it or lies after it leaves it. The user's own
/// edits leave it in any case.
pub proof fn law_one_foreign_edit(idx: int, owner: Seq<char>, other: Seq<char>, from: int, to: int, text: Seq<char>)
    requires
        other != owner,
    ensures
        from <= idx ==> transform_spec(idx, owner, seq![ActionView::Insertion { from, text, owner: other }])
            == idx + utf8(text).len(),
        from > idx ==> transform_spec(idx, owner, seq![ActionView::Insertion { from, text, owner: other }])
            == idx,
        to < idx ==> transform_spec(idx, owner, seq![ActionView::Deletion { from, to, owner: other }])
            == idx - (to - from),
        to >= idx ==> transform_spec(idx, owner, seq![ActionView::Deletion { from, to, owner: other }])
            == idx,
        transform_spec(idx, owner, seq![ActionView::Insertion { from, text, owner }]) == idx,
        transform_spec(idx, owner, seq![ActionView::Deletion { from, to, owner }]) == idx,
{
    reveal_with_fuel(transform_spec, 2);
    assert(seq![ActionView::Insertion { from, text, owner: other }].drop_first() =~= Seq::<ActionView>::empty());
    assert(seq![ActionView::Deletion { from, to, owner: other }].drop_first() =~= Seq::<ActionView>::empty());
    assert(seq![ActionView::Insertion { from, text, owner }].drop_first() =~= Seq::<ActionView>::empty());
    assert(seq![ActionView::Deletion { from, to, owner }].drop_first() =~= Seq::<ActionView>::empty());
}

} // verus!
