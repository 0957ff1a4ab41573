//! The collaborative text of a project file: edits as sequences of retain,
//! delete and insert steps, rebased by operational transformation against
//! the edits a client had not yet seen, checked and applied.
use vstd::prelude::*;

use operational_transform::{Operation, OperationSeq};

use crate::strs::{decimal, decimal_digits, push_str};

verus! {

/// One step of an edit, taken at the cursor: keep `n` characters, remove
/// `n` characters, or insert a text.
#[derive(Debug, Clone)]
pub enum OtOp {
    Delete(u64),
    Retain(u64),
    Insert(String),
}

/// A step of an edit as the contracts see it.
pub ghost enum EditView {
    Delete(nat),
    Retain(nat),
    Insert(Seq<char>),
}

impl View for OtOp {
    type V = EditView;

    open spec fn view(&self) -> EditView {
        match self {
            OtOp::Delete(n) => EditView::Delete(*n as nat),
            OtOp::Retain(n) => EditView::Retain(*n as nat),
            OtOp::Insert(s) => EditView::Insert(s@),
        }
    }
}

/// The steps of an edit as the contracts see them.
pub open spec fn edits_view(ops: Seq<OtOp>) -> Seq<EditView> {
    ops.map_values(|o: OtOp| o@)
}

/// The characters a step reads from the text it is applied to.
pub open spec fn consumed(e: EditView) -> nat {
    match e {
        EditView::Delete(n) => n,
        EditView::Retain(n) => n,
        EditView::Insert(_) => 0,
    }
}

/// The characters a step leaves in the result.
pub open spec fn produced(e: EditView) -> nat {
    match e {
        EditView::Delete(_) => 0,
        EditView::Retain(n) => n,
        EditView::Insert(t) => t.len(),
    }
}

/// The length of the texts an edit applies to.
pub open spec fn base_len_of(e: Seq<EditView>) -> nat
    decreases e.len(),
{
    if e.len() == 0 {
        0
    } else {
        base_len_of(e.drop_last()) + consumed(e.last())
    }
}

/// The length of the text an edit produces.
pub open spec fn target_len_of(e: Seq<EditView>) -> nat
    decreases e.len(),
{
    if e.len() == 0 {
        0
    } else {
        target_len_of(e.drop_last()) + produced(e.last())
    }
}

/// Both lengths of an edit fit in a `usize`.
pub open spec fn lens_fit(e: Seq<EditView>) -> bool {
    base_len_of(e) <= usize::MAX && target_len_of(e) <= usize::MAX
}

/// The smaller of `n` and `m`.
pub open spec fn at_most(n: nat, m: nat) -> nat {
    if n <= m {
        n
    } else {
        m
    }
}

/// The text the steps `e` make of `s`, reading `s` from its start: a retain
/// copies characters, a delete skips them, an insert adds its text; steps
/// past the end of `s` read nothing.
pub open spec fn applied(e: Seq<EditView>, s: Seq<char>) -> Seq<char>
    decreases e.len(),
{
    if e.len() == 0 {
        Seq::empty()
    } else {
        let rest = e.drop_first();
        match e[0] {
            EditView::Retain(n) => {
                let k = at_most(n, s.len());
                s.take(k as int) + applied(rest, s.skip(k as int))
            },
            EditView::Delete(n) => applied(rest, s.skip(at_most(n, s.len()) as int)),
            EditView::Insert(t) => t + applied(rest, s),
        }
    }
}

/// Applying an edit: only to a text of its base length.
pub open spec fn apply_spec(e: Seq<EditView>, s: Seq<char>) -> Option<Seq<char>> {
    if s.len() == base_len_of(e) {
        Some(applied(e, s))
    } else {
        None
    }
}

proof fn lemma_lens_push(e: Seq<OtOp>, i: int)
    requires
        0 <= i < e.len(),
    ensures
        base_len_of(edits_view(e.take(i + 1))) == base_len_of(edits_view(e.take(i))) + consumed(
            e[i]@,
        ),
        target_len_of(edits_view(e.take(i + 1))) == target_len_of(edits_view(e.take(i))) + produced(
            e[i]@,
        ),
{
    let v = edits_view(e.take(i + 1));
    assert(v.drop_last() =~= edits_view(e.take(i)));
    assert(v.last() == e[i]@);
}

/// The base length of an edit, or `None` where it does not fit in a
/// `usize` (where `operational_transform`'s own length counter would
/// overflow).
fn edit_base_len(ops: &Vec<OtOp>) -> (r: Option<usize>)
    ensures
        match r {
            Some(b) => b == base_len_of(edits_view(ops@)),
            None => base_len_of(edits_view(ops@)) > usize::MAX,
        },
{
    let mut base: usize = 0;
    let mut i: usize = 0;
    while i < ops.len()
        invariant
            i <= ops@.len(),
            base == base_len_of(edits_view(ops@.take(i as int))),
        decreases ops@.len() - i,
    {
        proof {
            lemma_lens_push(ops@, i as int);
        }
        let c: u64 = match &ops[i] {
            OtOp::Delete(n) => *n,
            OtOp::Retain(n) => *n,
            OtOp::Insert(_) => 0,
        };
        match checked_add_u64(base, c) {
            Some(b) => base = b,
            None => {
                proof {
                    lemma_lens_grow(ops@, i as int + 1);
                }
                return None;
            },
        }
        i = i + 1;
    }
    assert(ops@.take(ops@.len() as int) =~= ops@);
    Some(base)
}

/// The target length of an edit, or `None` where it does not fit in a
/// `usize`.
fn edit_target_len(ops: &Vec<OtOp>) -> (r: Option<usize>)
    ensures
        match r {
            Some(t) => t == target_len_of(edits_view(ops@)),
            None => target_len_of(edits_view(ops@)) > usize::MAX,
        },
{
    let mut target: usize = 0;
    let mut i: usize = 0;
    while i < ops.len()
        invariant
            i <= ops@.len(),
            target == target_len_of(edits_view(ops@.take(i as int))),
        decreases ops@.len() - i,
    {
        proof {
            lemma_lens_push(ops@, i as int);
        }
        let next: Option<usize> = match &ops[i] {
            OtOp::Delete(_) => Some(target),
            OtOp::Retain(n) => checked_add_u64(target, *n),
            OtOp::Insert(s) => target.checked_add(s.unicode_len()),
        };
        match next {
            Some(t) => target = t,
            None => {
                proof {
                    lemma_lens_grow(ops@, i as int + 1);
                }
                return None;
            },
        }
        i = i + 1;
    }
    assert(ops@.take(ops@.len() as int) =~= ops@);
    Some(target)
}

/// Whether both lengths of an edit fit in a `usize`, so that
/// `operational_transform` can hold the edit without its length counters
/// overflowing.
pub fn edit_lens_fit(ops: &Vec<OtOp>) -> (r: bool)
    ensures
        r == lens_fit(edits_view(ops@)),
{
    edit_base_len(ops).is_some() && edit_target_len(ops).is_some()
}

/// Applies the edit to `text` with `OperationSeq::apply` of
/// `operational_transform`, after building an `OperationSeq` of the steps
/// (`FromIterator`). The crate refuses a text whose length in characters is
/// not the edit's base length, and otherwise walks the steps: a retain
/// copies characters, a delete skips them, an insert adds its text, which
/// [`apply_spec`] states. Building the sequence merges neighbouring steps of
/// one kind, drops empty ones and puts an insertion before a deletion it
/// follows, none of which changes that walk; the lengths fit in a `usize`,
/// so the crate's base-length counter holds the exact base length.
#[verifier::external_body]
fn ot_apply(ops: &Vec<OtOp>, text: &str) -> (r: Option<String>)
    requires
        lens_fit(edits_view(ops@)),
    ensures
        match apply_spec(edits_view(ops@), text@) {
            Some(t) => r matches Some(s) && s@ == t,
            None => r is None,
        },
{
    let to = |o: OtOp| match o { OtOp::Delete(n) => Operation::Delete(n), OtOp::Retain(n) => Operation::Retain(n), OtOp::Insert(s) => Operation::Insert(s) };
    let x: OperationSeq = ops.iter().cloned().map(to).collect();
    x.apply(text).ok()
}

/// The target length of the edit, with `OperationSeq::target_len` of
/// `operational_transform` on the `OperationSeq` built of its steps: the
/// crate adds up the characters each retain keeps and each insert adds,
/// which fits in a `usize` here.
#[verifier::external_body]
fn ot_target_len(ops: &Vec<OtOp>) -> (r: usize)
    requires
        lens_fit(edits_view(ops@)),
    ensures
        r == target_len_of(edits_view(ops@)),
{
    let to = |o: OtOp| match o { OtOp::Delete(n) => Operation::Delete(n), OtOp::Retain(n) => Operation::Retain(n), OtOp::Insert(s) => Operation::Insert(s) };
    let x: OperationSeq = ops.iter().cloned().map(to).collect();
    x.target_len()
}

/// Applies an edit to `text` through `operational_transform`: `None` where
/// the text is not of the edit's base length, or where the edit's lengths
/// do not fit in a `usize`.
pub fn apply_edits(ops: &Vec<OtOp>, text: &str) -> (r: Option<String>)
    ensures
        lens_fit(edits_view(ops@)) ==> match apply_spec(edits_view(ops@), text@) {
            Some(t) => r matches Some(s) && s@ == t,
            None => r is None,
        },
        !lens_fit(edits_view(ops@)) ==> r is None,
{
    if !edit_lens_fit(ops) {
        return None;
    }
    ot_apply(ops, text)
}

/// `a + b` where it fits in a `usize`.
fn checked_add_u64(a: usize, b: u64) -> (r: Option<usize>)
    ensures
        r matches Some(s) ==> s == a + b,
        r is None ==> a + b > usize::MAX,
{
    if b > (usize::MAX - a) as u64 {
        None
    } else {
        Some(a + b as usize)
    }
}

/// The lengths of a prefix of an edit are at most those of the edit.
proof fn lemma_lens_grow(e: Seq<OtOp>, i: int)
    requires
        0 <= i <= e.len(),
    ensures
        base_len_of(edits_view(e.take(i))) <= base_len_of(edits_view(e)),
        target_len_of(edits_view(e.take(i))) <= target_len_of(edits_view(e)),
    decreases e.len() - i,
{
    if i == e.len() {
        assert(e.take(i) =~= e);
    } else {
        lemma_lens_push(e, i);
        lemma_lens_grow(e, i + 1);
    }
}

// ---------------------------------------------------------------------------
// Transformation
// ---------------------------------------------------------------------------

/// What `operational_transform` makes of two concurrent edits `a` and `b`
/// of the same text: `a'` and `b'`, where `a'` applies after `b` and `b'`
/// after `a`; `None` where the crate refuses them.
pub uninterp spec fn ot_transformed(a: Seq<EditView>, b: Seq<EditView>) -> Option<
    (Seq<EditView>, Seq<EditView>),
>;

/// The message of `operational_transform`'s error.
pub open spec fn ot_error_message() -> Seq<char> {
    "incompatible lengths"@
}

/// Transforms the edit `a` against the concurrent edit `b` with
/// `OperationSeq::transform` of `operational_transform`, after building an
/// `OperationSeq` of each (`FromIterator`, which merges neighbouring steps
/// of one kind), and answers `a'`, the first part of the crate's result,
/// which [`ot_transformed`] names. The crate refuses edits of different base
/// lengths, and its error reads `incompatible lengths`. Both edits' lengths
/// fit in a `usize`, so the crate's own length counters hold their exact
/// lengths.
#[verifier::external_body]
fn transform_edit(a: &Vec<OtOp>, b: &Vec<OtOp>) -> (r: Result<Vec<OtOp>, String>)
    requires
        lens_fit(edits_view(a@)),
        lens_fit(edits_view(b@)),
    ensures
        match r {
            Ok(x) => ot_transformed(edits_view(a@), edits_view(b@)) matches Some(p) && p.0
                == edits_view(x@),
            Err(e) => ot_transformed(edits_view(a@), edits_view(b@)) is None && e@
                == ot_error_message(),
        },
        base_len_of(edits_view(a@)) != base_len_of(edits_view(b@)) ==> r is Err,
{
    let to = |o: OtOp| match o { OtOp::Delete(n) => Operation::Delete(n), OtOp::Retain(n) => Operation::Retain(n), OtOp::Insert(s) => Operation::Insert(s) };
    let x: OperationSeq = a.iter().cloned().map(to).collect();
    let y = b.iter().cloned().map(to).collect();
    x.transform(&y).map(|t| t.0.ops().iter().cloned().map(|o| match o { Operation::Delete(n) => OtOp::Delete(n), Operation::Retain(n) => OtOp::Retain(n), Operation::Insert(s) => OtOp::Insert(s) }).collect()).map_err(|e| e.to_string())
}

/// The message of `operational_transform`'s `OTError` (its `Display`).
#[verifier::external_body]
fn ot_error_text() -> (r: String)
    ensures
        r@ == ot_error_message(),
{
    operational_transform::OTError.to_string()
}

/// What `operational_transform` makes of an edit when it builds an
/// `OperationSeq` of its steps (`FromIterator`) and hands them back
/// (`ops`): neighbouring steps of one kind merged, empty steps dropped, an
/// insertion put before a deletion it follows.
pub uninterp spec fn ot_normalized(ops: Seq<EditView>) -> Seq<EditView>;

/// The steps of the edit as `operational_transform` holds them: an
/// `OperationSeq` built with `FromIterator`, read back with `ops`; the
/// result is named [`ot_normalized`]. Each step adds what it reads and
/// what it leaves to the sequence's two length counters, so both lengths
/// stay as they were.
#[verifier::external_body]
fn ot_normalize(ops: &Vec<OtOp>) -> (r: Vec<OtOp>)
    requires
        lens_fit(edits_view(ops@)),
    ensures
        edits_view(r@) == ot_normalized(edits_view(ops@)),
        base_len_of(edits_view(r@)) == base_len_of(edits_view(ops@)),
        target_len_of(edits_view(r@)) == target_len_of(edits_view(ops@)),
{
    let to = |o: OtOp| match o { OtOp::Delete(n) => Operation::Delete(n), OtOp::Retain(n) => Operation::Retain(n), OtOp::Insert(s) => Operation::Insert(s) };
    let x: OperationSeq = ops.iter().cloned().map(to).collect();
    x.ops().iter().cloned().map(|o| match o { Operation::Delete(n) => OtOp::Delete(n), Operation::Retain(n) => OtOp::Retain(n), Operation::Insert(s) => OtOp::Insert(s) }).collect()
}

/// An edit as `operational_transform` holds it, rebased over the edits
/// `history` that came after it: transformed against each in turn. `None`
/// where a transformation is refused or a length does not fit in a
/// `usize`.
pub open spec fn rebase_from(op: Seq<EditView>, history: Seq<Seq<EditView>>) -> Option<Seq<EditView>>
    decreases history.len(),
{
    if !lens_fit(op) {
        None
    } else if history.len() == 0 {
        Some(op)
    } else if !lens_fit(history[0]) {
        None
    } else {
        match ot_transformed(op, history[0]) {
            Some(p) => rebase_from(p.0, history.drop_first()),
            None => None,
        }
    }
}

/// An edit made at some revision, taken as `operational_transform` holds
/// it and rebased over the edits `history` that came after it; `None`
/// where the edit's lengths do not fit in a `usize` or the rebase fails.
pub open spec fn rebased(op: Seq<EditView>, history: Seq<Seq<EditView>>) -> Option<Seq<EditView>> {
    if !lens_fit(op) {
        None
    } else {
        rebase_from(ot_normalized(op), history)
    }
}

// ---------------------------------------------------------------------------
// Cursors
// ---------------------------------------------------------------------------

/// Where a cursor lands when the steps `e` are applied, walking them from
/// the start with `index` the characters left before the cursor and
/// `moved` its new position: a retain passes characters before it; an
/// insert before the cursor (or right at it) moves it right by its length;
/// a delete removes the characters before it that it covers, and one that
/// reaches past the cursor ends the walk, as does a retain that does.
pub open spec fn moved_cursor(e: Seq<EditView>, index: int, moved: int) -> int
    decreases e.len(),
{
    if e.len() == 0 {
        moved
    } else {
        let rest = e.drop_first();
        match e[0] {
            EditView::Retain(n) => if index - n < 0 {
                moved
            } else {
                moved_cursor(rest, index - n, moved)
            },
            EditView::Insert(t) => moved_cursor(rest, index, moved + t.len()),
            EditView::Delete(n) => {
                let m = moved - (if index <= n { index } else { n as int });
                if index - n < 0 {
                    m
                } else {
                    moved_cursor(rest, index - n, m)
                }
            },
        }
    }
}

/// The position of the cursor at `position` once the edit `e` is applied.
pub open spec fn cursor_after(e: Seq<EditView>, position: nat) -> int {
    moved_cursor(e, position as int, position as int)
}

/// Both ends of every cursor range moved through the edit `e`, kept as
/// `u32` (truncated, should a cursor move past `u32::MAX`).
pub open spec fn moved_ranges(e: Seq<EditView>, rs: Seq<(u32, u32)>) -> Seq<(u32, u32)> {
    rs.map_values(
        |r: (u32, u32)| (cursor_after(e, r.0 as nat) as u32, cursor_after(e, r.1 as nat) as u32),
    )
}

/// Every user's cursor ranges moved through the edit `e`.
pub open spec fn moved_cursors(e: Seq<EditView>, cs: Seq<(Seq<char>, Seq<(u32, u32)>)>) -> Seq<
    (Seq<char>, Seq<(u32, u32)>),
> {
    cs.map_values(|c: (Seq<char>, Seq<(u32, u32)>)| (c.0, moved_ranges(e, c.1)))
}

proof fn lemma_moved_bounds(e: Seq<EditView>, index: int, moved: int)
    requires
        0 <= index <= moved,
    ensures
        0 <= moved_cursor(e, index, moved) <= moved + target_len_of(e),
    decreases e.len(),
{
    lemma_target_front(e);
    if e.len() > 0 {
        let rest = e.drop_first();
        match e[0] {
            EditView::Retain(n) => if index - n >= 0 {
                lemma_moved_bounds(rest, index - n, moved);
            },
            EditView::Insert(t) => lemma_moved_bounds(rest, index, moved + t.len()),
            EditView::Delete(n) => {
                let m = moved - (if index <= n { index } else { n as int });
                if index - n >= 0 {
                    lemma_moved_bounds(rest, index - n, m);
                }
            },
        }
    }
}

/// The target length taken from the front.
proof fn lemma_target_front(e: Seq<EditView>)
    ensures
        e.len() > 0 ==> target_len_of(e) == produced(e[0]) + target_len_of(e.drop_first()),
    decreases e.len(),
{
    if e.len() > 1 {
        let d = e.drop_first();
        lemma_target_front(e.drop_last());
        assert(e.drop_last().drop_first() =~= d.drop_last());
        assert(d.last() == e.last());
        assert(e.drop_last()[0] == e[0]);
    } else if e.len() == 1 {
        assert(e.drop_first() =~= Seq::<EditView>::empty());
        assert(e.drop_last() =~= Seq::<EditView>::empty());
    }
}

/// Where the cursor at `position` lands once the edit is applied.
pub fn move_cursor(ops: &Vec<OtOp>, position: u32) -> (r: u32)
    requires
        lens_fit(edits_view(ops@)),
    ensures
        r == cursor_after(edits_view(ops@), position as nat) as u32,
{
    let ghost ev = edits_view(ops@);
    let mut index: u64 = position as u64;
    let mut moved: u128 = position as u128;
    let mut i: usize = 0;
    proof {
        lemma_moved_bounds(ev, position as int, position as int);
    }
    assert(ev.skip(0) =~= ev);
    while i < ops.len()
        invariant
            i <= ops@.len(),
            ev == edits_view(ops@),
            target_len_of(ev) <= usize::MAX,
            usize::MAX <= u64::MAX,
            index as int <= moved as int,
            moved <= position + target_len_of(ev) - target_len_of(ev.skip(i as int)),
            moved_cursor(ev.skip(i as int), index as int, moved as int) == cursor_after(
                ev,
                position as nat,
            ),
        decreases ops@.len() - i,
    {
        let ghost rest = ev.skip(i as int);
        assert(rest[0] == ops@[i as int]@);
        assert(rest.drop_first() =~= ev.skip(i + 1));
        proof {
            lemma_target_front(rest);
        }
        match &ops[i] {
            OtOp::Retain(n) => {
                if *n > index {
                    return moved as u32;
                }
                index = index - *n;
            },
            OtOp::Insert(t) => {
                moved = moved + t.unicode_len() as u128;
            },
            OtOp::Delete(n) => {
                let d = if index <= *n {
                    index
                } else {
                    *n
                };
                moved = moved - d as u128;
                if *n > index {
                    return moved as u32;
                }
                index = index - *n;
            },
        }
        i = i + 1;
    }
    assert(ev.skip(ops@.len() as int) =~= Seq::<EditView>::empty());
    moved as u32
}

/// Every cursor range moved through the edit.
fn move_ranges(ops: &Vec<OtOp>, ranges: &Vec<(u32, u32)>) -> (r: Vec<(u32, u32)>)
    requires
        lens_fit(edits_view(ops@)),
    ensures
        r@ == moved_ranges(edits_view(ops@), ranges@),
{
    let mut r: Vec<(u32, u32)> = Vec::new();
    let mut i: usize = 0;
    while i < ranges.len()
        invariant
            i <= ranges@.len(),
            lens_fit(edits_view(ops@)),
            r@ == moved_ranges(edits_view(ops@), ranges@.take(i as int)),
        decreases ranges@.len() - i,
    {
        let (a, b) = ranges[i];
        let moved = (move_cursor(ops, a), move_cursor(ops, b));
        assert(ranges@.take(i + 1) =~= ranges@.take(i as int).push(ranges@[i as int]));
        r.push(moved);
        assert(r@ =~= moved_ranges(edits_view(ops@), ranges@.take(i + 1)));
        i = i + 1;
    }
    assert(ranges@.take(ranges@.len() as int) =~= ranges@);
    r
}

/// Every user's cursor ranges moved through the edit.
fn move_all_cursors(ops: &Vec<OtOp>, cursors: &Vec<(String, Vec<(u32, u32)>)>) -> (r: Vec<
    (String, Vec<(u32, u32)>),
>)
    requires
        lens_fit(edits_view(ops@)),
    ensures
        cursors_view(r@) == moved_cursors(edits_view(ops@), cursors_view(cursors@)),
{
    let mut r: Vec<(String, Vec<(u32, u32)>)> = Vec::new();
    let mut i: usize = 0;
    let ghost cv = cursors_view(cursors@);
    while i < cursors.len()
        invariant
            i <= cursors@.len(),
            cv == cursors_view(cursors@),
            lens_fit(edits_view(ops@)),
            cursors_view(r@) == moved_cursors(edits_view(ops@), cv.take(i as int)),
        decreases cursors@.len() - i,
    {
        let user = cursors[i].0.clone();
        let ranges = move_ranges(ops, &cursors[i].1);
        let entry = (user, ranges);
        let ghost before = r@;
        r.push(entry);
        assert(cv.take(i + 1) =~= cv.take(i as int).push(cv[i as int]));
        assert(r@ =~= before.push(entry));
        assert(cursors_view(r@) =~= cursors_view(before).push((entry.0@, entry.1@)));
        assert(cursors_view(r@) =~= moved_cursors(edits_view(ops@), cv.take(i + 1)));
        i = i + 1;
    }
    assert(cv.take(cursors@.len() as int) =~= cv);
    r
}

// ---------------------------------------------------------------------------
// Documents
// ---------------------------------------------------------------------------

/// The largest text an edit may produce: 256 KiB.
pub const MAX_TARGET_LEN: usize = 262144;

/// An accepted edit and the user who made it.
#[derive(Debug, Clone)]
pub struct UserOperation {
    pub user_id: String,
    pub operation: Vec<OtOp>,
}

/// The text of a document and how many edits it has taken.
#[derive(Debug, Clone)]
pub struct DocumentInfo {
    pub text: String,
    pub revision: usize,
}

/// A document as the contracts see it: its text, its accepted edits, and
/// the cursor ranges of its users.
pub ghost struct DocumentView {
    pub text: Seq<char>,
    pub history: Seq<(Seq<char>, Seq<EditView>)>,
    pub cursors: Seq<(Seq<char>, Seq<(u32, u32)>)>,
}

/// Cursor entries as the contracts see them.
pub open spec fn cursors_view(cs: Seq<(String, Vec<(u32, u32)>)>) -> Seq<(Seq<char>, Seq<(u32, u32)>)> {
    cs.map_values(|c: (String, Vec<(u32, u32)>)| (c.0@, c.1@))
}

/// `i` is the first entry of `cs` that belongs to `user`.
pub open spec fn is_first_entry(cs: Seq<(Seq<char>, Seq<(u32, u32)>)>, user: Seq<char>, i: int) -> bool {
    &&& 0 <= i < cs.len()
    &&& cs[i].0 == user
    &&& forall|j: int| 0 <= j < i ==> #[trigger] cs[j].0 != user
}

/// The edits of a history.
pub open spec fn history_edits(h: Seq<(Seq<char>, Seq<EditView>)>) -> Seq<Seq<EditView>> {
    h.map_values(|e: (Seq<char>, Seq<EditView>)| e.1)
}

/// The answer to an edit made at a revision the document has not reached.
pub open spec fn revision_error(revision: nat, current: nat) -> Seq<char> {
    "got revision "@ + decimal_digits(revision) + ", but current is "@ + decimal_digits(current)
}

/// The answer to an edit whose result would be too long.
pub open spec fn target_error(len: nat) -> Seq<char> {
    "target length "@ + decimal_digits(len) + " is greater than 256 KiB maximum"@
}

/// A text edited together: its current text, every edit it accepted, and
/// the cursor ranges of its users.
#[derive(Debug)]
pub struct Document {
    operations: Vec<UserOperation>,
    text: String,
    cursors: Vec<(String, Vec<(u32, u32)>)>,
}

impl View for Document {
    type V = DocumentView;

    closed spec fn view(&self) -> DocumentView {
        DocumentView {
            text: self.text@,
            history: self.operations@.map_values(
                |u: UserOperation| (u.user_id@, edits_view(u.operation@)),
            ),
            cursors: cursors_view(self.cursors@),
        }
    }
}

impl Document {
    /// An empty document.
    pub fn new() -> (r: Self)
        ensures
            r@.text == Seq::<char>::empty(),
            r@.history == Seq::<(Seq<char>, Seq<EditView>)>::empty(),
            r@.cursors == Seq::<(Seq<char>, Seq<(u32, u32)>)>::empty(),
    {
        let r = Document { operations: Vec::new(), text: String::new(), cursors: Vec::new() };
        assert(r@.history =~= Seq::<(Seq<char>, Seq<EditView>)>::empty());
        assert(r@.cursors =~= Seq::<(Seq<char>, Seq<(u32, u32)>)>::empty());
        r
    }

    /// A document holding `text`, without edits.
    pub fn new_with(text: String) -> (r: Self)
        ensures
            r@.text == text@,
            r@.history == Seq::<(Seq<char>, Seq<EditView>)>::empty(),
            r@.cursors == Seq::<(Seq<char>, Seq<(u32, u32)>)>::empty(),
    {
        let r = Document { operations: Vec::new(), text, cursors: Vec::new() };
        assert(r@.history =~= Seq::<(Seq<char>, Seq<EditView>)>::empty());
        assert(r@.cursors =~= Seq::<(Seq<char>, Seq<(u32, u32)>)>::empty());
        r
    }

    /// A new document with this one's text and no edits.
    pub fn fork(&self) -> (r: Self)
        ensures
            r@.text == self@.text,
            r@.history == Seq::<(Seq<char>, Seq<EditView>)>::empty(),
            r@.cursors == Seq::<(Seq<char>, Seq<(u32, u32)>)>::empty(),
    {
        Document::new_with(self.text.clone())
    }

    /// The cursor ranges of every user.
    pub fn cursors(&self) -> (r: &Vec<(String, Vec<(u32, u32)>)>)
        ensures
            cursors_view(r@) == self@.cursors,
    {
        &self.cursors
    }

    /// Sets the cursor ranges of `user`: the user's first entry is replaced,
    /// or a new entry is added at the end.
    pub fn set_cursors(&mut self, user: String, ranges: Vec<(u32, u32)>)
        ensures
            final(self)@.text == old(self)@.text,
            final(self)@.history == old(self)@.history,
            forall|i: int|
                is_first_entry(old(self)@.cursors, user@, i) ==> final(self)@.cursors == old(
                    self,
                )@.cursors.update(i, (user@, ranges@)),
            (forall|i: int|
                0 <= i < old(self)@.cursors.len() ==> #[trigger] old(self)@.cursors[i].0 != user@)
                ==> final(self)@.cursors == old(self)@.cursors.push((user@, ranges@)),
    {
        let ghost cs = self@.cursors;
        let mut i: usize = 0;
        while i < self.cursors.len()
            invariant
                i <= self.cursors@.len(),
                cs == cursors_view(self.cursors@),
                cs == old(self)@.cursors,
                self@.text == old(self)@.text,
                self@.history == old(self)@.history,
                forall|j: int| 0 <= j < i ==> #[trigger] cs[j].0 != user@,
            decreases self.cursors@.len() - i,
        {
            if crate::strs::matches_text(self.cursors[i].0.as_str(), user.as_str()) {
                proof {
                    assert(is_first_entry(cs, user@, i as int));
                    assert(old(self)@.cursors[i as int].0 == user@);
                    assert forall|k: int| is_first_entry(cs, user@, k) implies k == i by {
                        if k < i {
                            assert(cs[k].0 != user@);
                        }
                        if k > i {
                            assert(cs[i as int].0 == user@);
                        }
                    }
                }
                let entry = (user, ranges);
                let ghost ev = (entry.0@, entry.1@);
                self.cursors.set(i, entry);
                assert(cursors_view(self.cursors@) =~= cs.update(i as int, ev));
                return;
            }
            i = i + 1;
        }
        let entry = (user, ranges);
        let ghost ev = (entry.0@, entry.1@);
        let ghost old_c = self.cursors@;
        self.cursors.push(entry);
        assert(self.cursors@ =~= old_c.push(entry));
        assert(cursors_view(self.cursors@) =~= cs.push(ev));
        proof {
            assert forall|k: int| !is_first_entry(cs, user@, k) by {
                if 0 <= k < cs.len() {
                    assert(cs[k].0 != user@);
                }
            }
        }
    }

    pub fn text(&self) -> (r: String)
        ensures
            r@ == self@.text,
    {
        self.text.clone()
    }

    /// The number of edits taken.
    pub fn revision(&self) -> (r: usize)
        ensures
            r == self@.history.len(),
    {
        self.operations.len()
    }

    /// The text and the revision.
    pub fn info(&self) -> (r: DocumentInfo)
        ensures
            r.text@ == self@.text,
            r.revision == self@.history.len(),
    {
        DocumentInfo { text: self.text(), revision: self.revision() }
    }

    /// Takes the edit `operation` of `user_id`, made on the text at
    /// `revision`: rebased over the edits taken since, checked against the
    /// 256 KiB limit, applied, and recorded. Refused, leaving the document
    /// as it is, where the revision is ahead of the document, where a
    /// transformation or the application fails (`incompatible lengths`, also
    /// for lengths beyond a `usize`), or where the result would be too long.
    pub fn compose(&mut self, user_id: String, revision: usize, operation: Vec<OtOp>) -> (r: Result<
        (),
        String,
    >)
        ensures
            ({
                let h = old(self)@.history;
                let rebase = rebased(edits_view(operation@), history_edits(h).skip(revision as int));
                if revision > h.len() {
                    &&& r matches Err(e) && e@ == revision_error(revision as nat, h.len())
                    &&& final(self)@ == old(self)@
                } else if rebase is None {
                    &&& r matches Err(e) && e@ == ot_error_message()
                    &&& final(self)@ == old(self)@
                } else if target_len_of(rebase->0) > MAX_TARGET_LEN {
                    &&& r matches Err(e) && e@ == target_error(target_len_of(rebase->0))
                    &&& final(self)@ == old(self)@
                } else if apply_spec(rebase->0, old(self)@.text) is None {
                    &&& r matches Err(e) && e@ == ot_error_message()
                    &&& final(self)@ == old(self)@
                } else {
                    &&& r is Ok
                    &&& final(self)@ == (DocumentView {
                        text: apply_spec(rebase->0, old(self)@.text)->0,
                        history: h.push((user_id@, rebase->0)),
                        cursors: moved_cursors(rebase->0, old(self)@.cursors),
                    })
                }
            }),
    {
        let len = self.operations.len();
        let ghost h = self@.history;
        let ghost hist = history_edits(h);
        proof {
            reveal_strlit("got revision ");
            reveal_strlit(", but current is ");
        }
        if revision > len {
            let mut e = String::new();
            push_str(&mut e, "got revision ");
            push_str(&mut e, decimal(revision).as_str());
            push_str(&mut e, ", but current is ");
            push_str(&mut e, decimal(len).as_str());
            return Err(e);
        }
        let ghost goal = rebased(edits_view(operation@), hist.skip(revision as int));
        if !edit_lens_fit(&operation) {
            return Err(ot_error_text());
        }
        let mut op = ot_normalize(&operation);
        let mut i = revision;
        assert(hist.len() == len);
        while i < len
            invariant
                revision <= i <= len,
                self@ == old(self)@,
                goal == rebased(edits_view(operation@), history_edits(old(self)@.history).skip(
                    revision as int,
                )),
                len == self.operations@.len(),
                hist == history_edits(self@.history),
                hist.len() == len,
                goal == rebase_from(edits_view(op@), hist.skip(i as int)),
            decreases len - i,
        {
            let ghost rest = hist.skip(i as int);
            assert(rest[0] == edits_view(self.operations@[i as int].operation@));
            assert(rest.drop_first() =~= hist.skip(i + 1));
            if !edit_lens_fit(&op) || !edit_lens_fit(&self.operations[i].operation) {
                return Err(ot_error_text());
            }
            match transform_edit(&op, &self.operations[i].operation) {
                Ok(a) => op = a,
                Err(e) => return Err(e),
            }
            i = i + 1;
        }
        assert(hist.skip(len as int) =~= Seq::<Seq<EditView>>::empty());
        if !edit_lens_fit(&op) {
            return Err(ot_error_text());
        }
        let target = ot_target_len(&op);
        if target > MAX_TARGET_LEN {
            proof {
                reveal_strlit("target length ");
                reveal_strlit(" is greater than 256 KiB maximum");
            }
            let mut e = String::new();
            push_str(&mut e, "target length ");
            push_str(&mut e, decimal(target).as_str());
            push_str(&mut e, " is greater than 256 KiB maximum");
            return Err(e);
        }
        let new_text = match apply_edits(&op, self.text.as_str()) {
            Some(t) => t,
            None => return Err(ot_error_text()),
        };
        let ghost done = op@;
        let cursors = move_all_cursors(&op, &self.cursors);
        let entry = UserOperation { user_id, operation: op };
        let ghost old_ops = self.operations@;
        self.operations.push(entry);
        self.text = new_text;
        self.cursors = cursors;
        assert(self.operations@ =~= old_ops.push(entry));
        assert(self@.history =~= h.push((entry.user_id@, edits_view(done))));
        Ok(())
    }
}


/// The base length taken from the front.
proof fn lemma_base_front(e: Seq<EditView>)
    ensures
        e.len() > 0 ==> base_len_of(e) == consumed(e[0]) + base_len_of(e.drop_first()),
    decreases e.len(),
{
    if e.len() > 1 {
        let d = e.drop_first();
        lemma_base_front(e.drop_last());
        assert(e.drop_last().drop_first() =~= d.drop_last());
        assert(d.last() == e.last());
        assert(e.drop_last()[0] == e[0]);
    } else if e.len() == 1 {
        assert(e.drop_first() =~= Seq::<EditView>::empty());
        assert(e.drop_last() =~= Seq::<EditView>::empty());
    }
}

/// Applying an edit to a text of its base length gives a text of its
/// target length.
pub proof fn law_applied_length(e: Seq<EditView>, s: Seq<char>)
    requires
        s.len() == base_len_of(e),
    ensures
        apply_spec(e, s) == Some(applied(e, s)),
        applied(e, s).len() == target_len_of(e),
    decreases e.len(),
{
    lemma_base_front(e);
    lemma_target_front(e);
    if e.len() > 0 {
        let rest = e.drop_first();
        match e[0] {
            EditView::Retain(n) => {
                law_applied_length(rest, s.skip(n as int));
            },
            EditView::Delete(n) => {
                law_applied_length(rest, s.skip(n as int));
            },
            EditView::Insert(t) => {
                law_applied_length(rest, s);
            },
        }
    }
}

/// An edit is applied only to a text of its base length.
pub proof fn law_apply_needs_the_base_length(e: Seq<EditView>, s: Seq<char>)
    ensures
        apply_spec(e, s) is Some <==> s.len() == base_len_of(e),
{
}

/// Keeping the whole text gives it back; inserting into an empty text
/// gives what is inserted; deleting the whole text leaves it empty.
pub proof fn law_simple_edits(s: Seq<char>, t: Seq<char>)
    ensures
        apply_spec(seq![EditView::Retain(s.len())], s) == Some(s),
        apply_spec(seq![EditView::Insert(t)], Seq::<char>::empty()) == Some(t),
        apply_spec(seq![EditView::Delete(s.len())], s) == Some(Seq::<char>::empty()),
{
    reveal_with_fuel(base_len_of, 2);
    reveal_with_fuel(applied, 2);
    let r = seq![EditView::Retain(s.len())];
    assert(r.drop_last() =~= Seq::<EditView>::empty());
    assert(r.drop_first() =~= Seq::<EditView>::empty());
    assert(s.take(s.len() as int) =~= s);
    let i = seq![EditView::Insert(t)];
    assert(i.drop_last() =~= Seq::<EditView>::empty());
    assert(i.drop_first() =~= Seq::<EditView>::empty());
    assert(t + Seq::<char>::empty() =~= t);
    let d = seq![EditView::Delete(s.len())];
    assert(d.drop_last() =~= Seq::<EditView>::empty());
    assert(d.drop_first() =~= Seq::<EditView>::empty());
}

/// Moving a cursor is the same wherever the walk starts counting from.
proof fn lemma_moved_shift(e: Seq<EditView>, index: int, moved: int, k: int)
    ensures
        moved_cursor(e, index, moved + k) == moved_cursor(e, index, moved) + k,
    decreases e.len(),
{
    if e.len() > 0 {
        let rest = e.drop_first();
        match e[0] {
            EditView::Retain(n) => if index - n >= 0 {
                lemma_moved_shift(rest, index - n, moved, k);
            },
            EditView::Insert(t) => lemma_moved_shift(rest, index, moved + t.len(), k),
            EditView::Delete(n) => {
                let d = if index <= n { index } else { n as int };
                if index - n >= 0 {
                    lemma_moved_shift(rest, index - n, moved - d, k);
                }
            },
        }
    }
}

/// How a cursor moves through an edit, step by step: a cursor inside the
/// text kept first stays; past it, it moves on by what was kept; an
/// insertion in front moves it right by the inserted length; a deletion in
/// front moves it left by what was deleted, to the deletion's place if the
/// cursor was inside it.
pub proof fn law_cursor_moves_step_by_step(e: Seq<EditView>, n: nat, t: Seq<char>, p: nat)
    ensures
        p < n ==> cursor_after(seq![EditView::Retain(n)] + e, p) == p,
        p >= n ==> cursor_after(seq![EditView::Retain(n)] + e, p) == n + cursor_after(
            e,
            (p - n) as nat,
        ),
        cursor_after(seq![EditView::Insert(t)] + e, p) == t.len() + cursor_after(e, p),
        p < n ==> cursor_after(seq![EditView::Delete(n)] + e, p) == 0,
        p >= n ==> cursor_after(seq![EditView::Delete(n)] + e, p) == cursor_after(
            e,
            (p - n) as nat,
        ),
        cursor_after(Seq::empty(), p) == p,
{
    let r = seq![EditView::Retain(n)] + e;
    let i = seq![EditView::Insert(t)] + e;
    let d = seq![EditView::Delete(n)] + e;
    assert(r[0] == EditView::Retain(n) && r.drop_first() =~= e);
    assert(i[0] == EditView::Insert(t) && i.drop_first() =~= e);
    assert(d[0] == EditView::Delete(n) && d.drop_first() =~= e);
    lemma_moved_shift(e, p - n, p - n, n as int);
    lemma_moved_shift(e, p as int, p as int, t.len() as int);
}

// ---------------------------------------------------------------------------
// Laws
// ---------------------------------------------------------------------------

/// An edit made on the current revision is taken as
/// `operational_transform` holds it: there is nothing to rebase it over.
pub proof fn law_current_edit_is_not_rebased(op: Seq<EditView>)
    requires
        lens_fit(op),
        lens_fit(ot_normalized(op)),
    ensures
        rebased(op, Seq::empty()) == Some(ot_normalized(op)),
{
}

/// Rebasing over a history is rebasing over its first part and then over
/// the rest; a refusal anywhere is a refusal of the whole.
pub proof fn law_rebase_over_concatenation(
    op: Seq<EditView>,
    first: Seq<Seq<EditView>>,
    rest: Seq<Seq<EditView>>,
)
    ensures
        rebase_from(op, first + rest) == match rebase_from(op, first) {
            Some(mid) => rebase_from(mid, rest),
            None => None,
        },
    decreases first.len(),
{
    if first.len() == 0 {
        assert(first + rest =~= rest);
    } else {
        assert((first + rest)[0] == first[0]);
        assert((first + rest).drop_first() =~= first.drop_first() + rest);
        if lens_fit(op) && lens_fit(first[0]) {
            match ot_transformed(op, first[0]) {
                Some(p) => law_rebase_over_concatenation(p.0, first.drop_first(), rest),
                None => {},
            }
        }
    }
}

} // verus!
