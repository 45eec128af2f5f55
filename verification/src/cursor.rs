//! The contract between a tree of rows and the operators that walk it.
//!
//! A cursor stands at one row of a table, keyed by row id, or of an index,
//! keyed by a row of values. An operation that has to wait for a page to be
//! fetched does not block: it answers [`CursorResult::IO`], and the caller
//! calls it again later, with the same arguments, until it answers
//! [`CursorResult::Done`].
//!
//! A cursor can state how that goes: a bound on the `IO` answers to come,
//! and what a seek or a lookup answers in the end. Its operations are held
//! to what it states, and [`complete`] is proved from that alone: the calls
//! end within the bound, and the answer does not depend on how many `IO`
//! answers came before it.

use crate::error::LimboError;
use crate::value::OwnedRecord;
use crate::value::OwnedValue;
use crate::value::ValueView;
use std::cell::Ref;
use vstd::prelude::*;

verus! {

/// A guard of the standard library over a value borrowed from a `RefCell`;
/// the cursor hands out its current row under one. Nothing is claimed of
/// what it guards.
#[verifier::external_type_specification]
#[verifier::external_body]
#[verifier::reject_recursive_types(T)]
pub struct ExRef<'b, T: ?Sized>(Ref<'b, T>);

/// The answer of an operation that may have to wait for a page.
#[derive(Debug, PartialEq)]
pub enum CursorResult<T> {
    /// The operation is complete.
    Done(T),
    /// A page is being fetched; the operation is to be called again.
    IO,
}

/// Which key a seek looks for, relative to the key it is given.
#[derive(Debug, PartialEq)]
pub enum SeekOp {
    /// The first key equal to the given one.
    EQ,
    /// The first key equal to or above the given one.
    GE,
    /// The first key above the given one.
    GT,
}

/// The key that a seek is given.
#[derive(Debug, PartialEq)]
pub enum SeekKey<'a> {
    /// A row id of a table.
    TableRowId(u64),
    /// A key of an index.
    IndexKey(&'a OwnedRecord),
}

/// The content of a [`SeekKey`].
pub enum SeekKeyView {
    TableRowId(u64),
    IndexKey(Seq<ValueView>),
}

impl<'a> View for SeekKey<'a> {
    type V = SeekKeyView;

    open spec fn view(&self) -> SeekKeyView {
        match *self {
            SeekKey::TableRowId(id) => SeekKeyView::TableRowId(id),
            SeekKey::IndexKey(key) => SeekKeyView::IndexKey(key@),
        }
    }
}

impl Clone for SeekOp {
    fn clone(&self) -> (r: SeekOp)
        ensures
            r == *self,
    {
        match self {
            SeekOp::EQ => SeekOp::EQ,
            SeekOp::GE => SeekOp::GE,
            SeekOp::GT => SeekOp::GT,
        }
    }
}

impl<'a> Clone for SeekKey<'a> {
    fn clone(&self) -> (r: SeekKey<'a>)
        ensures
            r == *self,
    {
        match self {
            SeekKey::TableRowId(id) => SeekKey::TableRowId(*id),
            SeekKey::IndexKey(key) => SeekKey::IndexKey(*key),
        }
    }
}

/// Whether a bound on the `IO` answers to come went down from `before` to
/// `after`: where there was a bound, there now is a lower one.
pub open spec fn lowered(before: Option<nat>, after: Option<nat>) -> bool {
    before matches Some(bound) ==> (after matches Some(left) && left < bound)
}

/// Whether a bound on the `IO` answers to come went down by `count` at
/// least from `before` to `after`.
pub open spec fn lowered_by(before: Option<nat>, after: Option<nat>, count: int) -> bool {
    before matches Some(bound) ==> (after matches Some(left) && left + count <= bound)
}

/// A position in an ordered tree of rows, and the means to move it and to
/// change the tree.
///
/// An operation that answers [`CursorResult::IO`] has not failed: it is to
/// be called again with the same arguments. A cursor can say in advance how
/// that will go: [`Cursor::polls_left`] bounds the `IO` answers to come,
/// and [`Cursor::seek_answer`] and [`Cursor::lookup_answer`] are what a
/// seek or a lookup answers in the end. Where it says so, its operations
/// keep to it: each `IO` answer lowers the bound and leaves the settled
/// answers as they were, and a complete operation gives the settled answer.
/// A cursor that says nothing, as by default, is held to nothing.
pub trait Cursor {
    /// A bound on the `IO` answers that the cursor gives before an
    /// operation completes or fails, where it has one.
    open spec fn polls_left(&self) -> Option<nat> {
        None
    }

    /// What a seek for `key` under `op`, called in this state, answers
    /// once it is complete, where that is settled.
    open spec fn seek_answer(&self, key: SeekKeyView, op: SeekOp) -> Option<bool> {
        None
    }

    /// What a lookup of `key`, called in this state, answers once it is
    /// complete, where that is settled.
    open spec fn lookup_answer(&self, key: ValueView) -> Option<bool> {
        None
    }

    /// Whether the tree holds no row.
    fn is_empty(&self) -> bool;

    /// Moves to the first row.
    fn rewind(&mut self) -> (r: Result<CursorResult<()>, LimboError>)
        ensures
            r matches Ok(CursorResult::IO) ==> lowered(old(self).polls_left(), final(self).polls_left()),
    ;

    /// Moves to the last row.
    fn last(&mut self) -> (r: Result<CursorResult<()>, LimboError>)
        ensures
            r matches Ok(CursorResult::IO) ==> lowered(old(self).polls_left(), final(self).polls_left()),
    ;

    /// Moves to the row with the next key in ascending order.
    fn next(&mut self) -> (r: Result<CursorResult<()>, LimboError>)
        ensures
            r matches Ok(CursorResult::IO) ==> lowered(old(self).polls_left(), final(self).polls_left()),
    ;

    /// Moves to the row with the next key in descending order.
    fn prev(&mut self) -> (r: Result<CursorResult<()>, LimboError>)
        ensures
            r matches Ok(CursorResult::IO) ==> lowered(old(self).polls_left(), final(self).polls_left()),
    ;

    /// Blocks until the pending page fetches are done.
    fn wait_for_completion(&mut self) -> Result<(), LimboError>;

    /// The row id of the current row, if the cursor stands at one.
    fn rowid(&self) -> Result<Option<u64>, LimboError>;

    /// Moves to the first row whose key meets `op` relative to `key`, and
    /// tells whether there is one.
    fn seek(&mut self, key: SeekKey<'_>, op: SeekOp) -> (r: Result<CursorResult<bool>, LimboError>)
        ensures
            r matches Ok(CursorResult::IO) ==> lowered(old(self).polls_left(), final(self).polls_left()),
            r matches Ok(CursorResult::IO) ==> final(self).seek_answer(key@, op) == old(self).seek_answer(
                key@,
                op,
            ),
            r matches Ok(CursorResult::Done(found)) ==> (old(self).seek_answer(key@, op) matches Some(
                settled,
            ) ==> found == settled),
    ;

    /// Moves to the last row.
    fn seek_to_last(&mut self) -> (r: Result<CursorResult<()>, LimboError>)
        ensures
            r matches Ok(CursorResult::IO) ==> lowered(old(self).polls_left(), final(self).polls_left()),
    ;

    /// The current row, if the cursor stands at one. The guard must be
    /// dropped before the cursor is moved.
    fn record(&self) -> Result<Ref<'_, Option<OwnedRecord>>, LimboError>;

    /// Stores `record` under `key`. `moved_before` says that the cursor
    /// already stands at the leaf where the key belongs, as after a seek to
    /// that key, so that no descent from the root is needed.
    fn insert(&mut self, key: &OwnedValue, record: &OwnedRecord, moved_before: bool) -> (r: Result<
        CursorResult<()>,
        LimboError,
    >)
        ensures
            r matches Ok(CursorResult::IO) ==> lowered(old(self).polls_left(), final(self).polls_left()),
    ;

    /// Whether the tree holds a row under `key`.
    fn key_exists(&mut self, key: &OwnedValue) -> (r: Result<CursorResult<bool>, LimboError>)
        ensures
            r matches Ok(CursorResult::IO) ==> lowered(old(self).polls_left(), final(self).polls_left()),
            r matches Ok(CursorResult::IO) ==> final(self).lookup_answer(key@) == old(self).lookup_answer(
                key@,
            ),
            r matches Ok(CursorResult::Done(found)) ==> (old(self).lookup_answer(key@) matches Some(
                settled,
            ) ==> found == settled),
    ;

    /// Sets the marker by which callers tell a row of nulls from a row.
    fn set_null_flag(&mut self, flag: bool);

    /// The marker set by `set_null_flag`.
    fn get_null_flag(&self) -> bool;

    /// Makes a new, empty tree and gives the number of its root page.
    fn btree_create(&mut self, flags: usize) -> u32;
}

/// An operation that may answer `IO`, with its arguments.
#[derive(Debug)]
pub enum Operation<'a> {
    Rewind,
    Last,
    Next,
    Prev,
    SeekToLast,
    Seek(SeekKey<'a>, SeekOp),
    Insert(&'a OwnedValue, &'a OwnedRecord, bool),
    KeyExists(&'a OwnedValue),
}

impl<'a> Operation<'a> {
    /// Whether the operation has an answer of its own: a seek and a lookup
    /// tell whether the key was found.
    pub open spec fn has_answer(self) -> bool {
        self is Seek || self is KeyExists
    }

    /// What the operation answers once it is complete, where it is called
    /// on `cursor` and that is settled.
    pub open spec fn settled<C: Cursor>(self, cursor: C) -> Option<bool> {
        match self {
            Operation::Seek(key, op) => cursor.seek_answer(key@, op),
            Operation::KeyExists(key) => cursor.lookup_answer(key@),
            _ => None,
        }
    }

    /// Whether `answer` is one that the operation, called on `cursor`, can
    /// give when it is complete: whether the key was found for a seek or a
    /// lookup, as settled where it was; nothing for the others.
    pub open spec fn answers<C: Cursor>(self, cursor: C, answer: Option<bool>) -> bool {
        if self.has_answer() {
            answer matches Some(found) && (self.settled(cursor) matches Some(settled) ==> found
                == settled)
        } else {
            answer is None
        }
    }
}

/// What a call of an operation on a cursor gives: its answer, or an `IO`
/// answer, or a failure.
pub type Polled = Result<CursorResult<Option<bool>>, LimboError>;

/// The answer of an operation without a result of its own, as a [`Polled`].
pub open spec fn unit_answer(r: Result<CursorResult<()>, LimboError>) -> Polled {
    match r {
        Ok(CursorResult::Done(_)) => Ok(CursorResult::Done(None)),
        Ok(CursorResult::IO) => Ok(CursorResult::IO),
        Err(e) => Err(e),
    }
}

/// The answer of a seek or a lookup, as a [`Polled`].
pub open spec fn found_answer(r: Result<CursorResult<bool>, LimboError>) -> Polled {
    match r {
        Ok(CursorResult::Done(found)) => Ok(CursorResult::Done(Some(found))),
        Ok(CursorResult::IO) => Ok(CursorResult::IO),
        Err(e) => Err(e),
    }
}

/// The answer of an operation without a result of its own.
pub fn without_result(r: Result<CursorResult<()>, LimboError>) -> (out: Polled)
    ensures
        out == unit_answer(r),
{
    match r {
        Ok(CursorResult::Done(_)) => Ok(CursorResult::Done(None)),
        Ok(CursorResult::IO) => Ok(CursorResult::IO),
        Err(e) => Err(e),
    }
}

/// The answer of a seek or a lookup.
pub fn with_result(r: Result<CursorResult<bool>, LimboError>) -> (out: Polled)
    ensures
        out == found_answer(r),
{
    match r {
        Ok(CursorResult::Done(found)) => Ok(CursorResult::Done(Some(found))),
        Ok(CursorResult::IO) => Ok(CursorResult::IO),
        Err(e) => Err(e),
    }
}

/// Whether one call of `operation` through `cursor` can give `answer`: the
/// cursor's own method for that operation, called with the operation's
/// arguments, can.
pub open spec fn called<C: Cursor>(operation: Operation<'_>, cursor: &mut C, answer: Polled) -> bool {
    match operation {
        Operation::Rewind => exists|r: Result<CursorResult<()>, LimboError>| #[trigger]
            call_ensures(C::rewind, (cursor,), r) && answer == unit_answer(r),
        Operation::Last => exists|r: Result<CursorResult<()>, LimboError>| #[trigger]
            call_ensures(C::last, (cursor,), r) && answer == unit_answer(r),
        Operation::Next => exists|r: Result<CursorResult<()>, LimboError>| #[trigger]
            call_ensures(C::next, (cursor,), r) && answer == unit_answer(r),
        Operation::Prev => exists|r: Result<CursorResult<()>, LimboError>| #[trigger]
            call_ensures(C::prev, (cursor,), r) && answer == unit_answer(r),
        Operation::SeekToLast => exists|r: Result<CursorResult<()>, LimboError>| #[trigger]
            call_ensures(C::seek_to_last, (cursor,), r) && answer == unit_answer(r),
        Operation::Seek(key, op) => exists|r: Result<CursorResult<bool>, LimboError>| #[trigger]
            call_ensures(C::seek, (cursor, key, op), r) && answer == found_answer(r),
        Operation::Insert(key, record, moved_before) => exists|
            r: Result<CursorResult<()>, LimboError>,
        | #[trigger]
            call_ensures(C::insert, (cursor, key, record, moved_before), r) && answer
                == unit_answer(r),
        Operation::KeyExists(key) => exists|r: Result<CursorResult<bool>, LimboError>| #[trigger]
            call_ensures(C::key_exists, (cursor, key), r) && answer == found_answer(r),
    }
}

/// Calls the operation on the cursor once.
///
/// The answer is that of the cursor's own method for the operation, called
/// with the operation's arguments on the cursor as it stands. So an `IO`
/// answer brings the end nearer and leaves what is settled as it was, and a
/// complete operation answers as was settled before the call.
pub fn poll<C: Cursor>(cursor: &mut C, operation: &Operation<'_>) -> (r: Polled)
    ensures
        exists|c: &mut C|
            *c == *old(cursor) && *final(c) == *final(cursor) && #[trigger] called(
                *operation,
                c,
                r,
            ),
        r matches Ok(CursorResult::IO) ==> lowered(
            old(cursor).polls_left(),
            final(cursor).polls_left(),
        ),
        r matches Ok(CursorResult::IO) ==> operation.settled(*final(cursor)) == operation.settled(
            *old(cursor),
        ),
        r matches Ok(CursorResult::Done(answer)) ==> operation.answers(*old(cursor), answer),
{
    match operation {
        Operation::Rewind => {
            let call = C::rewind;
            let raw = call(cursor);
            proof {
                let c = choose|c: &mut C|
                    *c == *old(cursor) && *final(c) == *cursor && #[trigger] call_ensures(
                        C::rewind,
                        (c,),
                        raw,
                    );
                assert(called(*operation, c, unit_answer(raw)));
            }
            without_result(raw)
        },
        Operation::Last => {
            let call = C::last;
            let raw = call(cursor);
            proof {
                let c = choose|c: &mut C|
                    *c == *old(cursor) && *final(c) == *cursor && #[trigger] call_ensures(
                        C::last,
                        (c,),
                        raw,
                    );
                assert(called(*operation, c, unit_answer(raw)));
            }
            without_result(raw)
        },
        Operation::Next => {
            let call = C::next;
            let raw = call(cursor);
            proof {
                let c = choose|c: &mut C|
                    *c == *old(cursor) && *final(c) == *cursor && #[trigger] call_ensures(
                        C::next,
                        (c,),
                        raw,
                    );
                assert(called(*operation, c, unit_answer(raw)));
            }
            without_result(raw)
        },
        Operation::Prev => {
            let call = C::prev;
            let raw = call(cursor);
            proof {
                let c = choose|c: &mut C|
                    *c == *old(cursor) && *final(c) == *cursor && #[trigger] call_ensures(
                        C::prev,
                        (c,),
                        raw,
                    );
                assert(called(*operation, c, unit_answer(raw)));
            }
            without_result(raw)
        },
        Operation::SeekToLast => {
            let call = C::seek_to_last;
            let raw = call(cursor);
            proof {
                let c = choose|c: &mut C|
                    *c == *old(cursor) && *final(c) == *cursor && #[trigger] call_ensures(
                        C::seek_to_last,
                        (c,),
                        raw,
                    );
                assert(called(*operation, c, unit_answer(raw)));
            }
            without_result(raw)
        },
        Operation::Seek(key, op) => {
            let call = C::seek;
            let raw = call(cursor, key.clone(), op.clone());
            proof {
                let c = choose|c: &mut C|
                    *c == *old(cursor) && *final(c) == *cursor && #[trigger] call_ensures(
                        C::seek,
                        (c, *key, *op),
                        raw,
                    );
                assert(called(*operation, c, found_answer(raw)));
            }
            with_result(raw)
        },
        Operation::Insert(key, record, moved_before) => {
            let call = C::insert;
            let raw = call(cursor, key, record, *moved_before);
            proof {
                let c = choose|c: &mut C|
                    *c == *old(cursor) && *final(c) == *cursor && #[trigger] call_ensures(
                        C::insert,
                        (c, *key, *record, *moved_before),
                        raw,
                    );
                assert(called(*operation, c, unit_answer(raw)));
            }
            without_result(raw)
        },
        Operation::KeyExists(key) => {
            let call = C::key_exists;
            let raw = call(cursor, key);
            proof {
                let c = choose|c: &mut C|
                    *c == *old(cursor) && *final(c) == *cursor && #[trigger] call_ensures(
                        C::key_exists,
                        (c, *key),
                        raw,
                    );
                assert(called(*operation, c, found_answer(raw)));
            }
            with_result(raw)
        },
    }
}

/// Whether every one of the calls of `operation` answered `IO`.
pub open spec fn all_waited<C: Cursor>(operation: Operation<'_>, calls: Seq<&mut C>) -> bool {
    forall|i: int|
        0 <= i < calls.len() ==> called(operation, #[trigger] calls[i], Ok(CursorResult::IO))
}

/// Calls the operation on the cursor, with the same arguments each time,
/// until it no longer answers `IO`, but at most `retries` times after the
/// first call.
///
/// The calls are those of [`poll`], one after the other: the first on the
/// cursor as it stands, each next one on the cursor as the call before left
/// it. Every call but the last answered `IO`, and the answer of the last
/// comes back. It is `IO` only where all of `retries + 1` calls answered
/// so.
///
/// So where the operation completes, its answer is the one that was
/// settled before the first call, whatever the number of `IO` answers
/// before it. Where it ends on `IO`, a bound that the cursor has on its `IO`
/// answers is lower by `retries + 1` at least, which cannot be where
/// `retries` reaches the bound; and what was settled is still settled, so
/// that the cursor can be polled on.
pub fn complete<C: Cursor>(cursor: &mut C, operation: &Operation<'_>, retries: usize) -> (r: Polled)
    ensures
        exists|calls: Seq<&mut C>|
            {
                &&& 1 <= calls.len() <= retries + 1
                &&& *calls[0] == *old(cursor)
                &&& *final(calls.last()) == *final(cursor)
                &&& forall|i: int|
                    0 <= i < calls.len() - 1 ==> called(
                        *operation,
                        #[trigger] calls[i],
                        Ok(CursorResult::IO),
                    ) && *final(calls[i]) == *calls[i + 1]
                &&& #[trigger] called(*operation, calls.last(), r)
                &&& r matches Ok(CursorResult::IO) ==> calls.len() == retries + 1
            },
        r matches Ok(CursorResult::IO) ==> operation.settled(*final(cursor)) == operation.settled(
            *old(cursor),
        ),
        r matches Ok(CursorResult::IO) ==> lowered_by(
            old(cursor).polls_left(),
            final(cursor).polls_left(),
            retries + 1,
        ),
        r matches Ok(CursorResult::Done(answer)) ==> operation.answers(*old(cursor), answer),
{
    let mut left = retries;
    proof {
        assert(all_waited(*operation, Seq::<&mut C>::empty()));
    }
    loop
        invariant
            left <= retries,
            operation.settled(*cursor) == operation.settled(*old(cursor)),
            lowered_by(old(cursor).polls_left(), cursor.polls_left(), retries - left),
            exists|waited: Seq<&mut C>|
                {
                    &&& #[trigger] all_waited(*operation, waited)
                    &&& waited.len() == retries - left
                    &&& waited.len() == 0 ==> *cursor == *old(cursor)
                    &&& waited.len() > 0 ==> *waited[0] == *old(cursor) && *final(waited.last())
                        == *cursor
                    &&& forall|i: int|
                        0 <= i < waited.len() - 1 ==> *final(#[trigger] waited[i]) == *waited[i
                            + 1]
                },
        decreases left,
    {
        let ghost before = *cursor;
        let ghost waited = choose|waited: Seq<&mut C>|
            {
                &&& #[trigger] all_waited(*operation, waited)
                &&& waited.len() == retries - left
                &&& waited.len() == 0 ==> before == *old(cursor)
                &&& waited.len() > 0 ==> *waited[0] == *old(cursor) && *final(waited.last())
                    == before
                &&& forall|i: int|
                    0 <= i < waited.len() - 1 ==> *final(#[trigger] waited[i]) == *waited[i + 1]
            };
        let answer = poll(cursor, operation);
        let ghost call = choose|c: &mut C|
            *c == before && *final(c) == *cursor && #[trigger] called(*operation, c, answer);
        let ghost calls = waited.push(call);
        proof {
            assert(calls.last() == call);
            assert(forall|i: int| 0 <= i < waited.len() ==> calls[i] == waited[i]);
            assert(*calls[0] == *old(cursor));
            assert forall|i: int| 0 <= i < calls.len() - 1 implies called(
                *operation,
                #[trigger] calls[i],
                Ok(CursorResult::IO),
            ) && *final(calls[i]) == *calls[i + 1] by {
                if i + 1 < waited.len() {
                    assert(*final(waited[i]) == *waited[i + 1]);
                }
            }
            assert(called(*operation, calls.last(), answer));
        }
        match answer {
            Ok(CursorResult::IO) => {
                if left == 0 {
                    return Ok(CursorResult::IO);
                }
                left = left - 1;
                proof {
                    assert(all_waited(*operation, calls));
                }
            },
            finished => {
                return finished;
            },
        }
    }
}

} // verus!
