use limbo_values::cursor::{
    complete, poll, with_result, without_result, Cursor, CursorResult, Operation, SeekKey, SeekOp,
};
use limbo_values::error::LimboError;
use limbo_values::value::{OwnedRecord, OwnedValue};
use std::cell::{Ref, RefCell};

/// A table held in memory, whose operations each wait for a given number
/// of page fetches before they complete.
struct SlowTable {
    rows: Vec<(u64, OwnedRecord)>,
    position: Option<usize>,
    current: RefCell<Option<OwnedRecord>>,
    fetches: usize,
    waiting: usize,
    polls: usize,
    null_flag: bool,
    fails: bool,
}

impl SlowTable {
    fn new(ids: &[u64], fetches: usize) -> Self {
        let rows = ids
            .iter()
            .map(|id| (*id, OwnedRecord::new(vec![OwnedValue::Integer(*id as i64 * 10)])))
            .collect();
        SlowTable {
            rows,
            position: None,
            current: RefCell::new(None),
            fetches,
            waiting: fetches,
            polls: 0,
            null_flag: false,
            fails: false,
        }
    }

    /// Whether the operation has to be called again.
    fn wait(&mut self) -> Result<bool, LimboError> {
        self.polls += 1;
        if self.fails {
            return Err(LimboError::ConversionError("page unreadable".to_string()));
        }
        if self.waiting > 0 {
            self.waiting -= 1;
            Ok(true)
        } else {
            self.waiting = self.fetches;
            Ok(false)
        }
    }

    fn stand_at(&mut self, position: Option<usize>) {
        self.position = position;
        *self.current.borrow_mut() = position.map(|i| self.rows[i].1.clone());
    }
}

impl Cursor for SlowTable {
    fn is_empty(&self) -> bool {
        self.rows.is_empty()
    }

    fn rewind(&mut self) -> Result<CursorResult<()>, LimboError> {
        if self.wait()? {
            return Ok(CursorResult::IO);
        }
        let first = if self.rows.is_empty() { None } else { Some(0) };
        self.stand_at(first);
        Ok(CursorResult::Done(()))
    }

    fn last(&mut self) -> Result<CursorResult<()>, LimboError> {
        if self.wait()? {
            return Ok(CursorResult::IO);
        }
        self.stand_at(self.rows.len().checked_sub(1));
        Ok(CursorResult::Done(()))
    }

    fn next(&mut self) -> Result<CursorResult<()>, LimboError> {
        if self.wait()? {
            return Ok(CursorResult::IO);
        }
        let next = self.position.map(|i| i + 1).filter(|i| *i < self.rows.len());
        self.stand_at(next);
        Ok(CursorResult::Done(()))
    }

    fn prev(&mut self) -> Result<CursorResult<()>, LimboError> {
        if self.wait()? {
            return Ok(CursorResult::IO);
        }
        let prev = self.position.and_then(|i| i.checked_sub(1));
        self.stand_at(prev);
        Ok(CursorResult::Done(()))
    }

    fn wait_for_completion(&mut self) -> Result<(), LimboError> {
        self.waiting = 0;
        Ok(())
    }

    fn rowid(&self) -> Result<Option<u64>, LimboError> {
        Ok(self.position.map(|i| self.rows[i].0))
    }

    fn seek(&mut self, key: SeekKey<'_>, op: SeekOp) -> Result<CursorResult<bool>, LimboError> {
        if self.wait()? {
            return Ok(CursorResult::IO);
        }
        let wanted = match key {
            SeekKey::TableRowId(id) => id,
            SeekKey::IndexKey(_) => unreachable!(),
        };
        let found = self.rows.iter().position(|(id, _)| match op {
            SeekOp::EQ => *id == wanted,
            SeekOp::GE => *id >= wanted,
            SeekOp::GT => *id > wanted,
        });
        self.stand_at(found);
        Ok(CursorResult::Done(found.is_some()))
    }

    fn seek_to_last(&mut self) -> Result<CursorResult<()>, LimboError> {
        self.last()
    }

    fn record(&self) -> Result<Ref<'_, Option<OwnedRecord>>, LimboError> {
        Ok(self.current.borrow())
    }

    fn insert(
        &mut self,
        key: &OwnedValue,
        record: &OwnedRecord,
        _moved_before: bool,
    ) -> Result<CursorResult<()>, LimboError> {
        if self.wait()? {
            return Ok(CursorResult::IO);
        }
        let id = match key {
            OwnedValue::Integer(i) => *i as u64,
            _ => unreachable!(),
        };
        let at = self.rows.iter().position(|(other, _)| *other >= id).unwrap_or(self.rows.len());
        if at < self.rows.len() && self.rows[at].0 == id {
            self.rows[at].1 = record.clone();
        } else {
            self.rows.insert(at, (id, record.clone()));
        }
        Ok(CursorResult::Done(()))
    }

    fn key_exists(&mut self, key: &OwnedValue) -> Result<CursorResult<bool>, LimboError> {
        if self.wait()? {
            return Ok(CursorResult::IO);
        }
        let id = match key {
            OwnedValue::Integer(i) => *i as u64,
            _ => unreachable!(),
        };
        Ok(CursorResult::Done(self.rows.iter().any(|(other, _)| *other == id)))
    }

    fn set_null_flag(&mut self, flag: bool) {
        self.null_flag = flag;
    }

    fn get_null_flag(&self) -> bool {
        self.null_flag
    }

    fn btree_create(&mut self, _flags: usize) -> u32 {
        2
    }
}

#[test]
fn an_operation_answers_io_until_its_pages_are_there() {
    let mut table = SlowTable::new(&[1, 2, 3], 2);
    assert_eq!(table.rewind(), Ok(CursorResult::IO));
    assert_eq!(table.rewind(), Ok(CursorResult::IO));
    assert_eq!(table.rewind(), Ok(CursorResult::Done(())));
    assert_eq!(table.rowid(), Ok(Some(1)));
    assert_eq!(
        *table.record().unwrap(),
        Some(OwnedRecord::new(vec![OwnedValue::Integer(10)]))
    );
}

#[test]
fn the_answer_does_not_depend_on_the_number_of_retries() {
    let ids = [2u64, 4, 6, 8];
    for wanted in 0..10u64 {
        for op in [SeekOp::EQ, SeekOp::GE, SeekOp::GT] {
            let mut answers = Vec::new();
            for fetches in 0..5 {
                let mut table = SlowTable::new(&ids, fetches);
                let operation = Operation::Seek(SeekKey::TableRowId(wanted), op.clone());
                let answer = complete(&mut table, &operation, 10);
                assert_eq!(table.polls, fetches + 1);
                answers.push((answer, table.rowid()));
            }
            for other in &answers[1..] {
                assert_eq!(*other, answers[0]);
            }
            let expected = ids.iter().copied().find(|id| match op {
                SeekOp::EQ => *id == wanted,
                SeekOp::GE => *id >= wanted,
                SeekOp::GT => *id > wanted,
            });
            assert_eq!(
                answers[0],
                (Ok(CursorResult::Done(Some(expected.is_some()))), Ok(expected))
            );
        }
    }
}

#[test]
fn complete_stops_after_the_retries_it_was_given() {
    let key = OwnedValue::Integer(1);
    let operation = Operation::KeyExists(&key);
    let mut table = SlowTable::new(&[1], 5);
    assert_eq!(complete(&mut table, &operation, 0), Ok(CursorResult::IO));
    assert_eq!(table.polls, 1);
    assert_eq!(complete(&mut table, &operation, 2), Ok(CursorResult::IO));
    assert_eq!(table.polls, 4);
    assert_eq!(complete(&mut table, &operation, 2), Ok(CursorResult::Done(Some(true))));
    assert_eq!(table.polls, 6);
    let mut table = SlowTable::new(&[1], 5);
    assert_eq!(complete(&mut table, &operation, 5), Ok(CursorResult::Done(Some(true))));
    assert_eq!(table.polls, 6);
    let mut table = SlowTable::new(&[1], 5);
    assert_eq!(complete(&mut table, &operation, 4), Ok(CursorResult::IO));
    assert_eq!(table.polls, 5);
}

#[test]
fn complete_drives_every_operation() {
    let done = Ok(CursorResult::Done(None));
    let mut table = SlowTable::new(&[1, 2, 3], 3);
    assert_eq!(complete(&mut table, &Operation::Rewind, 3), done);
    assert_eq!(table.rowid(), Ok(Some(1)));
    assert_eq!(complete(&mut table, &Operation::Next, 3), done);
    assert_eq!(table.rowid(), Ok(Some(2)));
    assert_eq!(complete(&mut table, &Operation::Last, 3), done);
    assert_eq!(table.rowid(), Ok(Some(3)));
    assert_eq!(complete(&mut table, &Operation::Prev, 3), done);
    assert_eq!(table.rowid(), Ok(Some(2)));
    assert_eq!(complete(&mut table, &Operation::SeekToLast, 3), done);
    assert_eq!(table.rowid(), Ok(Some(3)));
    assert_eq!(complete(&mut table, &Operation::Next, 3), done);
    assert_eq!(table.rowid(), Ok(None));
    assert_eq!(*table.record().unwrap(), None);
    let key = OwnedValue::Integer(5);
    let row = OwnedRecord::new(vec![OwnedValue::Integer(50)]);
    assert_eq!(
        complete(&mut table, &Operation::KeyExists(&key), 3),
        Ok(CursorResult::Done(Some(false)))
    );
    assert_eq!(complete(&mut table, &Operation::Insert(&key, &row, false), 3), done);
    assert_eq!(
        complete(&mut table, &Operation::KeyExists(&key), 3),
        Ok(CursorResult::Done(Some(true)))
    );
    assert_eq!(
        complete(&mut table, &Operation::Seek(SeekKey::TableRowId(4), SeekOp::GT), 3),
        Ok(CursorResult::Done(Some(true)))
    );
    assert_eq!(table.rowid(), Ok(Some(5)));
    assert_eq!(*table.record().unwrap(), Some(row));
    assert!(!table.is_empty());
    assert!(SlowTable::new(&[], 0).is_empty());
}

#[test]
fn poll_calls_the_operation_once() {
    let mut table = SlowTable::new(&[7], 1);
    let key = OwnedValue::Integer(7);
    let operation = Operation::KeyExists(&key);
    assert_eq!(poll(&mut table, &operation), Ok(CursorResult::IO));
    assert_eq!(table.polls, 1);
    assert_eq!(poll(&mut table, &operation), Ok(CursorResult::Done(Some(true))));
    assert_eq!(table.polls, 2);
    assert_eq!(poll(&mut table, &Operation::Rewind), Ok(CursorResult::IO));
    assert_eq!(poll(&mut table, &Operation::Rewind), Ok(CursorResult::Done(None)));
}

#[test]
fn a_failure_ends_the_polling() {
    let mut table = SlowTable::new(&[1], 4);
    table.fails = true;
    let expected = LimboError::ConversionError("page unreadable".to_string());
    assert_eq!(complete(&mut table, &Operation::Rewind, 9), Err(expected));
    assert_eq!(table.polls, 1);
}

#[test]
fn waiting_for_completion_spares_the_retries() {
    let mut table = SlowTable::new(&[1, 2], 3);
    assert_eq!(table.wait_for_completion(), Ok(()));
    assert_eq!(table.rewind(), Ok(CursorResult::Done(())));
}

#[test]
fn the_null_flag_is_kept() {
    let mut table = SlowTable::new(&[], 0);
    assert!(!table.get_null_flag());
    table.set_null_flag(true);
    assert!(table.get_null_flag());
    table.set_null_flag(false);
    assert!(!table.get_null_flag());
    assert_eq!(table.btree_create(0), 2);
}

#[test]
fn seek_keys_compare_by_content() {
    let a = OwnedRecord::new(vec![OwnedValue::Integer(1)]);
    let b = OwnedRecord::new(vec![OwnedValue::Integer(1)]);
    assert_eq!(SeekKey::IndexKey(&a), SeekKey::IndexKey(&b));
    assert_ne!(SeekKey::IndexKey(&a), SeekKey::TableRowId(1));
    assert_eq!(SeekKey::TableRowId(3).clone(), SeekKey::TableRowId(3));
    assert_eq!(SeekOp::GE.clone(), SeekOp::GE);
    assert_ne!(SeekOp::GE, SeekOp::GT);
    assert_eq!(CursorResult::Done(1), CursorResult::Done(1));
    assert_ne!(CursorResult::Done(1), CursorResult::IO);
}

#[test]
fn answers_are_carried_over_as_they_are() {
    let failure = || LimboError::ConversionError("page unreadable".to_string());
    assert_eq!(without_result(Ok(CursorResult::Done(()))), Ok(CursorResult::Done(None)));
    assert_eq!(without_result(Ok(CursorResult::IO)), Ok(CursorResult::IO));
    assert_eq!(without_result(Err(failure())), Err(failure()));
    assert_eq!(with_result(Ok(CursorResult::Done(true))), Ok(CursorResult::Done(Some(true))));
    assert_eq!(with_result(Ok(CursorResult::Done(false))), Ok(CursorResult::Done(Some(false))));
    assert_eq!(with_result(Ok(CursorResult::IO)), Ok(CursorResult::IO));
    assert_eq!(with_result(Err(failure())), Err(failure()));
}

#[test]
fn each_call_is_made_on_the_cursor_as_the_last_left_it() {
    let mut table = SlowTable::new(&[1, 2, 3], 2);
    assert_eq!(complete(&mut table, &Operation::Rewind, 5), Ok(CursorResult::Done(None)));
    assert_eq!(table.polls, 3);
    assert_eq!(table.waiting, 2);
    assert_eq!(complete(&mut table, &Operation::Next, 1), Ok(CursorResult::IO));
    assert_eq!(table.polls, 5);
    assert_eq!(table.waiting, 0);
    assert_eq!(table.rowid(), Ok(Some(1)));
    assert_eq!(complete(&mut table, &Operation::Next, 0), Ok(CursorResult::Done(None)));
    assert_eq!(table.polls, 6);
    assert_eq!(table.rowid(), Ok(Some(2)));
}
