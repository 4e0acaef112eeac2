//! Which SQL statements the database output skips: the full-text-search
//! triggers and tables, and SQLite's internal tables, which cannot be
//! replayed into a fresh database.
use vstd::prelude::*;

verus! {

/// ASCII "CREATE TRIGGER".
pub open spec fn create_trigger() -> Seq<u8> {
    seq![67u8, 82, 69, 65, 84, 69, 32, 84, 82, 73, 71, 71, 69, 82]
}

/// ASCII "_fts".
pub open spec fn fts_marker() -> Seq<u8> {
    seq![95u8, 102, 116, 115]
}

/// ASCII "CREATE TABLE sqlite_".
pub open spec fn create_internal_table() -> Seq<u8> {
    seq![67u8, 82, 69, 65, 84, 69, 32, 84, 65, 66, 76, 69, 32, 115, 113, 108, 105, 116, 101, 95]
}

pub open spec fn occurs_at(s: Seq<u8>, p: Seq<u8>, i: int) -> bool {
    0 <= i && i + p.len() <= s.len() && s.subrange(i, i + p.len()) == p
}

pub open spec fn has_prefix(s: Seq<u8>, p: Seq<u8>) -> bool {
    occurs_at(s, p, 0)
}

pub open spec fn has_infix(s: Seq<u8>, p: Seq<u8>) -> bool {
    exists|i: int| occurs_at(s, p, i)
}

/// Statements the database output does not execute.
pub open spec fn unsupported(s: Seq<u8>) -> bool {
    has_prefix(s, create_trigger()) || has_infix(s, fts_marker()) || has_prefix(s, create_internal_table())
}

fn occurs_at_exec(s: &[u8], p: &[u8], i: usize) -> (r: bool)
    ensures
        r == occurs_at(s@, p@, i as int),
{
    if i > s.len() || s.len() - i < p.len() {
        return false;
    }
    let n = s.len();
    let mut j: usize = 0;
    while j < p.len()
        invariant
            n == s@.len(),
            j <= p@.len(),
            i + p@.len() <= s@.len(),
            s@.subrange(i as int, i + j) == p@.subrange(0, j as int),
        decreases p@.len() - j,
    {
        if s[i + j] != p[j] {
            assert(s@.subrange(i as int, i + p@.len())[j as int] != p@[j as int]);
            return false;
        }
        assert(s@.subrange(i as int, i + j + 1) =~= s@.subrange(i as int, i + j).push(s@[i + j]));
        assert(p@.subrange(0, j + 1) =~= p@.subrange(0, j as int).push(p@[j as int]));
        j = j + 1;
    }
    assert(p@.subrange(0, p@.len() as int) =~= p@);
    true
}

fn contains(s: &[u8], p: &[u8]) -> (r: bool)
    ensures
        r == has_infix(s@, p@),
{
    if p.len() == 0 {
        assert(s@.subrange(0, 0) =~= p@);
        assert(occurs_at(s@, p@, 0));
        return true;
    }
    let mut i: usize = 0;
    while i < s.len()
        invariant
            i <= s@.len(),
            forall|k: int| 0 <= k < i ==> !occurs_at(s@, p@, k),
        decreases s@.len() - i,
    {
        if occurs_at_exec(s, p, i) {
            return true;
        }
        i = i + 1;
    }
    assert forall|k: int| !occurs_at(s@, p@, k) by {
        if 0 <= k && k < i {
        }
    }
    false
}

/// Whether the database output skips `statement` (given as UTF-8 bytes):
/// it begins with "CREATE TRIGGER" or "CREATE TABLE sqlite_", or contains "_fts".
pub fn is_unsupported_statement(statement: &[u8]) -> (r: bool)
    ensures
        r == unsupported(statement@),
{
    let trigger: Vec<u8> = vec![67u8, 82, 69, 65, 84, 69, 32, 84, 82, 73, 71, 71, 69, 82];
    let fts: Vec<u8> = vec![95u8, 102, 116, 115];
    let internal: Vec<u8> = vec![67u8, 82, 69, 65, 84, 69, 32, 84, 65, 66, 76, 69, 32, 115, 113, 108, 105, 116, 101, 95];
    assert(trigger@ == create_trigger());
    assert(fts@ == fts_marker());
    assert(internal@ == create_internal_table());
    occurs_at_exec(statement, trigger.as_slice(), 0) || contains(statement, fts.as_slice())
        || occurs_at_exec(statement, internal.as_slice(), 0)
}

/// ASCII "INSERT INTO sms".
pub open spec fn sms_insert() -> Seq<u8> {
    seq![73u8, 78, 83, 69, 82, 84, 32, 73, 78, 84, 79, 32, 115, 109, 115]
}

/// Whether `statement` (given as UTF-8 bytes) inserts a row of the SMS table,
/// the rows that the CSV output writes.
pub fn is_sms_insert(statement: &[u8]) -> (r: bool)
    ensures
        r == has_prefix(statement@, sms_insert()),
{
    let insert: Vec<u8> = vec![73u8, 78, 83, 69, 82, 84, 32, 73, 78, 84, 79, 32, 115, 109, 115];
    assert(insert@ == sms_insert());
    occurs_at_exec(statement, insert.as_slice(), 0)
}

} // verus!
