//! Helpers shared by the per-type modules: errors, the clock, gramps-id
//! allocation, and the insert / delete steps every table shares.

use vstd::prelude::*;

use crate::db::keyed::{find, find_key, has_key, lemma_find_key, lemma_find_push, lemma_find_remove, unique_keys, HasGrampsId, Keyed};
use crate::db::refs::{drop_obj, inbound, inbound_ref_count, remove_references, ObjClass, Reference};
use crate::text::{
    all_digits, chars_of, decimal, digit_chars, digits_value, format_int_padded, int_decimal_padded,
    parse_i64, parse_in_range, push_char, string_of,
};

verus! {

/// Why a write was refused.
#[derive(Debug, Clone, PartialEq, Eq)]
pub enum RepoError {
    /// No row of that class has that handle.
    NotFound { class: ObjClass, handle: String },
    /// Other objects still point at the row: `count` rows of the
    /// `reference` table.
    StillReferenced { class: ObjClass, handle: String, count: usize },
    /// A new row was given a handle that a row of its table already has.
    HandleInUse { class: ObjClass, handle: String },
    /// The table's gramps ids already reach `i64::MAX`.
    IdsExhausted { class: ObjClass },
    /// A sibling was to be added to a person with no parent family.
    NoParentFamily { handle: String },
    /// A gramps id typed into a form names no row of that class.
    UnknownGrampsId { class: ObjClass, gramps_id: String },
}

#[verifier::external_type_specification]
#[verifier::external_body]
pub struct ExSystemTime(std::time::SystemTime);

/// `SystemTime::now`: what the system clock reads. Nothing is stated of it.
#[verifier::external_body]
fn system_now() -> (r: std::time::SystemTime) {
    std::time::SystemTime::now()
}

/// `SystemTime::duration_since(UNIX_EPOCH)`: the time since the epoch, or
/// none (its error) when `t` lies before it. Nothing is stated of the
/// duration.
#[verifier::external_body]
fn since_epoch(t: &std::time::SystemTime) -> (r: Option<std::time::Duration>) {
    match t.duration_since(std::time::UNIX_EPOCH) {
        Ok(d) => Some(d),
        Err(_) => None,
    }
}

/// `Duration::as_secs`: the whole seconds of `d`. Nothing is stated of
/// them.
#[verifier::external_body]
fn whole_seconds(d: &std::time::Duration) -> (r: u64) {
    d.as_secs()
}

/// What the system clock reads, as whole seconds since the unix epoch, or
/// none when it reads before the epoch.
fn clock_reading() -> (r: Option<u64>) {
    let t = system_now();
    match since_epoch(&t) {
        Some(d) => Some(whole_seconds(&d)),
        None => None,
    }
}

/// The `change` stamp of a clock reading: its seconds as an `i64` (as the
/// `as` cast converts them), 0 for a clock before the epoch.
pub open spec fn stamp_of(reading: Option<u64>) -> i64 {
    match reading {
        Some(s) => s as i64,
        None => 0,
    }
}

/// The `change` stamp of a clock reading; see [`stamp_of`].
pub fn unix_stamp(reading: Option<u64>) -> (r: i64)
    ensures
        r == stamp_of(reading),
{
    match reading {
        Some(s) => {
            #[verifier::truncate]
            let r = s as i64;
            r
        },
        None => 0,
    }
}

/// Current unix time in seconds, for the `change` stamp of a write: the
/// stamp of the clock's reading ([`unix_stamp`]). Which second the clock
/// reads is not stated.
pub fn now_unix() -> i64 {
    unix_stamp(clock_reading())
}

/// Appends a new row, refusing a handle its table already has.
pub fn insert_row<T: Keyed>(rows: &mut Vec<T>, x: T, class: ObjClass) -> (r: Result<usize, RepoError>)
    ensures
        match r {
            Ok(i) => {
                &&& !has_key(old(rows)@, x.key())
                &&& i == old(rows)@.len()
                &&& final(rows)@ == old(rows)@.push(x)
                &&& find_key(final(rows)@, x.key()) == Some(i as int)
                &&& unique_keys(old(rows)@) ==> unique_keys(final(rows)@)
            },
            Err(e) => {
                &&& has_key(old(rows)@, x.key())
                &&& final(rows)@ == old(rows)@
                &&& e matches RepoError::HandleInUse { class: c, handle: h } && c == class && h@ == x.key()
            },
        },
{
    match find(rows, x.key_str()) {
        Some(_) => {
            proof {
                lemma_find_key(rows@, x.key());
            }
            let h = String::from_str(x.key_str());
            Err(RepoError::HandleInUse { class, handle: h })
        },
        None => {
            proof {
                lemma_find_key(rows@, x.key());
                lemma_find_push(rows@, x);
            }
            let i = rows.len();
            rows.push(x);
            Ok(i)
        },
    }
}

/// Deletes the row with this handle if nothing points at it any more, and
/// with it the row's own outbound references.
pub fn delete_unused<T: Keyed>(
    rows: &mut Vec<T>,
    references: &mut Vec<Reference>,
    handle: &str,
    class: ObjClass,
    drop_own_refs: bool,
) -> (r: Result<(), RepoError>)
    ensures
        match r {
            Ok(()) => {
                &&& inbound(old(references)@, handle@) == 0
                &&& find_key(old(rows)@, handle@) matches Some(i)
                    && final(rows)@ == old(rows)@.remove(i)
                &&& final(references)@ == if drop_own_refs {
                    drop_obj(old(references)@, handle@)
                } else {
                    old(references)@
                }
                &&& unique_keys(old(rows)@) ==> unique_keys(final(rows)@) && !has_key(final(rows)@, handle@)
            },
            Err(e) => {
                &&& final(rows)@ == old(rows)@
                &&& final(references)@ == old(references)@
                &&& match e {
                    RepoError::StillReferenced { class: c, handle: h, count } => {
                        &&& inbound(old(references)@, handle@) > 0
                        &&& count == inbound(old(references)@, handle@)
                        &&& c == class && h@ == handle@
                    },
                    RepoError::NotFound { class: c, handle: h } => {
                        &&& inbound(old(references)@, handle@) == 0
                        &&& !has_key(old(rows)@, handle@)
                        &&& c == class && h@ == handle@
                    },
                    _ => false,
                }
            },
        },
{
    let count = inbound_ref_count(references, handle);
    if count > 0 {
        return Err(RepoError::StillReferenced { class, handle: String::from_str(handle), count });
    }
    match find(rows, handle) {
        None => {
            proof {
                lemma_find_key(rows@, handle@);
            }
            Err(RepoError::NotFound { class, handle: String::from_str(handle) })
        },
        Some(i) => {
            proof {
                lemma_find_key(rows@, handle@);
                lemma_find_remove(rows@, i as int);
            }
            rows.remove(i);
            if drop_own_refs {
                remove_references(references, handle);
            }
            Ok(())
        },
    }
}

/// Takes row `i` out of its table, to be edited and put back.
pub(crate) fn take_row<T>(rows: &mut Vec<T>, i: usize) -> (r: T)
    requires
        i < old(rows)@.len(),
    ensures
        r == old(rows)@[i as int],
        final(rows)@ == old(rows)@.remove(i as int),
{
    rows.remove(i)
}

/// Puts an edited row back where [`take_row`] took it from.
pub(crate) fn put_row<T: Keyed>(rows: &mut Vec<T>, i: usize, x: T, Ghost(before): Ghost<Seq<T>>)
    requires
        i < before.len(),
        old(rows)@ == before.remove(i as int),
        before[i as int].key() == x.key(),
    ensures
        final(rows)@ == before.update(i as int, x),
        unique_keys(before) ==> unique_keys(final(rows)@),
        forall|h: Seq<char>| find_key(final(rows)@, h) == find_key(before, h),
{
    rows.insert(i, x);
    assert(rows@ =~= before.update(i as int, x));
    proof {
        crate::db::keyed::lemma_find_update(before, i as int, x);
    }
}

/// An id the allocator counts: the prefix letter followed by a digit
/// (the SQL pattern `GLOB '<prefix>[0-9]*'`).
pub open spec fn is_id_candidate(id: Seq<char>, prefix: char) -> bool {
    &&& id.len() >= 2
    &&& id[0] == prefix
    &&& '0' <= id[1] <= '9'
}

/// The number after the prefix letter, or -1 when the rest is not an
/// `i64`.
pub open spec fn id_number(id: Seq<char>) -> int {
    match parse_in_range(id.drop_first(), i64::MIN as int, i64::MAX as int) {
        Some(v) => v,
        None => -1,
    }
}

/// The largest number among the candidate ids, or -1.
pub open spec fn max_id_number(ids: Seq<Seq<char>>, prefix: char) -> int
    decreases ids.len(),
{
    if ids.len() == 0 {
        -1
    } else {
        let m = max_id_number(ids.drop_last(), prefix);
        let l = ids.last();
        if is_id_candidate(l, prefix) && id_number(l) > m {
            id_number(l)
        } else {
            m
        }
    }
}

/// The gramps ids of a table, in row order.
pub open spec fn gids<T: HasGrampsId>(s: Seq<T>) -> Seq<Seq<char>> {
    s.map_values(|t: T| t.gid())
}

/// The next id: the prefix and one more than the largest number in use,
/// zero-padded to four digits (`N0005`, `R0012`, ...).
pub open spec fn next_id_spec(ids: Seq<Seq<char>>, prefix: char) -> Seq<char> {
    seq![prefix] + int_decimal_padded(max_id_number(ids, prefix) + 1, 4)
}

/// Whether the ids of a table leave room for a next id: the largest number
/// in use is below `i64::MAX`.
pub open spec fn id_room(ids: Seq<Seq<char>>, prefix: char) -> bool {
    max_id_number(ids, prefix) < i64::MAX
}

/// Whether the ids of a table leave room for `n` more ids.
pub open spec fn id_room_for(ids: Seq<Seq<char>>, prefix: char, n: int) -> bool {
    max_id_number(ids, prefix) + n <= i64::MAX
}

/// The largest number among the table's ids that start with `prefix` and a
/// digit, or -1 when there is none.
pub fn max_gramps_number<T: HasGrampsId>(rows: &Vec<T>, prefix: char) -> (r: i64)
    ensures
        r == max_id_number(gids(rows@), prefix),
{
    let ghost ids = gids(rows@);
    let mut max: i64 = -1;
    let mut i: usize = 0;
    while i < rows.len()
        invariant
            i <= rows@.len(),
            ids == gids(rows@),
            max == max_id_number(ids.subrange(0, i as int), prefix),
        decreases rows.len() - i,
    {
        assert(ids.subrange(0, i + 1).drop_last() =~= ids.subrange(0, i as int));
        let cs = chars_of(rows[i].gid_str());
        if cs.len() >= 2 && cs[0] == prefix && '0' <= cs[1] && cs[1] <= '9' {
            let rest = string_of(&cs, 1, cs.len());
            assert(rest@ =~= cs@.drop_first());
            let num: i64 = match parse_i64(rest.as_str()) {
                Some(v) => v,
                None => -1,
            };
            if num > max {
                max = num;
            }
        }
        i = i + 1;
    }
    assert(ids.subrange(0, rows@.len() as int) =~= ids);
    max
}

/// Allocates the next sequential gramps id of a table. `None` when the
/// largest number in use is already `i64::MAX`.
pub fn next_gramps_id<T: HasGrampsId>(rows: &Vec<T>, prefix: char) -> (r: Option<String>)
    ensures
        match r {
            Some(id) => id_room(gids(rows@), prefix) && id@ == next_id_spec(gids(rows@), prefix),
            None => !id_room(gids(rows@), prefix),
        },
{
    let max = max_gramps_number(rows, prefix);
    if max == 0x7fff_ffff_ffff_ffff {
        return None;
    }
    let mut out = String::new();
    push_char(&mut out, prefix);
    let digits = format_int_padded(max + 1, 4);
    out.append(digits.as_str());
    assert(out@ =~= next_id_spec(gids(rows@), prefix));
    Some(out)
}

/// The ids of a table after a row with the next id is added: the largest
/// number in use goes up by one.
pub proof fn lemma_next_id_push<T: HasGrampsId>(rows: Seq<T>, x: T, prefix: char)
    requires
        id_room(gids(rows), prefix),
        x.gid() == next_id_spec(gids(rows), prefix),
    ensures
        gids(rows.push(x)) == gids(rows).push(x.gid()),
        max_id_number(gids(rows.push(x)), prefix) == max_id_number(gids(rows), prefix) + 1,
{
    assert(gids(rows.push(x)) =~= gids(rows).push(x.gid()));
    lemma_next_id_fresh(gids(rows), prefix);
    let ids = gids(rows).push(x.gid());
    assert(ids.drop_last() =~= gids(rows));
}

proof fn lemma_max_id_number(ids: Seq<Seq<char>>, prefix: char)
    ensures
        max_id_number(ids, prefix) >= -1,
        max_id_number(ids, prefix) <= i64::MAX,
        forall|k: int|
            0 <= k < ids.len() && is_id_candidate(ids[k], prefix) ==> id_number(#[trigger] ids[k]) <= max_id_number(ids, prefix),
    decreases ids.len(),
{
    if ids.len() > 0 {
        lemma_max_id_number(ids.drop_last(), prefix);
        let l = ids.last();
        assert(id_number(l) <= i64::MAX);
        assert forall|k: int| 0 <= k < ids.len() && is_id_candidate(ids[k], prefix) implies id_number(#[trigger] ids[k]) <= max_id_number(ids, prefix) by {
            if k < ids.len() - 1 {
                assert(ids[k] == ids.drop_last()[k]);
            }
        }
    }
}

proof fn lemma_digit_value(k: int)
    requires
        0 <= k < 10,
    ensures
        '0' <= digit_chars()[k] <= '9',
        digit_chars()[k] as int - '0' as int == k,
{
}

proof fn lemma_decimal_value(n: nat)
    ensures
        all_digits(decimal(n)),
        digits_value(decimal(n)) == n,
        decimal(n).len() >= 1,
    decreases n,
{
    if n < 10 {
        lemma_digit_value(n as int);
        assert(decimal(n).drop_last() =~= Seq::<char>::empty());
        assert(digits_value(decimal(n).drop_last()) == 0);
    } else {
        lemma_decimal_value(n / 10);
        lemma_digit_value((n % 10) as int);
        assert(decimal(n).drop_last() =~= decimal(n / 10));
        assert((n / 10) * 10 + n % 10 == n) by (nonlinear_arith);
        assert(all_digits(decimal(n))) by {
            assert forall|i: int| 0 <= i < decimal(n).len() implies '0' <= #[trigger] decimal(n)[i] <= '9' by {
                if i < decimal(n).len() - 1 {
                    assert(decimal(n)[i] == decimal(n / 10)[i]);
                }
            }
        }
    }
}

proof fn lemma_zeros_value(z: Seq<char>, s: Seq<char>)
    requires
        forall|i: int| 0 <= i < z.len() ==> z[i] == '0',
    ensures
        digits_value(z + s) == digits_value(s),
    decreases s.len() + z.len(),
{
    if s.len() > 0 {
        assert((z + s).drop_last() =~= z + s.drop_last());
        lemma_zeros_value(z, s.drop_last());
    } else if z.len() > 0 {
        assert(z + s =~= z);
        assert(z.drop_last() + s =~= z.drop_last());
        lemma_zeros_value(z.drop_last(), s);
    } else {
        assert(z + s =~= s);
    }
}

proof fn lemma_padded_parses(n: int)
    requires
        0 <= n <= i64::MAX,
    ensures
        parse_in_range(int_decimal_padded(n, 4), i64::MIN as int, i64::MAX as int) == Some(n),
        int_decimal_padded(n, 4).len() >= 1,
        '0' <= int_decimal_padded(n, 4)[0] <= '9',
{
    let d = decimal(n as nat);
    lemma_decimal_value(n as nat);
    let p = int_decimal_padded(n, 4);
    if d.len() < 4 {
        let z = Seq::new((4 - d.len()) as nat, |i: int| '0');
        assert(p == z + d);
        lemma_zeros_value(z, d);
        assert(all_digits(p)) by {
            assert forall|i: int| 0 <= i < p.len() implies '0' <= #[trigger] p[i] <= '9' by {
                if i >= z.len() {
                    assert(p[i] == d[i - z.len()]);
                }
            }
        }
        assert(p[0] == '0');
    } else {
        assert(p == d);
    }
}

/// The next gramps id of a table differs from every id already in it.
pub proof fn lemma_next_id_fresh(ids: Seq<Seq<char>>, prefix: char)
    requires
        id_room(ids, prefix),
    ensures
        is_id_candidate(next_id_spec(ids, prefix), prefix),
        id_number(next_id_spec(ids, prefix)) == max_id_number(ids, prefix) + 1,
        forall|k: int| 0 <= k < ids.len() ==> #[trigger] ids[k] != next_id_spec(ids, prefix),
{
    lemma_max_id_number(ids, prefix);
    let n = max_id_number(ids, prefix) + 1;
    let id = next_id_spec(ids, prefix);
    lemma_padded_parses(n);
    assert(id.drop_first() =~= int_decimal_padded(n, 4));
    assert(id[1] == int_decimal_padded(n, 4)[0]);
    assert forall|k: int| 0 <= k < ids.len() implies #[trigger] ids[k] != id by {
        if ids[k] == id {
            assert(is_id_candidate(ids[k], prefix));
        }
    }
}

} // verus!
