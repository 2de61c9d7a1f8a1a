//! The decisions behind the backups a write makes first: when one is due,
//! what it is called, and which old ones are pruned; and the schema check
//! made on open.

use vstd::prelude::*;

use crate::db::repo::family::opt_view;
use crate::text::{chars_of, decimal, lemma_decimal_digits, parse_u64, parse_unsigned_spec, push_decimal, str_eq, string_of};

verus! {

/// Minimum wait between two backups of one editing session, in seconds.
pub const BACKUP_INTERVAL_SECS: u64 = 300;

/// How many backup files are kept beside the tree.
pub const BACKUP_KEEP: usize = 10;

/// The Gramps schema version this library reads and writes (Gramps 6.0.x).
pub const SUPPORTED_SCHEMA: &'static str = "21";

/// Whether a write must first back the tree up: there is no backup of this
/// session yet, the clock went back since the last one, or at least the
/// interval has passed. Times are nanoseconds since the unix epoch.
pub fn backup_due(last: Option<u128>, now: u128) -> (r: bool)
    ensures
        r == match last {
            None => true,
            Some(prev) => now < prev || now - prev >= BACKUP_INTERVAL_SECS * 1_000_000_000,
        },
{
    match last {
        None => true,
        Some(prev) => now < prev || now - prev >= 300_000_000_000,
    }
}

/// The backup file name for a tree file name and a unix time:
/// `<name>.bak-<seconds>`.
pub fn backup_file_name(file_name: &str, stamp: u64) -> (r: String)
    ensures
        r@ == file_name@ + ".bak-"@ + decimal(stamp as nat),
{
    let mut out = String::from_str(file_name);
    out.append(".bak-");
    push_decimal(&mut out, stamp);
    out
}

/// The unix time a directory entry's name carries when it is a backup of
/// the tree file `base`: `<base>.bak-<seconds>`.
pub open spec fn backup_stamp_of(name: Seq<char>, base: Seq<char>) -> Option<u64> {
    let prefix = base + ".bak-"@;
    if name.len() >= prefix.len() && name.subrange(0, prefix.len() as int) == prefix {
        match parse_unsigned_spec(name.subrange(prefix.len() as int, name.len() as int)) {
            Some(v) => if v <= u64::MAX {
                Some(v as u64)
            } else {
                None
            },
            None => None,
        }
    } else {
        None
    }
}

/// The unix time read back from a backup's name is the one it was named
/// with.
pub proof fn lemma_backup_name_round_trip(file_name: Seq<char>, stamp: u64)
    ensures
        backup_stamp_of(file_name + ".bak-"@ + decimal(stamp as nat), file_name) == Some(stamp),
{
    let prefix = file_name + ".bak-"@;
    let digits = decimal(stamp as nat);
    let name = prefix + digits;
    lemma_decimal_digits(stamp as nat);
    assert(name.subrange(0, prefix.len() as int) =~= prefix);
    assert(name.subrange(prefix.len() as int, name.len() as int) =~= digits);
    assert('0' <= digits[0] <= '9');
}

/// The unix time in a backup file's name, when `name` names a backup of
/// `base`.
pub fn backup_stamp(name: &str, base: &str) -> (r: Option<u64>)
    ensures
        r == backup_stamp_of(name@, base@),
{
    let mut prefix = String::from_str(base);
    prefix.append(".bak-");
    let cs = chars_of(name);
    let pcs = chars_of(prefix.as_str());
    if cs.len() < pcs.len() {
        return None;
    }
    let head = string_of(&cs, 0, pcs.len());
    if !str_eq(head.as_str(), prefix.as_str()) {
        return None;
    }
    let rest = string_of(&cs, pcs.len(), cs.len());
    parse_u64(rest.as_str())
}

/// The place of entry `i` when the entries are sorted by time, earlier
/// positions first among equal times.
pub open spec fn age_rank(stamps: Seq<u64>, i: int) -> nat {
    Set::new(|j: int| 0 <= j < stamps.len() && (stamps[j] < stamps[i] || (stamps[j] == stamps[i] && j < i))).len()
}

/// The oldest backups beyond the `keep` newest: the entries whose place in
/// time order comes before the last `keep`.
pub open spec fn pruned(stamps: Seq<u64>, keep: nat, i: int) -> bool {
    stamps.len() > keep && (age_rank(stamps, i) as int) < stamps.len() - keep
}

proof fn lemma_rank_count(stamps: Seq<u64>, i: int, k: int)
    requires
        0 <= i < stamps.len(),
        0 <= k <= stamps.len(),
    ensures
        Set::new(|j: int| 0 <= j < k && (stamps[j] < stamps[i] || (stamps[j] == stamps[i] && j < i))).finite(),
        Set::new(|j: int| 0 <= j < k && (stamps[j] < stamps[i] || (stamps[j] == stamps[i] && j < i))).len() <= k,
    decreases k,
{
    let s = Set::new(|j: int| 0 <= j < k && (stamps[j] < stamps[i] || (stamps[j] == stamps[i] && j < i)));
    if k == 0 {
        assert(s =~= Set::empty());
    } else {
        lemma_rank_count(stamps, i, k - 1);
        let t = Set::new(|j: int| 0 <= j < k - 1 && (stamps[j] < stamps[i] || (stamps[j] == stamps[i] && j < i)));
        if stamps[k - 1] < stamps[i] || (stamps[k - 1] == stamps[i] && k - 1 < i) {
            assert(s =~= t.insert(k - 1));
        } else {
            assert(s =~= t);
        }
    }
}

/// The positions, in directory order, of the backups to remove so that
/// only the `keep` newest remain (by time, earlier entries counting as
/// older among equal times); none when there are at most `keep`.
pub fn backups_to_prune(stamps: &Vec<u64>, keep: usize) -> (r: Vec<usize>)
    ensures
        forall|k: int| 0 <= k < r@.len() ==> (#[trigger] r@[k]) < stamps@.len() && pruned(stamps@, keep as nat, r@[k] as int),
        forall|i: int| 0 <= i < stamps@.len() && pruned(stamps@, keep as nat, i) ==> r@.contains(i as usize),
        forall|a: int, b: int| 0 <= a < b < r@.len() ==> r@[a] < r@[b],
{
    let n = stamps.len();
    let mut out: Vec<usize> = Vec::new();
    if n <= keep {
        return out;
    }
    let excess = n - keep;
    let mut i: usize = 0;
    while i < n
        invariant
            n == stamps@.len(),
            n > keep,
            excess == n - keep,
            i <= n,
            forall|k: int| 0 <= k < out@.len() ==> (#[trigger] out@[k]) < i && pruned(stamps@, keep as nat, out@[k] as int),
            forall|x: int| 0 <= x < i && pruned(stamps@, keep as nat, x) ==> out@.contains(x as usize),
            forall|a: int, b: int| 0 <= a < b < out@.len() ==> out@[a] < out@[b],
        decreases n - i,
    {
        let mut rank: usize = 0;
        let mut j: usize = 0;
        assert(Set::new(|x: int| 0 <= x < 0 && (stamps@[x] < stamps@[i as int] || (stamps@[x] == stamps@[i as int] && x < i))) =~= Set::<
            int,
        >::empty());
        while j < n
            invariant
                n == stamps@.len(),
                i < n,
                j <= n,
                rank == Set::new(|x: int| 0 <= x < j && (stamps@[x] < stamps@[i as int] || (stamps@[x] == stamps@[i as int] && x < i))).len(),
                rank <= j,
            decreases n - j,
        {
            let ghost before = Set::new(|x: int| 0 <= x < j && (stamps@[x] < stamps@[i as int] || (stamps@[x] == stamps@[i as int] && x < i)));
            let ghost after = Set::new(|x: int| 0 <= x < j + 1 && (stamps@[x] < stamps@[i as int] || (stamps@[x] == stamps@[i as int] && x < i)));
            proof {
                lemma_rank_count(stamps@, i as int, j as int);
            }
            if stamps[j] < stamps[i] || (stamps[j] == stamps[i] && j < i) {
                assert(after =~= before.insert(j as int));
                rank = rank + 1;
            } else {
                assert(after =~= before);
            }
            j = j + 1;
        }
        assert(Set::new(|x: int| 0 <= x < n && (stamps@[x] < stamps@[i as int] || (stamps@[x] == stamps@[i as int] && x < i))) =~= Set::new(
            |x: int| 0 <= x < stamps@.len() && (stamps@[x] < stamps@[i as int] || (stamps@[x] == stamps@[i as int] && x < i)),
        ));
        let ghost prev = out@;
        if rank < excess {
            out.push(i);
            assert(out@[out@.len() - 1] == i);
        }
        assert forall|x: int| 0 <= x < i + 1 && pruned(stamps@, keep as nat, x) implies out@.contains(x as usize) by {
            if x < i {
                let k = choose|k: int| 0 <= k < prev.len() && prev[k] == x as usize;
                assert(out@[k] == prev[k]);
            } else {
                assert(out@[out@.len() - 1] == i);
            }
        }
        i = i + 1;
    }
    out
}

/// Whether a tree's `metadata.version` value is the supported schema.
pub fn schema_supported(version: &str) -> (r: bool)
    ensures
        r == (version@ == SUPPORTED_SCHEMA@),
{
    str_eq(version, SUPPORTED_SCHEMA)
}

/// The string at the top-level key `key` of a JSON document, when the text
/// parses as JSON and holds a string there.
pub uninterp spec fn json_string_field(text: Seq<char>, key: Seq<char>) -> Option<Seq<char>>;

/// `serde_json::from_str` on the text, then the string at `key`
/// (`Value::get`); text that does not parse, or holds no string there,
/// gives none. The result is named by [`json_string_field`]; what JSON
/// text gives which string is left to serde_json.
#[verifier::external_body]
fn json_string_at(text: &str, key: &str) -> (r: Option<String>)
    ensures
        opt_view(r) == json_string_field(text@, key@),
{
    match serde_json::from_str::<serde_json::Value>(text) {
        Ok(v) => match v.get(key) {
            Some(serde_json::Value::String(x)) => Some(x.clone()),
            _ => None,
        },
        Err(_) => None,
    }
}

/// The key of a `metadata` row's JSON document that holds its value.
pub const METADATA_VALUE_KEY: &'static str = "value";

/// Why a tree file's schema is refused.
#[derive(Debug, Clone, PartialEq, Eq)]
pub enum SchemaError {
    /// The `metadata.version` row holds no version string.
    NoVersion,
    /// The version is not the supported one.
    Unsupported { version: String },
}

/// Check the JSON document of a tree's `metadata.version` row: its `value`
/// must be the supported schema version.
pub fn check_schema_row(row: &str) -> (r: Result<(), SchemaError>)
    ensures
        match json_string_field(row@, METADATA_VALUE_KEY@) {
            None => r == Err::<(), SchemaError>(SchemaError::NoVersion),
            Some(v) => if v == SUPPORTED_SCHEMA@ {
                r is Ok
            } else {
                r matches Err(SchemaError::Unsupported { version }) && version@ == v
            },
        },
{
    match json_string_at(row, METADATA_VALUE_KEY) {
        None => Err(SchemaError::NoVersion),
        Some(v) => if schema_supported(v.as_str()) {
            Ok(())
        } else {
            Err(SchemaError::Unsupported { version: v })
        },
    }
}

} // verus!
