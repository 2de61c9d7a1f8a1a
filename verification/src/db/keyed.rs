//! Rows addressed by handle, and links that point at a handle.

use vstd::prelude::*;

use crate::gramps::citation::Citation;
use crate::gramps::common::MediaRef;
use crate::gramps::event::{Event, EventRef};
use crate::gramps::family::{ChildRef, Family};
use crate::gramps::media::Media;
use crate::gramps::note::Note;
use crate::gramps::person::{Person, PersonRef};
use crate::gramps::place::{Place, PlaceRef};
use crate::gramps::repository::Repository;
use crate::gramps::source::{RepoRef, Source};
use crate::gramps::tag::Tag;
use crate::text::str_eq;

verus! {

/// A row of a primary table: it has a handle.
pub trait Keyed {
    spec fn key(&self) -> Seq<char>;

    fn key_str(&self) -> (r: &str)
        ensures
            r@ == self.key(),
    ;
}

/// A row that also carries a user-facing `gramps_id` such as `I0001`.
pub trait HasGrampsId {
    spec fn gid(&self) -> Seq<char>;

    fn gid_str(&self) -> (r: &str)
        ensures
            r@ == self.gid(),
    ;
}

/// A link that names another object by handle.
pub trait RefLink {
    spec fn target(&self) -> Seq<char>;

    fn target_string(&self) -> (r: &String)
        ensures
            r@ == self.target(),
    ;
}

/// The first row at or after `i` whose handle is `h`.
pub open spec fn key_pos<T: Keyed>(s: Seq<T>, h: Seq<char>, i: int) -> Option<int>
    decreases s.len() - i,
{
    if i < 0 || i >= s.len() {
        None
    } else if s[i].key() == h {
        Some(i)
    } else {
        key_pos(s, h, i + 1)
    }
}

/// The first row whose handle is `h`.
pub open spec fn find_key<T: Keyed>(s: Seq<T>, h: Seq<char>) -> Option<int> {
    key_pos(s, h, 0)
}

/// Some row has handle `h`.
pub open spec fn has_key<T: Keyed>(s: Seq<T>, h: Seq<char>) -> bool {
    exists|i: int| 0 <= i < s.len() && #[trigger] s[i].key() == h
}

/// No two rows share a handle.
pub open spec fn unique_keys<T: Keyed>(s: Seq<T>) -> bool {
    forall|i: int, j: int| 0 <= i < s.len() && 0 <= j < s.len() && i != j ==> #[trigger] s[i].key() != #[trigger] s[j].key()
}

/// The first row at or after `i` whose gramps id is `g`.
pub open spec fn gid_pos<T: HasGrampsId>(s: Seq<T>, g: Seq<char>, i: int) -> Option<int>
    decreases s.len() - i,
{
    if i < 0 || i >= s.len() {
        None
    } else if s[i].gid() == g {
        Some(i)
    } else {
        gid_pos(s, g, i + 1)
    }
}

/// The first row whose gramps id is `g`.
pub open spec fn find_gid_spec<T: HasGrampsId>(s: Seq<T>, g: Seq<char>) -> Option<int> {
    gid_pos(s, g, 0)
}

proof fn lemma_key_pos<T: Keyed>(s: Seq<T>, h: Seq<char>, i: int)
    requires
        0 <= i <= s.len(),
    ensures
        key_pos(s, h, i) matches Some(k) ==> i <= k < s.len() && s[k].key() == h && forall|j: int| i <= j < k ==> s[j].key() != h,
        key_pos(s, h, i) is None ==> forall|j: int| i <= j < s.len() ==> s[j].key() != h,
    decreases s.len() - i,
{
    if i < s.len() && s[i].key() != h {
        lemma_key_pos(s, h, i + 1);
    }
}

/// What [`find_key`] says of a sequence of rows.
pub proof fn lemma_find_key<T: Keyed>(s: Seq<T>, h: Seq<char>)
    ensures
        find_key(s, h) matches Some(k) ==> 0 <= k < s.len() && s[k].key() == h && forall|j: int| 0 <= j < k ==> s[j].key() != h,
        find_key(s, h) is None <==> !has_key(s, h),
        unique_keys(s) ==> (find_key(s, h) matches Some(k) ==> forall|j: int| 0 <= j < s.len() && j != k ==> s[j].key() != h),
{
    lemma_key_pos(s, h, 0);
    if find_key(s, h) is None {
        assert(!has_key(s, h));
    }
}

proof fn lemma_gid_pos<T: HasGrampsId>(s: Seq<T>, g: Seq<char>, i: int)
    requires
        0 <= i <= s.len(),
    ensures
        gid_pos(s, g, i) matches Some(k) ==> i <= k < s.len() && s[k].gid() == g,
    decreases s.len() - i,
{
    if i < s.len() && s[i].gid() != g {
        lemma_gid_pos(s, g, i + 1);
    }
}

/// Appending a row with a new handle keeps handles unique, and the new row
/// is the one a lookup of its handle finds.
pub proof fn lemma_find_push<T: Keyed>(s: Seq<T>, x: T)
    requires
        !has_key(s, x.key()),
    ensures
        find_key(s.push(x), x.key()) == Some(s.len() as int),
        unique_keys(s) ==> unique_keys(s.push(x)),
        forall|h: Seq<char>| h != x.key() ==> find_key(s.push(x), h) == find_key(s, h),
{
    let t = s.push(x);
    lemma_find_key(t, x.key());
    lemma_find_key(s, x.key());
    assert forall|j: int| 0 <= j < s.len() implies t[j].key() != x.key() by {
        assert(t[j] == s[j]);
    }
    assert(t[s.len() as int].key() == x.key());
    assert(has_key(t, x.key()));
    if unique_keys(s) {
        assert forall|i: int, j: int| 0 <= i < t.len() && 0 <= j < t.len() && i != j implies #[trigger] t[i].key() != #[trigger] t[j].key() by {
            if i < s.len() && j < s.len() {
                assert(t[i] == s[i] && t[j] == s[j]);
            } else if i < s.len() {
                assert(t[i] == s[i]);
            } else if j < s.len() {
                assert(t[j] == s[j]);
            }
        }
    }
    assert forall|h: Seq<char>| h != x.key() implies find_key(s.push(x), h) == find_key(s, h) by {
        lemma_find_key(t, h);
        lemma_find_key(s, h);
        if find_key(s, h) is None {
            if let Some(k) = find_key(t, h) {
                if k < s.len() {
                    assert(t[k] == s[k]);
                }
            }
        } else {
            let k = find_key(s, h).unwrap();
            assert(t[k] == s[k]);
            if let Some(k2) = find_key(t, h) {
                if k2 < k {
                    assert(t[k2] == s[k2]);
                }
            }
        }
    }
}

/// Replacing a row by one with the same handle keeps handles unique and
/// every lookup pointing at the same position.
pub proof fn lemma_find_update<T: Keyed>(s: Seq<T>, i: int, x: T)
    requires
        0 <= i < s.len(),
        s[i].key() == x.key(),
    ensures
        unique_keys(s) ==> unique_keys(s.update(i, x)),
        forall|h: Seq<char>| find_key(s.update(i, x), h) == find_key(s, h),
{
    let t = s.update(i, x);
    if unique_keys(s) {
        assert forall|a: int, b: int| 0 <= a < t.len() && 0 <= b < t.len() && a != b implies #[trigger] t[a].key() != #[trigger] t[b].key() by {
            assert(t[a].key() == s[a].key());
            assert(t[b].key() == s[b].key());
        }
    }
    assert forall|h: Seq<char>| find_key(s.update(i, x), h) == find_key(s, h) by {
        lemma_find_key(t, h);
        lemma_find_key(s, h);
        assert forall|j: int| 0 <= j < s.len() implies t[j].key() == s[j].key() by {}
        if let Some(k) = find_key(s, h) {
            if let Some(k2) = find_key(t, h) {
                assert(t[k].key() == s[k].key());
                assert(t[k2].key() == s[k2].key());
            } else {
                assert(t[k].key() == s[k].key());
            }
        } else {
            if let Some(k2) = find_key(t, h) {
                assert(t[k2].key() == s[k2].key());
            }
        }
    }
}

/// Removing a row keeps handles unique; with unique handles its handle is
/// then gone from the table.
pub proof fn lemma_find_remove<T: Keyed>(s: Seq<T>, i: int)
    requires
        0 <= i < s.len(),
    ensures
        unique_keys(s) ==> unique_keys(s.remove(i)),
        unique_keys(s) ==> !has_key(s.remove(i), s[i].key()),
{
    let t = s.remove(i);
    assert forall|j: int| 0 <= j < t.len() implies #[trigger] t[j] == (if j < i {
        s[j]
    } else {
        s[j + 1]
    }) by {}
    if unique_keys(s) {
        assert forall|a: int, b: int| 0 <= a < t.len() && 0 <= b < t.len() && a != b implies #[trigger] t[a].key() != #[trigger] t[b].key() by {
            let a2 = if a < i { a } else { a + 1 };
            let b2 = if b < i { b } else { b + 1 };
            assert(t[a] == s[a2]);
            assert(t[b] == s[b2]);
        }
        if has_key(t, s[i].key()) {
            let j = choose|j: int| 0 <= j < t.len() && #[trigger] t[j].key() == s[i].key();
            let j2 = if j < i { j } else { j + 1 };
            assert(t[j] == s[j2]);
        }
    }
}

/// Some item of `s` links to `h`.
pub open spec fn links_to<T: RefLink>(s: Seq<T>, h: Seq<char>) -> bool {
    exists|k: int| 0 <= k < s.len() && #[trigger] s[k].target() == h
}

/// The items of `s` that do not link to `h`, in order.
pub open spec fn keep_links<T: RefLink>(s: Seq<T>, h: Seq<char>) -> Seq<T>
    decreases s.len(),
{
    if s.len() == 0 {
        Seq::empty()
    } else {
        (if s[0].target() == h {
            Seq::empty()
        } else {
            seq![s[0]]
        }) + keep_links(s.drop_first(), h)
    }
}

/// No kept item links to `h`; without a link to `h` nothing is dropped.
pub proof fn lemma_keep_links<T: RefLink>(s: Seq<T>, h: Seq<char>)
    ensures
        !links_to(keep_links(s, h), h),
        !links_to(s, h) ==> keep_links(s, h) == s,
        keep_links(s, h).len() <= s.len(),
    decreases s.len(),
{
    if s.len() > 0 {
        lemma_keep_links(s.drop_first(), h);
        let head: Seq<T> = if s[0].target() == h {
            Seq::empty()
        } else {
            seq![s[0]]
        };
        let k = keep_links(s, h);
        let rest = keep_links(s.drop_first(), h);
        assert(k == head + rest);
        if links_to(k, h) {
            let j = choose|j: int| 0 <= j < k.len() && #[trigger] k[j].target() == h;
            if j >= head.len() {
                assert(k[j] == rest[j - head.len()]);
            }
        }
        if !links_to(s, h) {
            assert forall|j: int| 0 <= j < s.drop_first().len() implies #[trigger] s.drop_first()[j].target() != h by {
                assert(s.drop_first()[j] == s[j + 1]);
            }
            assert(s[0].target() != h);
            assert(k =~= s);
        }
    }
}

/// `list` without the items that link to `h` (`retain` of the items whose
/// handle differs).
pub fn drop_links_to<T: RefLink>(list: Vec<T>, h: &str) -> (r: Vec<T>)
    ensures
        r@ == keep_links(list@, h@),
{
    let ghost orig = list@;
    let mut src = list;
    let mut out: Vec<T> = Vec::new();
    while src.len() > 0
        invariant
            out@ + keep_links(src@, h@) == keep_links(orig, h@),
        decreases src@.len(),
    {
        let ghost before = src@;
        let x = src.remove(0);
        assert(src@ =~= before.drop_first());
        let keep = !str_eq(x.target_string().as_str(), h);
        let ghost head: Seq<T> = if keep {
            seq![x]
        } else {
            Seq::empty()
        };
        assert(keep_links(before, h@) == head + keep_links(src@, h@));
        if keep {
            out.push(x);
        }
        assert(out@ + keep_links(src@, h@) =~= keep_links(orig, h@));
    }
    assert(keep_links(src@, h@) =~= Seq::<T>::empty());
    assert(out@ =~= keep_links(orig, h@));
    out
}

/// Position of the first row whose handle is `h`.
pub fn find<T: Keyed>(v: &Vec<T>, h: &str) -> (r: Option<usize>)
    ensures
        match r {
            Some(i) => find_key(v@, h@) == Some(i as int),
            None => find_key(v@, h@) is None,
        },
        r matches Some(i) ==> i < v@.len() && v@[i as int].key() == h@,
{
    let mut i: usize = 0;
    while i < v.len()
        invariant
            i <= v@.len(),
            find_key(v@, h@) == key_pos(v@, h@, i as int),
        decreases v.len() - i,
    {
        if str_eq(v[i].key_str(), h) {
            return Some(i);
        }
        i = i + 1;
    }
    None
}

/// Position of the first row whose gramps id is `g`.
pub fn find_gid<T: HasGrampsId>(v: &Vec<T>, g: &str) -> (r: Option<usize>)
    ensures
        match r {
            Some(i) => find_gid_spec(v@, g@) == Some(i as int),
            None => find_gid_spec(v@, g@) is None,
        },
        r matches Some(i) ==> i < v@.len() && v@[i as int].gid() == g@,
{
    let mut i: usize = 0;
    while i < v.len()
        invariant
            i <= v@.len(),
            find_gid_spec(v@, g@) == gid_pos(v@, g@, i as int),
        decreases v.len() - i,
    {
        if str_eq(v[i].gid_str(), g) {
            proof {
                lemma_gid_pos(v@, g@, i as int);
            }
            return Some(i);
        }
        i = i + 1;
    }
    None
}

/// Whether no two rows of `v` share a handle.
pub fn keys_unique<T: Keyed>(v: &Vec<T>) -> (r: bool)
    ensures
        r == unique_keys(v@),
{
    let mut i: usize = 0;
    while i < v.len()
        invariant
            i <= v@.len(),
            forall|a: int, b: int| 0 <= a < i && 0 <= b < v@.len() && a != b ==> #[trigger] v@[a].key() != #[trigger] v@[b].key(),
        decreases v.len() - i,
    {
        let mut j: usize = 0;
        while j < v.len()
            invariant
                i < v@.len(),
                j <= v@.len(),
                forall|a: int, b: int| 0 <= a < i && 0 <= b < v@.len() && a != b ==> #[trigger] v@[a].key() != #[trigger] v@[b].key(),
                forall|b: int| 0 <= b < j && b != i ==> v@[i as int].key() != #[trigger] v@[b].key(),
            decreases v.len() - j,
        {
            if j != i && str_eq(v[i].key_str(), v[j].key_str()) {
                return false;
            }
            j = j + 1;
        }
        i = i + 1;
    }
    true
}

impl Keyed for Person {
    open spec fn key(&self) -> Seq<char> {
        self.handle@
    }

    fn key_str(&self) -> (r: &str) {
        self.handle.as_str()
    }
}

impl Keyed for Family {
    open spec fn key(&self) -> Seq<char> {
        self.handle@
    }

    fn key_str(&self) -> (r: &str) {
        self.handle.as_str()
    }
}

impl Keyed for Event {
    open spec fn key(&self) -> Seq<char> {
        self.handle@
    }

    fn key_str(&self) -> (r: &str) {
        self.handle.as_str()
    }
}

impl Keyed for Place {
    open spec fn key(&self) -> Seq<char> {
        self.handle@
    }

    fn key_str(&self) -> (r: &str) {
        self.handle.as_str()
    }
}

impl Keyed for Source {
    open spec fn key(&self) -> Seq<char> {
        self.handle@
    }

    fn key_str(&self) -> (r: &str) {
        self.handle.as_str()
    }
}

impl Keyed for Citation {
    open spec fn key(&self) -> Seq<char> {
        self.handle@
    }

    fn key_str(&self) -> (r: &str) {
        self.handle.as_str()
    }
}

impl Keyed for Media {
    open spec fn key(&self) -> Seq<char> {
        self.handle@
    }

    fn key_str(&self) -> (r: &str) {
        self.handle.as_str()
    }
}

impl Keyed for Note {
    open spec fn key(&self) -> Seq<char> {
        self.handle@
    }

    fn key_str(&self) -> (r: &str) {
        self.handle.as_str()
    }
}

impl Keyed for Repository {
    open spec fn key(&self) -> Seq<char> {
        self.handle@
    }

    fn key_str(&self) -> (r: &str) {
        self.handle.as_str()
    }
}

impl Keyed for Tag {
    open spec fn key(&self) -> Seq<char> {
        self.handle@
    }

    fn key_str(&self) -> (r: &str) {
        self.handle.as_str()
    }
}

impl HasGrampsId for Person {
    open spec fn gid(&self) -> Seq<char> {
        self.gramps_id@
    }

    fn gid_str(&self) -> (r: &str) {
        self.gramps_id.as_str()
    }
}

impl HasGrampsId for Family {
    open spec fn gid(&self) -> Seq<char> {
        self.gramps_id@
    }

    fn gid_str(&self) -> (r: &str) {
        self.gramps_id.as_str()
    }
}

impl HasGrampsId for Event {
    open spec fn gid(&self) -> Seq<char> {
        self.gramps_id@
    }

    fn gid_str(&self) -> (r: &str) {
        self.gramps_id.as_str()
    }
}

impl HasGrampsId for Place {
    open spec fn gid(&self) -> Seq<char> {
        self.gramps_id@
    }

    fn gid_str(&self) -> (r: &str) {
        self.gramps_id.as_str()
    }
}

impl HasGrampsId for Source {
    open spec fn gid(&self) -> Seq<char> {
        self.gramps_id@
    }

    fn gid_str(&self) -> (r: &str) {
        self.gramps_id.as_str()
    }
}

impl HasGrampsId for Citation {
    open spec fn gid(&self) -> Seq<char> {
        self.gramps_id@
    }

    fn gid_str(&self) -> (r: &str) {
        self.gramps_id.as_str()
    }
}

impl HasGrampsId for Media {
    open spec fn gid(&self) -> Seq<char> {
        self.gramps_id@
    }

    fn gid_str(&self) -> (r: &str) {
        self.gramps_id.as_str()
    }
}

impl HasGrampsId for Note {
    open spec fn gid(&self) -> Seq<char> {
        self.gramps_id@
    }

    fn gid_str(&self) -> (r: &str) {
        self.gramps_id.as_str()
    }
}

impl HasGrampsId for Repository {
    open spec fn gid(&self) -> Seq<char> {
        self.gramps_id@
    }

    fn gid_str(&self) -> (r: &str) {
        self.gramps_id.as_str()
    }
}

impl RefLink for String {
    open spec fn target(&self) -> Seq<char> {
        self@
    }

    fn target_string(&self) -> (r: &String) {
        self
    }
}

impl RefLink for EventRef {
    open spec fn target(&self) -> Seq<char> {
        self.ref_@
    }

    fn target_string(&self) -> (r: &String) {
        &self.ref_
    }
}

impl RefLink for MediaRef {
    open spec fn target(&self) -> Seq<char> {
        self.ref_@
    }

    fn target_string(&self) -> (r: &String) {
        &self.ref_
    }
}

impl RefLink for PersonRef {
    open spec fn target(&self) -> Seq<char> {
        self.ref_@
    }

    fn target_string(&self) -> (r: &String) {
        &self.ref_
    }
}

impl RefLink for ChildRef {
    open spec fn target(&self) -> Seq<char> {
        self.ref_@
    }

    fn target_string(&self) -> (r: &String) {
        &self.ref_
    }
}

impl RefLink for RepoRef {
    open spec fn target(&self) -> Seq<char> {
        self.ref_@
    }

    fn target_string(&self) -> (r: &String) {
        &self.ref_
    }
}

impl RefLink for PlaceRef {
    open spec fn target(&self) -> Seq<char> {
        self.ref_@
    }

    fn target_string(&self) -> (r: &String) {
        &self.ref_
    }
}

} // verus!
