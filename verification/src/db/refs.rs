//! The `reference` table: one row per outbound cross-reference.

use vstd::prelude::*;

use super::keyed::RefLink;
use crate::text::str_eq;

verus! {

/// The class of a primary object, as the `reference` table names it.
#[derive(Debug, Clone, Copy, PartialEq, Eq)]
pub enum ObjClass {
    Person,
    Family,
    Event,
    Place,
    Source,
    Citation,
    Media,
    Note,
    Repository,
    Tag,
}

/// The class name stored in the `obj_class` / `ref_class` columns.
pub open spec fn class_name(c: ObjClass) -> Seq<char> {
    match c {
        ObjClass::Person => "Person"@,
        ObjClass::Family => "Family"@,
        ObjClass::Event => "Event"@,
        ObjClass::Place => "Place"@,
        ObjClass::Source => "Source"@,
        ObjClass::Citation => "Citation"@,
        ObjClass::Media => "Media"@,
        ObjClass::Note => "Note"@,
        ObjClass::Repository => "Repository"@,
        ObjClass::Tag => "Tag"@,
    }
}

impl ObjClass {
    /// The class name stored in the `obj_class` / `ref_class` columns.
    pub fn name(&self) -> (r: &'static str)
        ensures
            r@ == class_name(*self),
    {
        match self {
            ObjClass::Person => "Person",
            ObjClass::Family => "Family",
            ObjClass::Event => "Event",
            ObjClass::Place => "Place",
            ObjClass::Source => "Source",
            ObjClass::Citation => "Citation",
            ObjClass::Media => "Media",
            ObjClass::Note => "Note",
            ObjClass::Repository => "Repository",
            ObjClass::Tag => "Tag",
        }
    }
}

/// One row of the `reference` table: `obj_handle` points at `ref_handle`.
#[derive(Debug, Clone)]
pub struct Reference {
    pub obj_handle: String,
    pub obj_class: ObjClass,
    pub ref_handle: String,
    pub ref_class: ObjClass,
}

/// An outbound link as handle text and class.
pub type Link = (Seq<char>, ObjClass);

/// The links of a list of `(handle, class)` pairs.
pub open spec fn links_view(v: Seq<(String, ObjClass)>) -> Seq<Link> {
    v.map_values(|l: (String, ObjClass)| (l.0@, l.1))
}

/// The links that every item of `list` makes, all of class `c`.
pub open spec fn links_of<T: RefLink>(list: Seq<T>, c: ObjClass) -> Seq<Link> {
    list.map_values(|x: T| (x.target(), c))
}

/// The outbound links recorded for object `h`, in table order.
pub open spec fn refs_from(rows: Seq<Reference>, h: Seq<char>) -> Seq<Link>
    decreases rows.len(),
{
    if rows.len() == 0 {
        Seq::empty()
    } else {
        let r = rows.last();
        refs_from(rows.drop_last(), h) + if r.obj_handle@ == h {
            seq![(r.ref_handle@, r.ref_class)]
        } else {
            Seq::empty()
        }
    }
}

/// The number of rows that point at `h`.
pub open spec fn inbound(rows: Seq<Reference>, h: Seq<char>) -> nat
    decreases rows.len(),
{
    if rows.len() == 0 {
        0
    } else {
        inbound(rows.drop_last(), h) + if rows.last().ref_handle@ == h {
            1nat
        } else {
            0nat
        }
    }
}

/// The rows that remain once those of object `h` are removed.
pub open spec fn drop_obj(rows: Seq<Reference>, h: Seq<char>) -> Seq<Reference>
    decreases rows.len(),
{
    if rows.len() == 0 {
        Seq::empty()
    } else {
        let r = rows.last();
        drop_obj(rows.drop_last(), h) + if r.obj_handle@ == h {
            Seq::empty()
        } else {
            seq![r]
        }
    }
}

/// `rows` are the rows of object `h` of class `c` for the links `refs`.
pub open spec fn rows_for(rows: Seq<Reference>, h: Seq<char>, c: ObjClass, refs: Seq<Link>) -> bool {
    &&& rows.len() == refs.len()
    &&& forall|k: int| 0 <= k < rows.len() ==> {
        &&& (#[trigger] rows[k]).obj_handle@ == h
        &&& rows[k].obj_class == c
        &&& rows[k].ref_handle@ == refs[k].0
        &&& rows[k].ref_class == refs[k].1
    }
}

pub proof fn lemma_refs_from_append(a: Seq<Reference>, b: Seq<Reference>, h: Seq<char>)
    ensures
        refs_from(a + b, h) == refs_from(a, h) + refs_from(b, h),
        inbound(a + b, h) == inbound(a, h) + inbound(b, h),
        drop_obj(a + b, h) == drop_obj(a, h) + drop_obj(b, h),
    decreases b.len(),
{
    if b.len() == 0 {
        assert(a + b =~= a);
        assert(refs_from(a, h) + refs_from(b, h) =~= refs_from(a, h));
        assert(drop_obj(a, h) + drop_obj(b, h) =~= drop_obj(a, h));
    } else {
        lemma_refs_from_append(a, b.drop_last(), h);
        assert((a + b).drop_last() =~= a + b.drop_last());
        assert((a + b).last() == b.last());
        assert(refs_from(a + b, h) =~= refs_from(a, h) + refs_from(b, h));
        assert(drop_obj(a + b, h) =~= drop_obj(a, h) + drop_obj(b, h));
    }
}

pub proof fn lemma_drop_obj(rows: Seq<Reference>, h: Seq<char>, g: Seq<char>)
    ensures
        refs_from(drop_obj(rows, h), h) == Seq::<Link>::empty(),
        g != h ==> refs_from(drop_obj(rows, h), g) == refs_from(rows, g),
        inbound(drop_obj(rows, h), g) <= inbound(rows, g),
    decreases rows.len(),
{
    if rows.len() > 0 {
        lemma_drop_obj(rows.drop_last(), h, g);
        let r = rows.last();
        let d = drop_obj(rows.drop_last(), h);
        let tail: Seq<Reference> = if r.obj_handle@ == h {
            Seq::empty()
        } else {
            seq![r]
        };
        assert(drop_obj(rows, h) == d + tail);
        lemma_refs_from_append(d, tail, h);
        lemma_refs_from_append(d, tail, g);
        if r.obj_handle@ == h {
            assert(refs_from(tail, g) == Seq::<Link>::empty());
            assert(refs_from(tail, h) == Seq::<Link>::empty());
            assert(inbound(tail, g) == 0);
        } else {
            assert(tail.drop_last() =~= Seq::<Reference>::empty());
            assert(tail.last() == r);
            assert(refs_from(tail.drop_last(), h) == Seq::<Link>::empty());
            assert(refs_from(tail.drop_last(), g) == Seq::<Link>::empty());
            assert(inbound(tail.drop_last(), g) == 0);
            assert(inbound(tail, g) <= 1);
            assert(inbound(tail, g) == 1 ==> r.ref_handle@ == g);
            assert(refs_from(tail, h) =~= Seq::<Link>::empty());
            assert(refs_from(tail, g) =~= if r.obj_handle@ == g {
                seq![(r.ref_handle@, r.ref_class)]
            } else {
                Seq::<Link>::empty()
            });
        }
        assert(refs_from(drop_obj(rows, h), h) =~= Seq::<Link>::empty());
        if g != h {
            assert(refs_from(drop_obj(rows, h), g) =~= refs_from(rows, g));
        }
    }
}

pub proof fn lemma_rows_for(rows: Seq<Reference>, h: Seq<char>, c: ObjClass, refs: Seq<Link>, g: Seq<char>)
    requires
        rows_for(rows, h, c, refs),
    ensures
        refs_from(rows, h) == refs,
        g != h ==> refs_from(rows, g) == Seq::<Link>::empty(),
        drop_obj(rows, h) == Seq::<Reference>::empty(),
    decreases rows.len(),
{
    if rows.len() > 0 {
        lemma_rows_for(rows.drop_last(), h, c, refs.drop_last(), g);
        assert(refs_from(rows, h) =~= refs);
        assert(drop_obj(rows, h) =~= Seq::<Reference>::empty());
    }
}

/// Row `r` is the row of object `h` of class `c` for link `l`.
pub open spec fn row_matches(r: Reference, h: Seq<char>, c: ObjClass, l: (String, ObjClass)) -> bool {
    &&& r.obj_handle@ == h
    &&& r.obj_class == c
    &&& r.ref_handle@ == l.0@
    &&& r.ref_class == l.1
}

/// Number of `reference` rows that point at `handle`: the objects that
/// still use it.
pub fn inbound_ref_count(rows: &Vec<Reference>, handle: &str) -> (r: usize)
    ensures
        r == inbound(rows@, handle@),
{
    let mut n: usize = 0;
    let mut i: usize = 0;
    while i < rows.len()
        invariant
            i <= rows@.len(),
            n == inbound(rows@.subrange(0, i as int), handle@),
            n <= i,
        decreases rows.len() - i,
    {
        assert(rows@.subrange(0, i + 1).drop_last() =~= rows@.subrange(0, i as int));
        if str_eq(rows[i].ref_handle.as_str(), handle) {
            n = n + 1;
        }
        i = i + 1;
    }
    assert(rows@.subrange(0, rows@.len() as int) =~= rows@);
    n
}

/// Replaces the `reference` rows of object `obj_handle` by one row per link
/// in `links`, keeping every other row in place and in order.
pub fn rewrite_references(
    rows: &mut Vec<Reference>,
    obj_handle: &String,
    obj_class: ObjClass,
    links: &Vec<(String, ObjClass)>,
)
    ensures
        exists|added: Seq<Reference>|
            {
                &&& final(rows)@ == drop_obj(old(rows)@, obj_handle@) + added
                &&& rows_for(added, obj_handle@, obj_class, links_view(links@))
            },
        forall|g: Seq<char>|
            #[trigger] refs_from(final(rows)@, g) == if g == obj_handle@ {
                links_view(links@)
            } else {
                refs_from(old(rows)@, g)
            },
{
    let ghost old_rows = rows@;
    let mut kept: Vec<Reference> = Vec::new();
    let mut i: usize = 0;
    let n = rows.len();
    while i < n
        invariant
            n == old_rows.len(),
            rows@ == old_rows,
            i <= n,
            kept@ == drop_obj(old_rows.subrange(0, i as int), obj_handle@),
        decreases n - i,
    {
        assert(old_rows.subrange(0, i + 1).drop_last() =~= old_rows.subrange(0, i as int));
        if !str_eq(rows[i].obj_handle.as_str(), obj_handle.as_str()) {
            let r = Reference {
                obj_handle: rows[i].obj_handle.clone(),
                obj_class: rows[i].obj_class,
                ref_handle: rows[i].ref_handle.clone(),
                ref_class: rows[i].ref_class,
            };
            assert(r == rows@[i as int]);
            kept.push(r);
        }
        i = i + 1;
        assert(kept@ =~= drop_obj(old_rows.subrange(0, i as int), obj_handle@));
    }
    assert(old_rows.subrange(0, n as int) =~= old_rows);
    let ghost base = kept@;
    let mut j: usize = 0;
    while j < links.len()
        invariant
            j <= links@.len(),
            base == drop_obj(old_rows, obj_handle@),
            kept@.len() == base.len() + j,
            forall|k: int| 0 <= k < base.len() ==> kept@[k] == base[k],
            forall|k: int|
                0 <= k < j ==> row_matches(#[trigger] kept@[base.len() + k], obj_handle@, obj_class, links@[k]),
        decreases links.len() - j,
    {
        let r = Reference {
            obj_handle: obj_handle.clone(),
            obj_class: obj_class,
            ref_handle: links[j].0.clone(),
            ref_class: links[j].1,
        };
        kept.push(r);
        j = j + 1;
    }
    let ghost added = kept@.subrange(base.len() as int, kept@.len() as int);
    assert forall|k: int| 0 <= k < added.len() implies {
        &&& (#[trigger] added[k]).obj_handle@ == obj_handle@
        &&& added[k].obj_class == obj_class
        &&& added[k].ref_handle@ == links_view(links@)[k].0
        &&& added[k].ref_class == links_view(links@)[k].1
    } by {
        assert(added[k] == kept@[base.len() + k]);
    }
    assert(kept@ =~= base + added);
    *rows = kept;
    assert forall|g: Seq<char>| #[trigger] refs_from(rows@, g) == if g == obj_handle@ {
        links_view(links@)
    } else {
        refs_from(old_rows, g)
    } by {
        lemma_refs_from_append(base, added, g);
        lemma_drop_obj(old_rows, obj_handle@, g);
        lemma_rows_for(added, obj_handle@, obj_class, links_view(links@), g);
        if g == obj_handle@ {
            assert(refs_from(rows@, g) =~= links_view(links@));
        } else {
            assert(refs_from(rows@, g) =~= refs_from(old_rows, g));
        }
    }
}

/// Removes the `reference` rows of object `obj_handle` (its outbound
/// references), keeping every other row in place and in order.
pub fn remove_references(rows: &mut Vec<Reference>, obj_handle: &str)
    ensures
        final(rows)@ == drop_obj(old(rows)@, obj_handle@),
{
    let ghost old_rows = rows@;
    let mut kept: Vec<Reference> = Vec::new();
    let mut i: usize = 0;
    let n = rows.len();
    while i < n
        invariant
            n == old_rows.len(),
            rows@ == old_rows,
            i <= n,
            kept@ == drop_obj(old_rows.subrange(0, i as int), obj_handle@),
        decreases n - i,
    {
        assert(old_rows.subrange(0, i + 1).drop_last() =~= old_rows.subrange(0, i as int));
        if !str_eq(rows[i].obj_handle.as_str(), obj_handle) {
            let r = Reference {
                obj_handle: rows[i].obj_handle.clone(),
                obj_class: rows[i].obj_class,
                ref_handle: rows[i].ref_handle.clone(),
                ref_class: rows[i].ref_class,
            };
            assert(r == rows@[i as int]);
            kept.push(r);
        }
        i = i + 1;
        assert(kept@ =~= drop_obj(old_rows.subrange(0, i as int), obj_handle@));
    }
    assert(old_rows.subrange(0, n as int) =~= old_rows);
    *rows = kept;
}

/// A single link to `h` when `h` is set (non-empty), else none.
pub open spec fn opt_link(h: Seq<char>, c: ObjClass) -> Seq<Link> {
    if h.len() > 0 {
        seq![(h, c)]
    } else {
        Seq::empty()
    }
}

/// Appends a link to `h` when `h` is set (non-empty).
pub fn push_opt_link(out: &mut Vec<(String, ObjClass)>, h: &String, c: ObjClass)
    ensures
        links_view(final(out)@) == links_view(old(out)@) + opt_link(h@, c),
{
    if !h.as_str().is_empty() {
        out.push((h.clone(), c));
    }
    assert(links_view(out@) =~= links_view(old(out)@) + opt_link(h@, c));
}

/// Appends one link per item of `list`, all of class `c`.
pub fn push_links<T: RefLink>(out: &mut Vec<(String, ObjClass)>, list: &Vec<T>, c: ObjClass)
    ensures
        links_view(final(out)@) == links_view(old(out)@) + links_of(list@, c),
{
    let mut i: usize = 0;
    while i < list.len()
        invariant
            i <= list@.len(),
            links_view(out@) == links_view(old(out)@) + links_of(list@.subrange(0, i as int), c),
        decreases list.len() - i,
    {
        let ghost prev = out@;
        out.push((list[i].target_string().clone(), c));
        assert(links_view(out@) =~= links_view(prev).push((list@[i as int].target(), c)));
        assert(links_of(list@.subrange(0, i + 1), c) =~= links_of(list@.subrange(0, i as int), c).push(
            (list@[i as int].target(), c),
        ));
        i = i + 1;
    }
    assert(list@.subrange(0, list@.len() as int) =~= list@);
}

} // verus!
