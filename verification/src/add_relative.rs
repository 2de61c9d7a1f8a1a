//! Adding a relative from the tree view: the "add person" form creates the
//! new person with the years it gives, cites the source it gives, and links
//! the person to the one the form was opened on.

use vstd::prelude::*;
use vstd::view::View as _;

use crate::db::keyed::{find, lemma_find_key};
use crate::db::refs::{refs_from, ObjClass};
use crate::db::repo::common::{now_unix, take_row, RepoError};
use crate::db::repo::person::{person_create_done, person_refs, store_person};
use crate::db::repo::relationships::{
    add_child_existing, add_child_existing_done, add_parent_existing, add_parent_existing_done, add_sibling_existing,
    add_sibling_existing_done,
};
use crate::db::repo::{citation, person, source};
use crate::db::snapshot::{only_changed, Snapshot};
use crate::gramps::person::Person;
use crate::text::{parse_or, trimmed};
use crate::ui::{add_request, form_year, AddRelationship, PendingAdd};

verus! {

/// Fresh handles for the rows adding a relative may create.
#[derive(Debug, Clone)]
pub struct TreeAddHandles {
    pub person: String,
    pub birth_event: String,
    pub death_event: String,
    /// A family made when the relationship needs a new one.
    pub family: String,
    pub source: String,
    pub citation: String,
}

/// Person `i` cites `ch`: its `citation_list` gains the handle at the end,
/// the row is restamped and its `reference` rows refreshed.
pub open spec fn citation_attached(a: Snapshot, b: Snapshot, i: int, ch: Seq<char>) -> bool {
    let o = a.persons@[i];
    let n = b.persons@[i];
    &&& 0 <= i < a.persons@.len()
    &&& b.wf()
    &&& only_changed(a, b, set![ObjClass::Person])
    &&& b.persons@ == a.persons@.update(i, n)
    &&& n == Person { citation_list: n.citation_list, change: n.change, ..o }
    &&& n.citation_list@.len() == o.citation_list@.len() + 1
    &&& n.citation_list@.drop_last() == o.citation_list@
    &&& n.citation_list@.last()@ == ch
    &&& forall|g: Seq<char>| #[trigger] refs_from(b.references@, g) == if g == o.handle@ {
        person_refs(n)
    } else {
        refs_from(a.references@, g)
    }
}

/// The link a relationship makes between the new person `ph` and the
/// target: a child of the target, a parent of the target, or a sibling.
pub open spec fn relative_linked(
    a: Snapshot,
    b: Snapshot,
    rel: AddRelationship,
    target: Seq<char>,
    ph: Seq<char>,
    gender: i32,
    fam_h: Seq<char>,
    r: Result<(), RepoError>,
) -> bool {
    match rel {
        AddRelationship::Child => add_child_existing_done(a, b, target, ph, fam_h, r),
        AddRelationship::Father | AddRelationship::Mother => add_parent_existing_done(a, b, target, ph, gender, fam_h, r),
        AddRelationship::Sibling => add_sibling_existing_done(a, b, target, ph, r),
    }
}

/// The last step: the link, whose outcome is the outcome of the whole.
pub open spec fn link_step(a: Snapshot, b: Snapshot, add: PendingAdd, h: TreeAddHandles, i: usize, r: Result<usize, RepoError>) -> bool {
    exists|r5: Result<(), RepoError>| {
        &&& relative_linked(a, b, add.relationship, add.target_handle@, h.person@, parse_or(add.gender_s@, 2), h.family@, r5)
        &&& r == match r5 {
            Ok(()) => Ok::<usize, RepoError>(i),
            Err(e) => Err::<usize, RepoError>(e),
        }
    }
}

/// The source steps for the trimmed source text `src`: create the source,
/// create a citation of it with the text as page and normal confidence,
/// attach the citation to person `i`; then the link.
pub open spec fn cite_step(a: Snapshot, b: Snapshot, add: PendingAdd, h: TreeAddHandles, i: usize, src: Seq<char>, r: Result<usize, RepoError>) -> bool {
    exists|r2: Result<usize, RepoError>, t2: Snapshot| {
        &&& source::source_create_done(a, t2, h.source@, src, Seq::empty(), Seq::empty(), Seq::empty(), r2)
        &&& match r2 {
            Err(e) => r == Err::<usize, RepoError>(e) && b == t2,
            Ok(_) => exists|r3: Result<usize, RepoError>, t3: Snapshot| {
                &&& citation::citation_create_done(t2, t3, h.citation@, h.source@, src, 2, None, r3)
                &&& match r3 {
                    Err(e) => r == Err::<usize, RepoError>(e) && b == t3,
                    Ok(_) => exists|t4: Snapshot| citation_attached(t3, t4, i as int, h.citation@) && link_step(t4, b, add, h, i, r),
                }
            },
        }
    }
}

/// What adding the relative of the form does: create the person with the
/// form's names, gender and years; when the form gives a source, cite it
/// (see [`cite_step`]); then link the person (see [`relative_linked`]).
/// The result is the new person's position, or the error of the first
/// refused step with the steps before it done; a caller that keeps the
/// tree only on success, as a transaction does, sees nothing of a refusal.
pub open spec fn tree_add_done(a: Snapshot, b: Snapshot, add: PendingAdd, h: TreeAddHandles, r: Result<usize, RepoError>) -> bool {
    exists|r1: Result<usize, RepoError>, t1: Snapshot| {
        &&& person_create_done(
            a,
            t1,
            h.person@,
            add.first_name@,
            add.surname@,
            parse_or(add.gender_s@, 2),
            form_year(add.birth_year_s@),
            form_year(add.death_year_s@),
            h.birth_event@,
            h.death_event@,
            r1,
        )
        &&& match r1 {
            Err(e) => r == Err::<usize, RepoError>(e) && b == t1,
            Ok(i) => if trimmed(add.source_url@).len() == 0 {
                link_step(t1, b, add, h, i, r)
            } else {
                cite_step(t1, b, add, h, i, trimmed(add.source_url@), r)
            },
        }
    }
}

fn link_relative(tree: &mut Snapshot, add: &PendingAdd, h: &TreeAddHandles, gender: i32) -> (r: Result<(), RepoError>)
    requires
        old(tree).wf(),
    ensures
        relative_linked(*old(tree), *final(tree), add.relationship, add.target_handle@, h.person@, gender, h.family@, r),
{
    match add.relationship {
        AddRelationship::Child => add_child_existing(tree, add.target_handle.as_str(), h.person.as_str(), h.family.clone()),
        AddRelationship::Father | AddRelationship::Mother => add_parent_existing(
            tree,
            add.target_handle.as_str(),
            h.person.as_str(),
            gender,
            h.family.clone(),
        ),
        AddRelationship::Sibling => add_sibling_existing(tree, add.target_handle.as_str(), h.person.as_str()),
    }
}

fn attach_citation(tree: &mut Snapshot, i: usize, citation_handle: String)
    requires
        old(tree).wf(),
        i < old(tree).persons@.len(),
    ensures
        citation_attached(*old(tree), *final(tree), i as int, citation_handle@),
{
    let ghost before = tree.persons@;
    let mut p = take_row(&mut tree.persons, i);
    p.citation_list.push(citation_handle);
    let ghost pv = p;
    store_person(tree, i, p, now_unix(), Ghost(before));
    proof {
        assert(tree.persons@[i as int].citation_list@ == pv.citation_list@);
        assert(pv.citation_list@.drop_last() =~= before[i as int].citation_list@);
    }
}

/// Add the relative the form describes; see [`tree_add_done`].
#[verifier::rlimit(40)]
pub fn tree_add(tree: &mut Snapshot, add: &PendingAdd, h: TreeAddHandles) -> (r: Result<usize, RepoError>)
    requires
        old(tree).wf(),
    ensures
        tree_add_done(*old(tree), *final(tree), *add, h, r),
{
    let req = add_request(add);
    let ghost t0 = *tree;
    let r1 = person::create(
        tree,
        h.person.clone(),
        add.first_name.as_str(),
        add.surname.as_str(),
        req.gender,
        req.birth_year,
        req.death_year,
        h.birth_event.clone(),
        h.death_event.clone(),
    );
    let ghost t1 = *tree;
    let i = match r1 {
        Ok(i) => i,
        Err(e) => {
            assert(person_create_done(t0, t1, h.person@, add.first_name@, add.surname@, parse_or(add.gender_s@, 2), form_year(add.birth_year_s@), form_year(add.death_year_s@), h.birth_event@, h.death_event@, r1));
            return Err(e);
        },
    };
    assert(person_create_done(t0, t1, h.person@, add.first_name@, add.surname@, parse_or(add.gender_s@, 2), form_year(add.birth_year_s@), form_year(add.death_year_s@), h.birth_event@, h.death_event@, r1));
    match req.source {
        None => {
            let r5 = link_relative(tree, add, &h, req.gender);
            let r = match r5 {
                Ok(()) => Ok(i),
                Err(e) => Err(e),
            };
            assert(link_step(t1, *tree, *add, h, i, r));
            r
        },
        Some(src) => {
            let r2 = source::create(tree, h.source.clone(), src.as_str(), "", "", "");
            proof {
                reveal_strlit("");
                assert(""@ =~= Seq::<char>::empty());
            }
            let ghost t2 = *tree;
            assert(source::source_create_done(t1, t2, h.source@, src@, Seq::empty(), Seq::empty(), Seq::empty(), r2));
            match r2 {
                Ok(_) => {},
                Err(e) => {
                    assert(cite_step(t1, t2, *add, h, i, src@, Err(e)));
                    return Err(e);
                },
            }
            let r3 = citation::create(tree, h.citation.clone(), h.source.as_str(), src.as_str(), 2, None);
            let ghost t3 = *tree;
            assert(citation::citation_create_done(t2, t3, h.citation@, h.source@, src@, 2, None, r3));
            match r3 {
                Ok(_) => {},
                Err(e) => {
                    assert(cite_step(t1, t3, *add, h, i, src@, Err(e)));
                    return Err(e);
                },
            }
            attach_citation(tree, i, h.citation.clone());
            let ghost t4 = *tree;
            let r5 = link_relative(tree, add, &h, req.gender);
            let r = match r5 {
                Ok(()) => Ok(i),
                Err(e) => Err(e),
            };
            assert(link_step(t4, *tree, *add, h, i, r));
            assert(cite_step(t1, *tree, *add, h, i, src@, r));
            r
        },
    }
}

} // verus!
