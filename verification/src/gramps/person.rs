//! Person, Name, Surname and PersonRef.

use vstd::prelude::*;

use super::common::{Address, Attribute, LdsOrd, MediaRef, Typed, Url};
use super::date::Date;
use super::event::EventRef;

verus! {

#[derive(Debug, Clone)]
pub struct Surname {
    pub class: Option<String>,
    pub surname: String,
    pub prefix: String,
    pub primary: bool,
    pub connector: String,
    pub origintype: Typed,
}

#[derive(Debug, Clone)]
pub struct Name {
    pub class: Option<String>,
    pub first_name: String,
    pub suffix: String,
    pub title: String,
    pub call: String,
    pub nick: String,
    pub famnick: String,
    pub group_as: String,
    pub sort_as: i32,
    pub display_as: i32,
    pub type_: Typed,
    pub date: Option<Date>,
    pub surname_list: Vec<Surname>,
    pub private: bool,
    pub citation_list: Vec<String>,
    pub note_list: Vec<String>,
}

/// The first position at or after `i` of a surname marked primary.
pub open spec fn find_primary(list: Seq<Surname>, i: int) -> Option<int>
    decreases list.len() - i,
{
    if i < 0 || i >= list.len() {
        None
    } else if list[i].primary {
        Some(i)
    } else {
        find_primary(list, i + 1)
    }
}

/// The surname a name is shown and sorted by: the first primary surname,
/// else the first surname, else the empty string.
pub open spec fn display_surname(list: Seq<Surname>) -> Seq<char> {
    match find_primary(list, 0) {
        Some(i) => list[i].surname@,
        None => if list.len() > 0 {
            list[0].surname@
        } else {
            Seq::empty()
        },
    }
}

/// First name and display surname, joined by a space when both are present.
pub open spec fn name_display(n: Name) -> Seq<char> {
    let s = display_surname(n.surname_list@);
    if n.first_name@.len() == 0 {
        s
    } else if s.len() == 0 {
        n.first_name@
    } else {
        n.first_name@ + " "@ + s
    }
}

/// A displayed name shows its parts: a non-empty first name starts it and
/// is all of it when there is no surname; a non-empty surname ends it; with
/// both, a single space stands between them. A name with a first name is
/// never displayed empty.
pub proof fn lemma_name_display_parts(n: Name)
    ensures
        ({
            let f = n.first_name@;
            let s = display_surname(n.surname_list@);
            let d = name_display(n);
            &&& f.len() > 0 ==> d.len() >= f.len() && d.subrange(0, f.len() as int) == f
            &&& f.len() > 0 ==> d.len() > 0
            &&& s.len() == 0 ==> d == f
            &&& s.len() > 0 ==> d.len() >= s.len() && d.subrange(d.len() - s.len(), d.len() as int) == s
            &&& f.len() > 0 && s.len() > 0 ==> d.len() == f.len() + 1 + s.len() && d[f.len() as int] == ' '
        }),
{
    reveal_strlit(" ");
    let f = n.first_name@;
    let s = display_surname(n.surname_list@);
    let d = name_display(n);
    assert(" "@ =~= seq![' ']);
    if f.len() > 0 && s.len() > 0 {
        assert(d.subrange(0, f.len() as int) =~= f);
        assert(d.subrange(d.len() - s.len(), d.len() as int) =~= s);
    } else {
        assert(d.subrange(0, d.len() as int) =~= d);
    }
}

/// The display surname of a list of surnames (see [`display_surname`]).
pub fn primary_surname(list: &Vec<Surname>) -> (r: String)
    ensures
        r@ == display_surname(list@),
{
    let mut i: usize = 0;
    while i < list.len()
        invariant
            0 <= i <= list.len(),
            find_primary(list@, 0) == find_primary(list@, i as int),
        decreases list.len() - i,
    {
        if list[i].primary {
            return list[i].surname.clone();
        }
        i = i + 1;
    }
    if list.len() > 0 {
        list[0].surname.clone()
    } else {
        String::new()
    }
}

impl Name {
    /// First name + primary surname.
    pub fn display(&self) -> (r: String)
        ensures
            r@ == name_display(*self),
    {
        let surname = primary_surname(&self.surname_list);
        if self.first_name.as_str().is_empty() {
            surname
        } else if surname.as_str().is_empty() {
            self.first_name.clone()
        } else {
            let mut out = self.first_name.clone();
            out.append(" ");
            out.append(surname.as_str());
            proof {
                reveal_strlit(" ");
            }
            out
        }
    }
}

#[derive(Debug, Clone)]
pub struct PersonRef {
    pub class: Option<String>,
    /// Handle of the associated person.
    pub ref_: String,
    pub private: bool,
    pub citation_list: Vec<String>,
    pub note_list: Vec<String>,
    pub rel: String,
}

#[derive(Debug, Clone)]
pub struct Person {
    pub class: Option<String>,
    pub handle: String,
    pub gramps_id: String,
    /// 0 female, 1 male, 2 unknown, 3 other.
    pub gender: i32,
    pub change: i64,
    pub private: bool,
    pub primary_name: Name,
    pub alternate_names: Vec<Name>,
    pub event_ref_list: Vec<EventRef>,
    /// Position of the birth event in `event_ref_list`, or -1.
    pub birth_ref_index: i32,
    /// Position of the death event in `event_ref_list`, or -1.
    pub death_ref_index: i32,
    /// Families in which the person is a parent.
    pub family_list: Vec<String>,
    /// Families in which the person is a child.
    pub parent_family_list: Vec<String>,
    pub person_ref_list: Vec<PersonRef>,
    pub address_list: Vec<Address>,
    pub urls: Vec<Url>,
    pub lds_ord_list: Vec<LdsOrd>,
    pub media_list: Vec<MediaRef>,
    pub attribute_list: Vec<Attribute>,
    pub citation_list: Vec<String>,
    pub note_list: Vec<String>,
    pub tag_list: Vec<String>,
}

/// The value of `birth_ref_index` and `death_ref_index` when a document
/// leaves them out: no such event.
pub fn minus_one() -> (r: i32)
    ensures
        r == -1,
{
    -1
}

} // verus!
