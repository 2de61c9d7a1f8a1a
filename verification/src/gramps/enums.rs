//! English labels for the integer codes of the Gramps tagged enums.
//!
//! Each table is stated once as a spec function over character sequences;
//! the executable lookup returns the same label as a `&'static str`.

use vstd::prelude::*;

verus! {

/// The character sequence of an optional label.
pub open spec fn label_view(r: Option<&str>) -> Option<Seq<char>> {
    match r {
        Some(s) => Some(s@),
        None => None,
    }
}

/// The table behind [`event_type_label`].
pub open spec fn event_type_label_table(value: i32) -> Option<Seq<char>> {
    match value {
        -1 => Some("Unknown"@),
        0 => Some("Custom"@),
        1 => Some("Marriage"@),
        2 => Some("Marriage Settlement"@),
        3 => Some("Marriage License"@),
        4 => Some("Marriage Contract"@),
        5 => Some("Marriage Banns"@),
        6 => Some("Engagement"@),
        7 => Some("Divorce"@),
        8 => Some("Divorce Filing"@),
        9 => Some("Annulment"@),
        10 => Some("Alternate Marriage"@),
        11 => Some("Adopted"@),
        12 => Some("Birth"@),
        13 => Some("Death"@),
        14 => Some("Adult Christening"@),
        15 => Some("Baptism"@),
        16 => Some("Bar Mitzvah"@),
        17 => Some("Bas Mitzvah"@),
        18 => Some("Blessing"@),
        19 => Some("Burial"@),
        20 => Some("Cause Of Death"@),
        21 => Some("Census"@),
        22 => Some("Christening"@),
        23 => Some("Confirmation"@),
        24 => Some("Cremation"@),
        25 => Some("Degree"@),
        26 => Some("Education"@),
        27 => Some("Elected"@),
        28 => Some("Emigration"@),
        29 => Some("First Communion"@),
        30 => Some("Immigration"@),
        31 => Some("Graduation"@),
        32 => Some("Medical Information"@),
        33 => Some("Military Service"@),
        34 => Some("Naturalization"@),
        35 => Some("Nobility Title"@),
        36 => Some("Number of Marriages"@),
        37 => Some("Occupation"@),
        38 => Some("Ordination"@),
        39 => Some("Probate"@),
        40 => Some("Property"@),
        41 => Some("Religion"@),
        42 => Some("Residence"@),
        43 => Some("Retirement"@),
        44 => Some("Will"@),
        _ => None,
    }
}

/// Look up the English label for an event-type value, or None if custom.
pub fn event_type_label(value: i32) -> (r: Option<&'static str>)
    ensures
        label_view(r) == event_type_label_table(value),
{
    match value {
        -1 => Some("Unknown"),
        0 => Some("Custom"),
        1 => Some("Marriage"),
        2 => Some("Marriage Settlement"),
        3 => Some("Marriage License"),
        4 => Some("Marriage Contract"),
        5 => Some("Marriage Banns"),
        6 => Some("Engagement"),
        7 => Some("Divorce"),
        8 => Some("Divorce Filing"),
        9 => Some("Annulment"),
        10 => Some("Alternate Marriage"),
        11 => Some("Adopted"),
        12 => Some("Birth"),
        13 => Some("Death"),
        14 => Some("Adult Christening"),
        15 => Some("Baptism"),
        16 => Some("Bar Mitzvah"),
        17 => Some("Bas Mitzvah"),
        18 => Some("Blessing"),
        19 => Some("Burial"),
        20 => Some("Cause Of Death"),
        21 => Some("Census"),
        22 => Some("Christening"),
        23 => Some("Confirmation"),
        24 => Some("Cremation"),
        25 => Some("Degree"),
        26 => Some("Education"),
        27 => Some("Elected"),
        28 => Some("Emigration"),
        29 => Some("First Communion"),
        30 => Some("Immigration"),
        31 => Some("Graduation"),
        32 => Some("Medical Information"),
        33 => Some("Military Service"),
        34 => Some("Naturalization"),
        35 => Some("Nobility Title"),
        36 => Some("Number of Marriages"),
        37 => Some("Occupation"),
        38 => Some("Ordination"),
        39 => Some("Probate"),
        40 => Some("Property"),
        41 => Some("Religion"),
        42 => Some("Residence"),
        43 => Some("Retirement"),
        44 => Some("Will"),
        _ => None,
    }
}

/// The table behind [`event_role_label`].
pub open spec fn event_role_label_table(value: i32) -> Option<Seq<char>> {
    match value {
        -1 => Some("Unknown"@),
        0 => Some("Custom"@),
        1 => Some("Primary"@),
        2 => Some("Clergy"@),
        3 => Some("Celebrant"@),
        4 => Some("Aide"@),
        5 => Some("Bride"@),
        6 => Some("Groom"@),
        7 => Some("Witness"@),
        8 => Some("Family"@),
        9 => Some("Informant"@),
        _ => None,
    }
}

/// `EventRoleType` — primary/family/witness/etc.
pub fn event_role_label(value: i32) -> (r: Option<&'static str>)
    ensures
        label_view(r) == event_role_label_table(value),
{
    match value {
        -1 => Some("Unknown"),
        0 => Some("Custom"),
        1 => Some("Primary"),
        2 => Some("Clergy"),
        3 => Some("Celebrant"),
        4 => Some("Aide"),
        5 => Some("Bride"),
        6 => Some("Groom"),
        7 => Some("Witness"),
        8 => Some("Family"),
        9 => Some("Informant"),
        _ => None,
    }
}

/// The table behind [`name_type_label`].
pub open spec fn name_type_label_table(value: i32) -> Option<Seq<char>> {
    match value {
        -1 => Some("Unknown"@),
        0 => Some("Custom"@),
        1 => Some("Also Known As"@),
        2 => Some("Birth Name"@),
        3 => Some("Married Name"@),
        _ => None,
    }
}

/// `NameType` — also_known_as / birth / married / aka.
pub fn name_type_label(value: i32) -> (r: Option<&'static str>)
    ensures
        label_view(r) == name_type_label_table(value),
{
    match value {
        -1 => Some("Unknown"),
        0 => Some("Custom"),
        1 => Some("Also Known As"),
        2 => Some("Birth Name"),
        3 => Some("Married Name"),
        _ => None,
    }
}

/// The table behind [`name_origin_label`].
pub open spec fn name_origin_label_table(value: i32) -> Option<Seq<char>> {
    match value {
        -1 => Some("Unknown"@),
        0 => Some("Custom"@),
        1 => Some("None"@),
        2 => Some("Inherited"@),
        3 => Some("Given"@),
        4 => Some("Taken"@),
        5 => Some("Patronymic"@),
        6 => Some("Matronymic"@),
        7 => Some("Feudal"@),
        8 => Some("Pseudonym"@),
        9 => Some("Patrilineal"@),
        10 => Some("Matrilineal"@),
        11 => Some("Occupation"@),
        12 => Some("Location"@),
        _ => None,
    }
}

/// `NameOriginType` — patronymic/given/inherited/...
pub fn name_origin_label(value: i32) -> (r: Option<&'static str>)
    ensures
        label_view(r) == name_origin_label_table(value),
{
    match value {
        -1 => Some("Unknown"),
        0 => Some("Custom"),
        1 => Some("None"),
        2 => Some("Inherited"),
        3 => Some("Given"),
        4 => Some("Taken"),
        5 => Some("Patronymic"),
        6 => Some("Matronymic"),
        7 => Some("Feudal"),
        8 => Some("Pseudonym"),
        9 => Some("Patrilineal"),
        10 => Some("Matrilineal"),
        11 => Some("Occupation"),
        12 => Some("Location"),
        _ => None,
    }
}

/// The five relationship types get five different labels, and each has
/// one.
pub proof fn lemma_family_rel_labels_distinct(t1: i32, t2: i32)
    requires
        0 <= t1 <= 4,
        0 <= t2 <= 4,
    ensures
        family_rel_label_table(t1) is Some,
        t1 != t2 ==> family_rel_label_table(t1) != family_rel_label_table(t2),
{
    reveal_strlit("Married");
    reveal_strlit("Unmarried");
    reveal_strlit("Civil Union");
    reveal_strlit("Unknown");
    reveal_strlit("Custom");
    let a: Seq<char> = "Married"@;
    let b: Seq<char> = "Unmarried"@;
    let c: Seq<char> = "Civil Union"@;
    let d: Seq<char> = "Unknown"@;
    let e: Seq<char> = "Custom"@;
    assert(a.len() == 7 && b.len() == 9 && c.len() == 11 && d.len() == 7 && e.len() == 6);
    assert(a[0] == 'M' && d[0] == 'U');
    if t1 != t2 {
        let l1 = family_rel_label_table(t1)->0;
        let l2 = family_rel_label_table(t2)->0;
        assert(l1.len() != l2.len() || l1[0] != l2[0]);
    }
}

/// The table behind [`family_rel_label`].
pub open spec fn family_rel_label_table(value: i32) -> Option<Seq<char>> {
    match value {
        0 => Some("Married"@),
        1 => Some("Unmarried"@),
        2 => Some("Civil Union"@),
        3 => Some("Unknown"@),
        4 => Some("Custom"@),
        _ => None,
    }
}

/// `FamilyRelType`.
pub fn family_rel_label(value: i32) -> (r: Option<&'static str>)
    ensures
        label_view(r) == family_rel_label_table(value),
{
    match value {
        0 => Some("Married"),
        1 => Some("Unmarried"),
        2 => Some("Civil Union"),
        3 => Some("Unknown"),
        4 => Some("Custom"),
        _ => None,
    }
}

/// The table behind [`child_ref_label`].
pub open spec fn child_ref_label_table(value: i32) -> Option<Seq<char>> {
    match value {
        -1 => Some("Unknown"@),
        0 => Some("Custom"@),
        1 => Some("Birth"@),
        2 => Some("Adopted"@),
        3 => Some("Stepchild"@),
        4 => Some("Sponsored"@),
        5 => Some("Foster"@),
        _ => None,
    }
}

/// `ChildRefType`.
pub fn child_ref_label(value: i32) -> (r: Option<&'static str>)
    ensures
        label_view(r) == child_ref_label_table(value),
{
    match value {
        -1 => Some("Unknown"),
        0 => Some("Custom"),
        1 => Some("Birth"),
        2 => Some("Adopted"),
        3 => Some("Stepchild"),
        4 => Some("Sponsored"),
        5 => Some("Foster"),
        _ => None,
    }
}

/// The table behind [`place_type_label`].
pub open spec fn place_type_label_table(value: i32) -> Option<Seq<char>> {
    match value {
        -1 => Some("Unknown"@),
        0 => Some("Custom"@),
        1 => Some("Country"@),
        2 => Some("State"@),
        3 => Some("County"@),
        4 => Some("City"@),
        5 => Some("Parish"@),
        6 => Some("Locality"@),
        7 => Some("Street"@),
        8 => Some("Province"@),
        9 => Some("Region"@),
        10 => Some("Department"@),
        11 => Some("Neighborhood"@),
        12 => Some("District"@),
        13 => Some("Borough"@),
        14 => Some("Municipality"@),
        15 => Some("Town"@),
        16 => Some("Village"@),
        17 => Some("Hamlet"@),
        18 => Some("Farm"@),
        19 => Some("Building"@),
        20 => Some("Number"@),
        _ => None,
    }
}

/// `PlaceType`.
pub fn place_type_label(value: i32) -> (r: Option<&'static str>)
    ensures
        label_view(r) == place_type_label_table(value),
{
    match value {
        -1 => Some("Unknown"),
        0 => Some("Custom"),
        1 => Some("Country"),
        2 => Some("State"),
        3 => Some("County"),
        4 => Some("City"),
        5 => Some("Parish"),
        6 => Some("Locality"),
        7 => Some("Street"),
        8 => Some("Province"),
        9 => Some("Region"),
        10 => Some("Department"),
        11 => Some("Neighborhood"),
        12 => Some("District"),
        13 => Some("Borough"),
        14 => Some("Municipality"),
        15 => Some("Town"),
        16 => Some("Village"),
        17 => Some("Hamlet"),
        18 => Some("Farm"),
        19 => Some("Building"),
        20 => Some("Number"),
        _ => None,
    }
}

/// The table behind [`note_type_label`].
pub open spec fn note_type_label_table(value: i32) -> Option<Seq<char>> {
    match value {
        -1 => Some("Unknown"@),
        0 => Some("Custom"@),
        1 => Some("General"@),
        2 => Some("Research"@),
        3 => Some("Transcript"@),
        4 => Some("Source text"@),
        5 => Some("Citation"@),
        6 => Some("Report"@),
        7 => Some("Html code"@),
        8 => Some("Todo"@),
        9 => Some("Link"@),
        _ => None,
    }
}

/// `NoteType` — a very large set in Gramps. Returning None here just means
/// the caller should fall back to the raw integer; for Phase 1 we only need
/// the handful that appear in the sample.
pub fn note_type_label(value: i32) -> (r: Option<&'static str>)
    ensures
        label_view(r) == note_type_label_table(value),
{
    match value {
        -1 => Some("Unknown"),
        0 => Some("Custom"),
        1 => Some("General"),
        2 => Some("Research"),
        3 => Some("Transcript"),
        4 => Some("Source text"),
        5 => Some("Citation"),
        6 => Some("Report"),
        7 => Some("Html code"),
        8 => Some("Todo"),
        9 => Some("Link"),
        _ => None,
    }
}

/// The table behind [`attribute_type_label`].
pub open spec fn attribute_type_label_table(value: i32) -> Option<Seq<char>> {
    match value {
        -1 => Some("Unknown"@),
        0 => Some("Custom"@),
        1 => Some("Caste"@),
        2 => Some("Description"@),
        3 => Some("Identification Number"@),
        4 => Some("National Origin"@),
        5 => Some("Number of Children"@),
        6 => Some("Social Security Number"@),
        7 => Some("Nickname"@),
        8 => Some("Cause"@),
        9 => Some("Agency"@),
        10 => Some("Age"@),
        11 => Some("Father's Age"@),
        12 => Some("Mother's Age"@),
        13 => Some("Witness"@),
        14 => Some("Time"@),
        _ => None,
    }
}

/// `AttributeType` — short list; only a few appear in the sample.
pub fn attribute_type_label(value: i32) -> (r: Option<&'static str>)
    ensures
        label_view(r) == attribute_type_label_table(value),
{
    match value {
        -1 => Some("Unknown"),
        0 => Some("Custom"),
        1 => Some("Caste"),
        2 => Some("Description"),
        3 => Some("Identification Number"),
        4 => Some("National Origin"),
        5 => Some("Number of Children"),
        6 => Some("Social Security Number"),
        7 => Some("Nickname"),
        8 => Some("Cause"),
        9 => Some("Agency"),
        10 => Some("Age"),
        11 => Some("Father's Age"),
        12 => Some("Mother's Age"),
        13 => Some("Witness"),
        14 => Some("Time"),
        _ => None,
    }
}

/// The table behind [`source_media_label`].
pub open spec fn source_media_label_table(value: i32) -> Option<Seq<char>> {
    match value {
        -1 => Some("Unknown"@),
        0 => Some("Custom"@),
        1 => Some("Audio"@),
        2 => Some("Book"@),
        3 => Some("Card"@),
        4 => Some("Electronic"@),
        5 => Some("Fiche"@),
        6 => Some("Film"@),
        7 => Some("Magazine"@),
        8 => Some("Manuscript"@),
        9 => Some("Map"@),
        10 => Some("Newspaper"@),
        11 => Some("Photo"@),
        12 => Some("Tombstone"@),
        13 => Some("Video"@),
        _ => None,
    }
}

/// `SourceMediaType` (citation media type).
pub fn source_media_label(value: i32) -> (r: Option<&'static str>)
    ensures
        label_view(r) == source_media_label_table(value),
{
    match value {
        -1 => Some("Unknown"),
        0 => Some("Custom"),
        1 => Some("Audio"),
        2 => Some("Book"),
        3 => Some("Card"),
        4 => Some("Electronic"),
        5 => Some("Fiche"),
        6 => Some("Film"),
        7 => Some("Magazine"),
        8 => Some("Manuscript"),
        9 => Some("Map"),
        10 => Some("Newspaper"),
        11 => Some("Photo"),
        12 => Some("Tombstone"),
        13 => Some("Video"),
        _ => None,
    }
}

/// The table behind [`url_type_label`].
pub open spec fn url_type_label_table(value: i32) -> Option<Seq<char>> {
    match value {
        -1 => Some("Unknown"@),
        0 => Some("Custom"@),
        1 => Some("E-mail"@),
        2 => Some("Web Home"@),
        3 => Some("Web Search"@),
        4 => Some("FTP"@),
        _ => None,
    }
}

/// `UrlType`.
pub fn url_type_label(value: i32) -> (r: Option<&'static str>)
    ensures
        label_view(r) == url_type_label_table(value),
{
    match value {
        -1 => Some("Unknown"),
        0 => Some("Custom"),
        1 => Some("E-mail"),
        2 => Some("Web Home"),
        3 => Some("Web Search"),
        4 => Some("FTP"),
        _ => None,
    }
}

/// The table behind [`repository_type_label`].
pub open spec fn repository_type_label_table(value: i32) -> Option<Seq<char>> {
    match value {
        -1 => Some("Unknown"@),
        0 => Some("Custom"@),
        1 => Some("Library"@),
        2 => Some("Cemetery"@),
        3 => Some("Church"@),
        4 => Some("Archive"@),
        5 => Some("Album"@),
        6 => Some("Web site"@),
        7 => Some("Bookstore"@),
        8 => Some("Collection"@),
        9 => Some("Safe"@),
        _ => None,
    }
}

/// `RepositoryType`.
pub fn repository_type_label(value: i32) -> (r: Option<&'static str>)
    ensures
        label_view(r) == repository_type_label_table(value),
{
    match value {
        -1 => Some("Unknown"),
        0 => Some("Custom"),
        1 => Some("Library"),
        2 => Some("Cemetery"),
        3 => Some("Church"),
        4 => Some("Archive"),
        5 => Some("Album"),
        6 => Some("Web site"),
        7 => Some("Bookstore"),
        8 => Some("Collection"),
        9 => Some("Safe"),
        _ => None,
    }
}

/// The table behind [`calendar_name`].
pub open spec fn calendar_name_table(value: i32) -> Option<Seq<char>> {
    match value {
        0 => Some("Gregorian"@),
        1 => Some("Julian"@),
        2 => Some("Hebrew"@),
        3 => Some("French Republican"@),
        4 => Some("Persian"@),
        5 => Some("Islamic"@),
        6 => Some("Swedish"@),
        _ => None,
    }
}

/// Date calendar id → name.
pub fn calendar_name(value: i32) -> (r: Option<&'static str>)
    ensures
        label_view(r) == calendar_name_table(value),
{
    match value {
        0 => Some("Gregorian"),
        1 => Some("Julian"),
        2 => Some("Hebrew"),
        3 => Some("French Republican"),
        4 => Some("Persian"),
        5 => Some("Islamic"),
        6 => Some("Swedish"),
        _ => None,
    }
}

/// The table behind [`modifier_name`].
pub open spec fn modifier_name_table(value: i32) -> Option<Seq<char>> {
    match value {
        0 => Some(""@),
        1 => Some("before"@),
        2 => Some("after"@),
        3 => Some("about"@),
        4 => Some("range"@),
        5 => Some("span"@),
        6 => Some("textonly"@),
        7 => Some("from"@),
        8 => Some("to"@),
        _ => None,
    }
}

/// Date modifier id → name.
pub fn modifier_name(value: i32) -> (r: Option<&'static str>)
    ensures
        label_view(r) == modifier_name_table(value),
{
    match value {
        0 => Some(""),
        1 => Some("before"),
        2 => Some("after"),
        3 => Some("about"),
        4 => Some("range"),
        5 => Some("span"),
        6 => Some("textonly"),
        7 => Some("from"),
        8 => Some("to"),
        _ => None,
    }
}

/// The table behind [`quality_name`].
pub open spec fn quality_name_table(value: i32) -> Option<Seq<char>> {
    match value {
        0 => Some("regular"@),
        1 => Some("estimated"@),
        2 => Some("calculated"@),
        _ => None,
    }
}

/// Date quality id → name.
pub fn quality_name(value: i32) -> (r: Option<&'static str>)
    ensures
        label_view(r) == quality_name_table(value),
{
    match value {
        0 => Some("regular"),
        1 => Some("estimated"),
        2 => Some("calculated"),
        _ => None,
    }
}

/// The four genders get four different labels, none of them the `?` of a
/// code outside the four.
pub proof fn lemma_gender_labels_distinct(g1: i32, g2: i32)
    requires
        0 <= g1 <= 3,
        0 <= g2 <= 3,
    ensures
        g1 != g2 ==> gender_label_table(g1) != gender_label_table(g2),
        gender_label_table(g1) != "?"@,
{
    reveal_strlit("female");
    reveal_strlit("male");
    reveal_strlit("unknown");
    reveal_strlit("other");
    reveal_strlit("?");
    let f: Seq<char> = "female"@;
    let m: Seq<char> = "male"@;
    let u: Seq<char> = "unknown"@;
    let o: Seq<char> = "other"@;
    let q: Seq<char> = "?"@;
    assert(f.len() == 6 && m.len() == 4 && u.len() == 7 && o.len() == 5 && q.len() == 1);
    let l1 = gender_label_table(g1);
    let l2 = gender_label_table(g2);
    assert(l1.len() != l2.len() || g1 == g2);
}

/// The table behind [`gender_label`].
pub open spec fn gender_label_table(value: i32) -> Seq<char> {
    match value {
        0 => "female"@,
        1 => "male"@,
        2 => "unknown"@,
        3 => "other"@,
        _ => "?"@,
    }
}

/// Gender code → label. Gramps: 0=female, 1=male, 2=unknown, 3=other.
pub fn gender_label(value: i32) -> (r: &'static str)
    ensures
        r@ == gender_label_table(value),
{
    match value {
        0 => "female",
        1 => "male",
        2 => "unknown",
        3 => "other",
        _ => "?",
    }
}

} // verus!
