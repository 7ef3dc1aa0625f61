//! The closed set of attributes a filter clause may name.

use vstd::prelude::*;
use crate::text::same;

verus! {

/// A queryable attribute of an exoplanet record. A clause can only ever name
/// one of these, so no caller-supplied text reaches a query as a column name.
#[derive(Debug, Clone, Copy, PartialEq, Eq, Structural)]
pub enum Field {
    PlName,
    Hostname,
    SySnum,
    SyPnum,
    SyMnum,
    CbFlag,
    DiscoveryMethod,
    DiscYear,
    DiscRefname,
    DiscPubdate,
}

impl Field {
    /// The column name that stands for this field in a request and in the
    /// query text.
    pub open spec fn name(self) -> Seq<char> {
        match self {
            Field::PlName => "pl_name"@,
            Field::Hostname => "hostname"@,
            Field::SySnum => "sy_snum"@,
            Field::SyPnum => "sy_pnum"@,
            Field::SyMnum => "sy_mnum"@,
            Field::CbFlag => "cb_flag"@,
            Field::DiscoveryMethod => "discovery_method"@,
            Field::DiscYear => "disc_year"@,
            Field::DiscRefname => "disc_refname"@,
            Field::DiscPubdate => "disc_pubdate"@,
        }
    }

    /// The heading under which this field is shown.
    pub open spec fn title(self) -> Seq<char> {
        match self {
            Field::PlName => "Planet Name"@,
            Field::Hostname => "Host Name"@,
            Field::SySnum => "Number of Stars"@,
            Field::SyPnum => "Number of Planets"@,
            Field::SyMnum => "Number of Moons"@,
            Field::CbFlag => "Circumbinary Flag"@,
            Field::DiscoveryMethod => "Discovery Method"@,
            Field::DiscYear => "Discovery Year"@,
            Field::DiscRefname => "Discovery Reference"@,
            Field::DiscPubdate => "Discovery Publication Date"@,
        }
    }

    /// The allow-list, in the order in which the fields are offered.
    pub open spec fn listed() -> Seq<Field> {
        seq![
            Field::PlName,
            Field::Hostname,
            Field::SySnum,
            Field::SyPnum,
            Field::SyMnum,
            Field::CbFlag,
            Field::DiscoveryMethod,
            Field::DiscYear,
            Field::DiscRefname,
            Field::DiscPubdate,
        ]
    }

    /// The field with the given name, if the name is on the allow-list.
    pub open spec fn named(name: Seq<char>) -> Option<Field> {
        if exists|f: Field| #[trigger] f.name() == name {
            Some(choose|f: Field| #[trigger] f.name() == name)
        } else {
            None
        }
    }

    /// The column name of this field.
    pub fn column(&self) -> (column: &'static str)
        ensures
            column@ == self.name(),
    {
        match self {
            Field::PlName => "pl_name",
            Field::Hostname => "hostname",
            Field::SySnum => "sy_snum",
            Field::SyPnum => "sy_pnum",
            Field::SyMnum => "sy_mnum",
            Field::CbFlag => "cb_flag",
            Field::DiscoveryMethod => "discovery_method",
            Field::DiscYear => "disc_year",
            Field::DiscRefname => "disc_refname",
            Field::DiscPubdate => "disc_pubdate",
        }
    }

    /// The heading under which this field is shown.
    pub fn label(&self) -> (label: &'static str)
        ensures
            label@ == self.title(),
    {
        match self {
            Field::PlName => "Planet Name",
            Field::Hostname => "Host Name",
            Field::SySnum => "Number of Stars",
            Field::SyPnum => "Number of Planets",
            Field::SyMnum => "Number of Moons",
            Field::CbFlag => "Circumbinary Flag",
            Field::DiscoveryMethod => "Discovery Method",
            Field::DiscYear => "Discovery Year",
            Field::DiscRefname => "Discovery Reference",
            Field::DiscPubdate => "Discovery Publication Date",
        }
    }

    /// The allow-list, in the order in which the fields are offered.
    pub fn all() -> (fields: Vec<Field>)
        ensures
            fields@ == Field::listed(),
    {
        let mut fields: Vec<Field> = Vec::new();
        fields.push(Field::PlName);
        fields.push(Field::Hostname);
        fields.push(Field::SySnum);
        fields.push(Field::SyPnum);
        fields.push(Field::SyMnum);
        fields.push(Field::CbFlag);
        fields.push(Field::DiscoveryMethod);
        fields.push(Field::DiscYear);
        fields.push(Field::DiscRefname);
        fields.push(Field::DiscPubdate);
        proof {
            assert(fields@ =~= Field::listed());
        }
        fields
    }

    /// Looks a name up on the allow-list.
    pub fn parse(name: &str) -> (field: Option<Field>)
        ensures
            field == Field::named(name@),
    {
        let found = if same(name, "pl_name") {
            Some(Field::PlName)
        } else if same(name, "hostname") {
            Some(Field::Hostname)
        } else if same(name, "sy_snum") {
            Some(Field::SySnum)
        } else if same(name, "sy_pnum") {
            Some(Field::SyPnum)
        } else if same(name, "sy_mnum") {
            Some(Field::SyMnum)
        } else if same(name, "cb_flag") {
            Some(Field::CbFlag)
        } else if same(name, "discovery_method") {
            Some(Field::DiscoveryMethod)
        } else if same(name, "disc_year") {
            Some(Field::DiscYear)
        } else if same(name, "disc_refname") {
            Some(Field::DiscRefname)
        } else if same(name, "disc_pubdate") {
            Some(Field::DiscPubdate)
        } else {
            None
        };
        proof {
            match found {
                Some(f) => {
                    assert(f.name() == name@);
                    lemma_names_differ(f, choose|g: Field| #[trigger] g.name() == name@);
                },
                None => {
                    assert forall|f: Field| #[trigger] f.name() != name@ by {}
                },
            }
        }
        found
    }
}

/// No two fields share a name.
pub proof fn lemma_names_differ(f: Field, g: Field)
    requires
        f.name() == g.name(),
    ensures
        f == g,
{
    reveal_strlit("pl_name");
    reveal_strlit("hostname");
    reveal_strlit("sy_snum");
    reveal_strlit("sy_pnum");
    reveal_strlit("sy_mnum");
    reveal_strlit("cb_flag");
    reveal_strlit("discovery_method");
    reveal_strlit("disc_year");
    reveal_strlit("disc_refname");
    reveal_strlit("disc_pubdate");
    let a = f.name();
    let b = g.name();
    assert(a.len() == b.len());
    assert(a[0] == b[0]);
    assert(a[3] == b[3]);
    assert(a[5] == b[5]);
}

/// Every field is listed, and listed once.
pub proof fn lemma_listed_once(f: Field)
    ensures
        Field::listed().contains(f),
        forall|i: int, j: int|
            0 <= i < j < Field::listed().len() ==> Field::listed()[i] != Field::listed()[j],
{
    let l = Field::listed();
    assert(l[0] == Field::PlName && l[1] == Field::Hostname && l[2] == Field::SySnum && l[3]
        == Field::SyPnum && l[4] == Field::SyMnum);
    assert(l[5] == Field::CbFlag && l[6] == Field::DiscoveryMethod && l[7] == Field::DiscYear
        && l[8] == Field::DiscRefname && l[9] == Field::DiscPubdate);
}

/// A field is found again under its own name.
pub proof fn lemma_named_finds_name(f: Field)
    ensures
        Field::named(f.name()) == Some(f),
{
    let g = choose|g: Field| #[trigger] g.name() == f.name();
    lemma_names_differ(g, f);
}

} // verus!
