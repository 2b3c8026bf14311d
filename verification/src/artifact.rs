//! The artifact record type and the fixed dataset served by the router.

use vstd::prelude::*;

verus! {

/// The mathematical model of an [`Artifact`]: every string field as a
/// sequence of characters.
pub ghost struct ArtifactModel {
    pub id: Seq<char>,
    pub country_of_origin: Seq<char>,
    pub name: Seq<char>,
    pub whereabout: Seq<char>,
    pub year_of_discovery: u16,
}

/// One museum artifact record. Immutable once constructed; `id` is the
/// lookup key used by the router.
pub struct Artifact {
    pub id: String,
    pub country_of_origin: String,
    pub name: String,
    pub whereabout: String,
    pub year_of_discovery: u16,
}

impl View for Artifact {
    type V = ArtifactModel;

    open spec fn view(&self) -> ArtifactModel {
        ArtifactModel {
            id: self.id@,
            country_of_origin: self.country_of_origin@,
            name: self.name@,
            whereabout: self.whereabout@,
            year_of_discovery: self.year_of_discovery,
        }
    }
}

/// The models of a sequence of artifacts, element by element.
pub open spec fn models_of(s: Seq<Artifact>) -> Seq<ArtifactModel> {
    s.map_values(|a: Artifact| a@)
}

/// The fixed dataset, as a mathematical sequence. Both the list handler
/// and the lookup handler are specified against this single definition,
/// so the two can never serve diverging data.
pub open spec fn dataset_model() -> Seq<ArtifactModel> {
    seq![
        ArtifactModel {
            id: "1"@,
            country_of_origin: "Armenia"@,
            name: "Pottery 12B Oregon"@,
            whereabout: "British Museum"@,
            year_of_discovery: 2015,
        },
        ArtifactModel {
            id: "2"@,
            country_of_origin: "Turkey"@,
            name: "Mud Statue Female Goddess H9 Kenneth"@,
            whereabout: "Chinese National Museum - Beijing Branch"@,
            year_of_discovery: 2003,
        },
        ArtifactModel {
            id: "3"@,
            country_of_origin: "Greece"@,
            name: "Hourglass 1765 Poinlace"@,
            whereabout: "Lost"@,
            year_of_discovery: 1979,
        },
        ArtifactModel {
            id: "4"@,
            country_of_origin: "Egypt"@,
            name: "Hieratic Payprus 2000 BCE Tara"@,
            whereabout: "Egypt Cairo Museum"@,
            year_of_discovery: 1988,
        },
    ]
}

/// Builds the fixed dataset. Every handler call constructs its own copy,
/// so there is no shared mutable state anywhere in the library.
pub fn artifacts() -> (v: Vec<Artifact>)
    ensures
        models_of(v@) == dataset_model(),
        v@.len() == 4,
{
    let mut v: Vec<Artifact> = Vec::new();
    v.push(Artifact {
        id: "1".to_owned(),
        country_of_origin: "Armenia".to_owned(),
        name: "Pottery 12B Oregon".to_owned(),
        whereabout: "British Museum".to_owned(),
        year_of_discovery: 2015,
    });
    v.push(Artifact {
        id: "2".to_owned(),
        country_of_origin: "Turkey".to_owned(),
        name: "Mud Statue Female Goddess H9 Kenneth".to_owned(),
        whereabout: "Chinese National Museum - Beijing Branch".to_owned(),
        year_of_discovery: 2003,
    });
    v.push(Artifact {
        id: "3".to_owned(),
        country_of_origin: "Greece".to_owned(),
        name: "Hourglass 1765 Poinlace".to_owned(),
        whereabout: "Lost".to_owned(),
        year_of_discovery: 1979,
    });
    v.push(Artifact {
        id: "4".to_owned(),
        country_of_origin: "Egypt".to_owned(),
        name: "Hieratic Payprus 2000 BCE Tara".to_owned(),
        whereabout: "Egypt Cairo Museum".to_owned(),
        year_of_discovery: 1988,
    });
    proof {
        assert(models_of(v@) =~= dataset_model());
    }
    v
}

} // verus!
