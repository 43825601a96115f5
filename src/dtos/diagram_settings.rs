//! Transport shape of the diagram settings.
use vstd::prelude::*;

use crate::entities::diagram_settings as entity;
use crate::entities::diagram_settings::DiagramSettingsModel;

verus! {

#[derive(Debug, Clone, PartialEq, Eq)]
pub struct DiagramSettings {
    pub database: String,
}

impl DiagramSettings {
    pub open spec fn projects(self, e: DiagramSettingsModel) -> bool {
        self.database@ == e.database
    }

    pub fn from(entity: entity::DiagramSettings) -> (r: Self)
        ensures
            r.projects(entity@),
    {
        DiagramSettings { database: entity.database }
    }
}

} // verus!
