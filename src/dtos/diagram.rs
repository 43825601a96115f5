//! Transport shape of a whole diagram.
use vstd::prelude::*;

use crate::dtos::column_groups::ColumnGroups;
use crate::dtos::diagram_settings::DiagramSettings;
use crate::dtos::diagram_walkers::DiagramWalkers;
use crate::entities::diagram as entity;
use crate::entities::diagram::DiagramModel;

verus! {

#[derive(Debug, Clone, PartialEq, Eq)]
pub struct Diagram {
    pub diagram_settings: DiagramSettings,
    pub diagram_walkers: DiagramWalkers,
    pub column_groups: ColumnGroups,
}

impl Diagram {
    /// Field by field, `self` carries exactly the information of `e`.
    pub open spec fn projects(self, e: DiagramModel) -> bool {
        &&& self.diagram_settings.projects(e.diagram_settings)
        &&& self.diagram_walkers.projects(e.tables)
        &&& self.column_groups.projects(e.column_groups)
    }

    /// The transport-shaped copy of a canonical diagram.
    pub fn from(entity: entity::Diagram) -> (r: Self)
        ensures
            r.projects(entity@),
    {
        Diagram {
            diagram_settings: DiagramSettings::from(entity.diagram_settings),
            diagram_walkers: DiagramWalkers::from(entity.diagram_walkers),
            column_groups: ColumnGroups::from(entity.column_groups),
        }
    }
}

} // verus!
