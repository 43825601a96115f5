use vstd::prelude::*;

use crate::entities::column_groups::{ColumnGroupModel, ColumnGroups};
use crate::entities::diagram_settings::{DiagramSettings, DiagramSettingsModel};
use crate::entities::diagram_walkers::{DiagramWalkers, TableModel};

verus! {

/// One complete diagram: settings, tables and column groups.
#[derive(Debug, Clone, PartialEq, Eq)]
pub struct Diagram {
    pub diagram_settings: DiagramSettings,
    pub diagram_walkers: DiagramWalkers,
    pub column_groups: ColumnGroups,
}

pub ghost struct DiagramModel {
    pub diagram_settings: DiagramSettingsModel,
    pub tables: Seq<TableModel>,
    pub column_groups: Seq<ColumnGroupModel>,
}

impl View for Diagram {
    type V = DiagramModel;

    open spec fn view(&self) -> DiagramModel {
        DiagramModel {
            diagram_settings: self.diagram_settings@,
            tables: self.diagram_walkers@,
            column_groups: self.column_groups@,
        }
    }
}

} // verus!
