use vstd::prelude::*;

verus! {

/// Diagram-wide settings; only the target database dialect is modelled.
#[derive(Debug, Clone, PartialEq, Eq)]
pub struct DiagramSettings {
    pub database: String,
}

/// Mathematical model of [`DiagramSettings`].
pub ghost struct DiagramSettingsModel {
    pub database: Seq<char>,
}

impl View for DiagramSettings {
    type V = DiagramSettingsModel;

    open spec fn view(&self) -> DiagramSettingsModel {
        DiagramSettingsModel { database: self.database@ }
    }
}

} // verus!
