//! The canonical, version-independent model of one diagram.
use vstd::prelude::*;

pub mod column_groups;
pub mod diagram;
pub mod diagram_settings;
pub mod diagram_walkers;

pub use column_groups::{
    ColumnGroup, ColumnGroups, Columns as CGColumns, NormalColumn as CGNormalColumn,
};
pub use diagram::Diagram;
pub use diagram_settings::DiagramSettings;
pub use diagram_walkers::{
    Color, Column, Columns, CompoundUniqueKey, CompoundUniqueKeyList, Connections,
    DiagramWalkers, FkColumn, FkColumns, NormalColumn, Relationship, Table,
};

verus! {

/// The view of an optional string.
pub open spec fn opt_str(o: Option<String>) -> Option<Seq<char>> {
    match o {
        Some(s) => Some(s@),
        None => None,
    }
}

} // verus!
