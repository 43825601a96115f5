use vstd::prelude::*;

use crate::entities::opt_str;

verus! {

/// A column inside a reusable column group.
#[derive(Debug, Clone, PartialEq, Eq, Default)]
pub struct NormalColumn {
    pub physical_name: String,
    pub logical_name: Option<String>,
    pub column_type: String,
    pub not_null: bool,
    pub unique_key: bool,
    pub unsigned: bool,
}

pub ghost struct GroupColumnModel {
    pub physical_name: Seq<char>,
    pub logical_name: Option<Seq<char>>,
    pub column_type: Seq<char>,
    pub not_null: bool,
    pub unique_key: bool,
    pub unsigned: bool,
}

impl View for NormalColumn {
    type V = GroupColumnModel;

    open spec fn view(&self) -> GroupColumnModel {
        GroupColumnModel {
            physical_name: self.physical_name@,
            logical_name: opt_str(self.logical_name),
            column_type: self.column_type@,
            not_null: self.not_null,
            unique_key: self.unique_key,
            unsigned: self.unsigned,
        }
    }
}

/// The ordered columns of a column group.
#[derive(Debug, Clone, PartialEq, Eq)]
pub struct Columns {
    pub normal_columns: Vec<NormalColumn>,
}

impl View for Columns {
    type V = Seq<GroupColumnModel>;

    open spec fn view(&self) -> Seq<GroupColumnModel> {
        self.normal_columns@.map_values(|c: NormalColumn| c@)
    }
}

/// A named, reusable list of columns.
#[derive(Debug, Clone, PartialEq, Eq)]
pub struct ColumnGroup {
    pub column_group_name: String,
    pub columns: Columns,
}

pub ghost struct ColumnGroupModel {
    pub column_group_name: Seq<char>,
    pub columns: Seq<GroupColumnModel>,
}

impl View for ColumnGroup {
    type V = ColumnGroupModel;

    open spec fn view(&self) -> ColumnGroupModel {
        ColumnGroupModel { column_group_name: self.column_group_name@, columns: self.columns@ }
    }
}

/// All column groups of a diagram, in file order.
#[derive(Debug, Clone, PartialEq, Eq)]
pub struct ColumnGroups {
    pub column_groups: Vec<ColumnGroup>,
}

impl View for ColumnGroups {
    type V = Seq<ColumnGroupModel>;

    open spec fn view(&self) -> Seq<ColumnGroupModel> {
        self.column_groups@.map_values(|g: ColumnGroup| g@)
    }
}

} // verus!
