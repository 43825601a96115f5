//! Transport shape of column groups. The group lists are `Option<Vec<_>>` and
//! the column flags `Option<bool>`; a projection always fills them with `Some`.
use vstd::prelude::*;

use crate::entities::column_groups as entity;
use crate::entities::column_groups::{ColumnGroupModel, GroupColumnModel};
use crate::entities::opt_str;

verus! {

#[derive(Debug, Clone, PartialEq, Eq, Default)]
pub struct NormalColumn {
    pub physical_name: String,
    pub logical_name: Option<String>,
    pub column_type: String,
    pub not_null: Option<bool>,
    pub unique_key: Option<bool>,
    pub unsigned: Option<bool>,
}

impl NormalColumn {
    pub open spec fn projects(self, e: GroupColumnModel) -> bool {
        &&& self.physical_name@ == e.physical_name
        &&& opt_str(self.logical_name) == e.logical_name
        &&& self.column_type@ == e.column_type
        &&& self.not_null == Some(e.not_null)
        &&& self.unique_key == Some(e.unique_key)
        &&& self.unsigned == Some(e.unsigned)
    }

    pub fn from(entity: entity::NormalColumn) -> (r: Self)
        ensures
            r.projects(entity@),
    {
        NormalColumn {
            physical_name: entity.physical_name,
            logical_name: entity.logical_name,
            column_type: entity.column_type,
            not_null: Some(entity.not_null),
            unique_key: Some(entity.unique_key),
            unsigned: Some(entity.unsigned),
        }
    }
}

#[derive(Debug, Clone, PartialEq, Eq)]
pub struct Columns {
    pub normal_columns: Option<Vec<NormalColumn>>,
}

impl Columns {
    pub open spec fn projects(self, e: Seq<GroupColumnModel>) -> bool {
        match self.normal_columns {
            Some(v) => v@.len() == e.len() && forall|i: int|
                0 <= i < e.len() ==> (#[trigger] v@[i]).projects(e[i]),
            None => false,
        }
    }

    pub fn from(entity: entity::Columns) -> (r: Self)
        ensures
            r.projects(entity@),
    {
        let ghost src = entity.normal_columns@;
        let mut out: Vec<NormalColumn> = Vec::new();
        for x in it: entity.normal_columns.into_iter()
            invariant
                it.seq() == src,
                out@.len() == it.index(),
                forall|k: int| 0 <= k < it.index() ==> (#[trigger] out@[k]).projects(src[k]@),
        {
            out.push(NormalColumn::from(x));
        }
        Columns { normal_columns: Some(out) }
    }
}

#[derive(Debug, Clone, PartialEq, Eq)]
pub struct ColumnGroup {
    pub column_group_name: String,
    pub columns: Columns,
}

impl ColumnGroup {
    pub open spec fn projects(self, e: ColumnGroupModel) -> bool {
        self.column_group_name@ == e.column_group_name && self.columns.projects(e.columns)
    }

    pub fn from(entity: entity::ColumnGroup) -> (r: Self)
        ensures
            r.projects(entity@),
    {
        ColumnGroup {
            column_group_name: entity.column_group_name,
            columns: Columns::from(entity.columns),
        }
    }
}

#[derive(Debug, Clone, PartialEq, Eq)]
pub struct ColumnGroups {
    pub column_groups: Option<Vec<ColumnGroup>>,
}

impl ColumnGroups {
    pub open spec fn projects(self, e: Seq<ColumnGroupModel>) -> bool {
        match self.column_groups {
            Some(v) => v@.len() == e.len() && forall|i: int|
                0 <= i < e.len() ==> (#[trigger] v@[i]).projects(e[i]),
            None => false,
        }
    }

    pub fn from(entity: entity::ColumnGroups) -> (r: Self)
        ensures
            r.projects(entity@),
    {
        let ghost src = entity.column_groups@;
        let mut out: Vec<ColumnGroup> = Vec::new();
        for x in it: entity.column_groups.into_iter()
            invariant
                it.seq() == src,
                out@.len() == it.index(),
                forall|k: int| 0 <= k < it.index() ==> (#[trigger] out@[k]).projects(src[k]@),
        {
            out.push(ColumnGroup::from(x));
        }
        ColumnGroups { column_groups: Some(out) }
    }
}

} // verus!
